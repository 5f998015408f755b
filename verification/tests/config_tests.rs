use pingap_docker_provider::Config;

#[test]
fn test_config_struct_creation() {
    let config = Config {
        pingap_admin_url: "http://localhost:6188".to_string(),
        docker_host: Some("unix:///var/run/docker.sock".to_string()),
        log_level: "debug".to_string(),
    };

    assert_eq!(config.pingap_admin_url, "http://localhost:6188");
    assert_eq!(config.docker_host, Some("unix:///var/run/docker.sock".to_string()));
    assert_eq!(config.log_level, "debug");
}

#[test]
fn test_config_clone() {
    let config1 = Config {
        pingap_admin_url: "http://pingap:6188".to_string(),
        docker_host: None,
        log_level: "info".to_string(),
    };

    let config2 = config1.clone();
    assert_eq!(config1.pingap_admin_url, config2.pingap_admin_url);
    assert_eq!(config1.docker_host, config2.docker_host);
}

#[test]
fn test_config_defaults() {
    let config = Config {
        pingap_admin_url: "http://pingap:6188".to_string(),
        docker_host: None,
        log_level: "info".to_string(),
    };

    assert_eq!(config.docker_host, None);
    assert_eq!(config.log_level, "info");
}

#[test]
fn test_config_with_all_fields() {
    let config = Config {
        pingap_admin_url: "http://custom:9999".to_string(),
        docker_host: Some("tcp://remote:2375".to_string()),
        log_level: "trace".to_string(),
    };

    assert_eq!(config.pingap_admin_url, "http://custom:9999");
    assert!(config.docker_host.is_some());
    assert_eq!(config.log_level, "trace");
}

#[test]
fn test_config_debug_impl() {
    let config = Config {
        pingap_admin_url: "http://test:6188".to_string(),
        docker_host: None,
        log_level: "info".to_string(),
    };

    let debug_str = format!("{:?}", config);
    assert!(debug_str.contains("Config"));
    assert!(debug_str.contains("http://test:6188"));
}
