use pingap_docker_provider::models::ContainerInfo;

fn entry(k: &str, v: &str) -> (String, String) {
    (k.to_string(), v.to_string())
}

fn create_test_container(labels: Vec<(String, String)>) -> ContainerInfo {
    ContainerInfo {
        id: "test123".to_string(),
        name: "/test-container".to_string(),
        labels,
        ip_address: Some("192.168.1.100".to_string()),
        ports: vec![8080],
        networks: vec![
            entry("bridge", "172.17.0.2"),
            entry("custom", "192.168.1.100"),
        ],
    }
}

#[test]
fn test_disabled_container() {
    let container = create_test_container(Vec::new());
    assert!(container.parse_pingap_config().unwrap().is_none());
}

#[test]
fn test_basic_host_alias() {
    let labels = vec![
        entry("pingap.enable", "true"),
        entry("pingap.http.host", "example.com"),
    ];

    let config = create_test_container(labels).parse_pingap_config().unwrap().unwrap();
    assert_eq!(config.location.rule, "Host(`example.com`)");
}

#[test]
fn test_path_alias() {
    let labels = vec![
        entry("pingap.enable", "true"),
        entry("pingap.http.paths", "/api,/v1"),
    ];

    let config = create_test_container(labels).parse_pingap_config().unwrap().unwrap();
    assert!(config.location.rule.contains("PathPrefix(`/api`)"));
    assert!(config.location.rule.contains("PathPrefix(`/v1`)"));
}

#[test]
fn test_explicit_port() {
    let labels = vec![
        entry("pingap.enable", "true"),
        entry("pingap.service.port", "3000"),
        entry("pingap.http.host", "app.local"),
    ];

    let config = create_test_container(labels).parse_pingap_config().unwrap().unwrap();
    assert_eq!(config.upstreams[0], "192.168.1.100:3000");
}

#[test]
fn test_network_selection() {
    let labels = vec![
        entry("pingap.enable", "true"),
        entry("pingap.docker.network", "bridge"),
        entry("pingap.http.host", "app.local"),
    ];

    let config = create_test_container(labels).parse_pingap_config().unwrap().unwrap();
    assert_eq!(config.upstreams[0], "172.17.0.2:8080");
}

#[test]
fn test_priority() {
    let labels = vec![
        entry("pingap.enable", "true"),
        entry("pingap.http.host", "app.local"),
        entry("pingap.http.priority", "10"),
    ];

    let config = create_test_container(labels).parse_pingap_config().unwrap().unwrap();
    assert_eq!(config.location.priority, Some(10));
}

#[test]
fn test_upstream_config() {
    let labels = vec![
        entry("pingap.enable", "true"),
        entry("pingap.http.host", "app.local"),
        entry("pingap.upstream.weight", "50"),
        entry("pingap.upstream.strategy", "hash"),
    ];

    let config = create_test_container(labels).parse_pingap_config().unwrap().unwrap();
    assert!(config.upstream_config.is_some());
    let uc = config.upstream_config.unwrap();
    assert_eq!(uc.weight, Some(50));
    assert_eq!(uc.strategy, Some("hash".to_string()));
}

#[test]
fn test_health_check() {
    let labels = vec![
        entry("pingap.enable", "true"),
        entry("pingap.http.host", "app.local"),
        entry("pingap.health_check.path", "/health"),
        entry("pingap.health_check.interval", "10s"),
    ];

    let config = create_test_container(labels).parse_pingap_config().unwrap().unwrap();
    let hc = config.health_check.unwrap();
    assert_eq!(hc.path, "/health");
    assert_eq!(hc.interval, Some("10s".to_string()));
}

#[test]
fn test_middlewares() {
    let labels = vec![
        entry("pingap.enable", "true"),
        entry("pingap.http.host", "app.local"),
        entry("pingap.middleware.strip_prefix", "/api"),
        entry("pingap.middleware.compress", "true"),
        entry("pingap.middleware.ratelimit.average", "100"),
    ];

    let config = create_test_container(labels).parse_pingap_config().unwrap().unwrap();
    let mw = config.middleware_config.unwrap();
    assert_eq!(mw.strip_prefix, Some("/api".to_string()));
    assert_eq!(mw.compress, Some(true));
    assert_eq!(mw.ratelimit_average, Some(100));
}

#[test]
fn test_tls_config() {
    let labels = vec![
        entry("pingap.enable", "true"),
        entry("pingap.http.host", "app.local"),
        entry("pingap.http.tls.enabled", "true"),
        entry("pingap.tls.redirect", "true"),
        entry("pingap.tls.domains", "example.com"),
    ];

    let config = create_test_container(labels).parse_pingap_config().unwrap().unwrap();
    assert_eq!(config.location.tls, Some(true));
    let tls = config.tls_config.unwrap();
    assert!(tls.enabled);
    assert_eq!(tls.redirect, Some(true));
}

#[test]
fn test_missing_routing_rule_error() {
    let labels = vec![entry("pingap.enable", "true")];

    let result = create_test_container(labels).parse_pingap_config();
    assert!(result.is_err());
}

#[test]
fn test_invalid_network_error() {
    let labels = vec![
        entry("pingap.enable", "true"),
        entry("pingap.docker.network", "nonexistent"),
        entry("pingap.http.host", "app.local"),
    ];

    assert!(create_test_container(labels).parse_pingap_config().is_err());
}

#[test]
fn test_explicit_service_address() {
    let labels = vec![
        entry("pingap.enable", "true"),
        entry("pingap.service.address", "10.0.0.5:9000"),
        entry("pingap.http.host", "app.local"),
    ];

    let config = create_test_container(labels).parse_pingap_config().unwrap().unwrap();
    assert_eq!(config.upstreams[0], "10.0.0.5:9000");
}

#[test]
fn test_explicit_rule() {
    let labels = vec![
        entry("pingap.enable", "true"),
        entry("pingap.http.rule", "Host(`custom.com`) && Path(`/special`)"),
    ];

    let config = create_test_container(labels).parse_pingap_config().unwrap().unwrap();
    assert_eq!(config.location.rule, "Host(`custom.com`) && Path(`/special`)");
}

#[test]
fn test_host_and_paths_combined() {
    let labels = vec![
        entry("pingap.enable", "true"),
        entry("pingap.http.host", "api.example.com"),
        entry("pingap.http.paths", "/v1,/v2"),
    ];

    let config = create_test_container(labels).parse_pingap_config().unwrap().unwrap();
    assert!(config.location.rule.contains("Host(`api.example.com`)"));
    assert!(config.location.rule.contains("PathPrefix(`/v1`)"));
}

#[test]
fn test_legacy_middlewares_label() {
    let labels = vec![
        entry("pingap.enable", "true"),
        entry("pingap.http.host", "app.local"),
        entry("pingap.http.middlewares", "compress,auth"),
    ];

    let config = create_test_container(labels).parse_pingap_config().unwrap().unwrap();
    assert_eq!(config.location.middlewares, Some(vec!["compress".to_string(), "auth".to_string()]));
}

#[test]
fn test_tls_without_advanced_config() {
    let labels = vec![
        entry("pingap.enable", "true"),
        entry("pingap.http.host", "app.local"),
        entry("pingap.http.tls.enabled", "false"),
    ];

    let config = create_test_container(labels).parse_pingap_config().unwrap().unwrap();
    // TLS enabled is false, not None
    assert_eq!(config.location.tls, Some(false));
    assert!(config.tls_config.is_none());
}

#[test]
fn test_all_middlewares_at_once() {
    let labels = vec![
        entry("pingap.enable", "true"),
        entry("pingap.http.host", "app.local"),
        entry("pingap.middleware.strip_prefix", "/old"),
        entry("pingap.middleware.add_prefix", "/new"),
        entry("pingap.headers.custom_request", "X-Req:val"),
        entry("pingap.headers.custom_response", "X-Resp:val"),
        entry("pingap.headers.cors.enable", "true"),
        entry("pingap.middleware.compress", "true"),
        entry("pingap.middleware.ratelimit.average", "50"),
        entry("pingap.middleware.ratelimit.burst", "25"),
        entry("pingap.middleware.basic_auth", "user:pass"),
        entry("pingap.middleware.redirect_scheme", "https"),
        entry("pingap.middleware.redirect_regex", "^old->new"),
    ];

    let config = create_test_container(labels).parse_pingap_config().unwrap().unwrap();
    let mw = config.middleware_config.unwrap();
    assert_eq!(mw.strip_prefix, Some("/old".to_string()));
    assert_eq!(mw.add_prefix, Some("/new".to_string()));
    assert_eq!(mw.compress, Some(true));
    assert_eq!(mw.ratelimit_average, Some(50));
    assert_eq!(mw.ratelimit_burst, Some(25));
    assert_eq!(mw.basic_auth, Some("user:pass".to_string()));
}

#[test]
fn test_service_name_from_container_name() {
    let labels = vec![
        entry("pingap.enable", "true"),
        entry("pingap.http.host", "test.local"),
    ];

    let config = create_test_container(labels).parse_pingap_config().unwrap().unwrap();
    // Container name is "/test-container", service name should be "test-container" (strip leading /)
    assert_eq!(config.name, "test-container");
}

#[test]
fn test_invalid_priority() {
    let labels = vec![
        entry("pingap.enable", "true"),
        entry("pingap.http.host", "app.local"),
        entry("pingap.http.priority", "invalid"),
    ];

    let config = create_test_container(labels).parse_pingap_config().unwrap().unwrap();
    // Invalid priority should be None
    assert_eq!(config.location.priority, None);
}
