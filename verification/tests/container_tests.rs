use pingap_docker_provider::models::ContainerInfo;

fn entry(k: &str, v: &str) -> (String, String) {
    (k.to_string(), v.to_string())
}

#[test]
fn test_container_info_structure() {
    let info = ContainerInfo {
        id: "abc123".to_string(),
        name: "/my-container".to_string(),
        labels: vec![entry("app", "test")],
        ip_address: Some("172.17.0.2".to_string()),
        ports: vec![80, 443],
        networks: vec![entry("bridge", "172.17.0.2")],
    };

    assert_eq!(info.id, "abc123");
    assert_eq!(info.name, "/my-container");
    assert_eq!(info.ports.len(), 2);
    assert_eq!(info.networks.len(), 1);
}

#[test]
fn test_container_info_with_multiple_networks() {
    let info = ContainerInfo {
        id: "multi123".to_string(),
        name: "/multi-network".to_string(),
        labels: Vec::new(),
        ip_address: Some("192.168.1.100".to_string()),
        ports: vec![8080],
        networks: vec![
            entry("bridge", "172.17.0.2"),
            entry("custom", "192.168.1.100"),
            entry("frontend", "10.0.1.50"),
        ],
    };

    assert_eq!(info.networks.len(), 3);
    assert!(info.networks.iter().any(|(n, _)| n == "bridge"));
    assert!(info.networks.iter().any(|(n, _)| n == "custom"));
    assert!(info.networks.iter().any(|(n, _)| n == "frontend"));
}

#[test]
fn test_container_info_no_ip() {
    let info = ContainerInfo {
        id: "noip123".to_string(),
        name: "/no-ip-container".to_string(),
        labels: Vec::new(),
        ip_address: None,
        ports: vec![],
        networks: Vec::new(),
    };

    assert!(info.ip_address.is_none());
    assert_eq!(info.ports.len(), 0);
    assert_eq!(info.networks.len(), 0);
}

#[test]
fn test_container_info_empty_labels() {
    let info = ContainerInfo {
        id: "empty123".to_string(),
        name: "/empty-labels".to_string(),
        labels: Vec::new(),
        ip_address: Some("10.0.0.1".to_string()),
        ports: vec![],
        networks: Vec::new(),
    };

    assert_eq!(info.labels.len(), 0);
    assert_eq!(info.ports.len(), 0);
}

#[test]
fn test_container_info_many_ports() {
    let info = ContainerInfo {
        id: "ports123".to_string(),
        name: "/many-ports".to_string(),
        labels: Vec::new(),
        ip_address: Some("10.0.0.1".to_string()),
        ports: vec![80, 443, 8080, 9000, 3000],
        networks: Vec::new(),
    };

    assert_eq!(info.ports.len(), 5);
    assert!(info.ports.contains(&443));
}
