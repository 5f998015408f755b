use pingap_docker_provider::reconcile::{
    classify_action, record_apply_outcome, resolve_retraction, EventAction, ServiceTracker,
};
use pingap_docker_provider::snapshot::{collect_network_ips, display_name, parse_exposed_port};

fn entry(k: &str, v: &str) -> (String, String) {
    (k.to_string(), v.to_string())
}

#[test]
fn test_classify_action() {
    assert_eq!(classify_action("start"), EventAction::Start);
    assert_eq!(classify_action("die"), EventAction::Stop);
    assert_eq!(classify_action("stop"), EventAction::Stop);
    assert_eq!(classify_action("create"), EventAction::Other);
    assert_eq!(classify_action(""), EventAction::Other);
    assert_eq!(classify_action("Start"), EventAction::Other);
}

#[test]
fn test_tracker_record_get_remove() {
    let mut t = ServiceTracker::new();
    assert_eq!(t.count(), 0);
    t.record("id1".to_string(), "svc1".to_string());
    t.record("id2".to_string(), "svc2".to_string());
    assert_eq!(t.count(), 2);
    assert_eq!(t.get("id1").map(|s| s.as_str()), Some("svc1"));
    assert_eq!(t.get("id3"), None);

    // A later record for the same identity replaces the earlier one.
    t.record("id1".to_string(), "svc1b".to_string());
    assert_eq!(t.count(), 2);
    assert_eq!(t.get("id1").map(|s| s.as_str()), Some("svc1b"));

    assert_eq!(t.remove_entry("id1"), Some("svc1b".to_string()));
    assert_eq!(t.remove_entry("id1"), None);
    assert_eq!(t.count(), 1);
}

// Only a successful application makes an identity tracked; a failed one
// leaves the tracker unchanged.
#[test]
fn test_record_apply_outcome() {
    let mut t = ServiceTracker::new();
    record_apply_outcome(&mut t, "id1".to_string(), "svc1".to_string(), true);
    assert_eq!(t.get("id1").map(|s| s.as_str()), Some("svc1"));
    record_apply_outcome(&mut t, "id2".to_string(), "svc2".to_string(), false);
    assert_eq!(t.get("id2"), None);
    assert_eq!(t.count(), 1);
}

// The tracked entry is authoritative: a stop event for a tracked identity
// retracts the tracked name even when the event's attributes would derive
// a different one.
#[test]
fn test_state_wins_over_attributes() {
    let mut t = ServiceTracker::new();
    t.record("id9".to_string(), "tracked-name".to_string());
    let attrs = vec![
        entry("pingap.enable", "true"),
        entry("pingap.service.name", "attribute-name"),
        entry("name", "/other"),
    ];
    let r = resolve_retraction(&mut t, "id9", &attrs);
    assert_eq!(r, Some("tracked-name".to_string()));
    assert_eq!(t.get("id9"), None);
}

#[test]
fn test_untracked_enabled_attributes_derive_name() {
    let mut t = ServiceTracker::new();
    let attrs = vec![entry("pingap.enable", "true"), entry("name", "/fallback")];
    let r = resolve_retraction(&mut t, "idx", &attrs);
    assert_eq!(r, Some("fallback".to_string()));
}

#[test]
fn test_untracked_name_override_attribute_wins() {
    let mut t = ServiceTracker::new();
    let attrs = vec![
        entry("pingap.enable", "true"),
        entry("pingap.service.name", "named"),
        entry("name", "/fallback"),
    ];
    let r = resolve_retraction(&mut t, "idx", &attrs);
    assert_eq!(r, Some("named".to_string()));
}

#[test]
fn test_untracked_disabled_attributes_no_retraction() {
    let mut t = ServiceTracker::new();
    let attrs = vec![entry("name", "/fallback")];
    let r = resolve_retraction(&mut t, "idx", &attrs);
    assert_eq!(r, None);
    let attrs = vec![entry("pingap.enable", "false"), entry("name", "/fallback")];
    let r = resolve_retraction(&mut t, "idx", &attrs);
    assert_eq!(r, None);
}

#[test]
fn test_display_name() {
    assert_eq!(display_name(&vec!["/first".to_string(), "/second".to_string()]), "/first");
    assert_eq!(display_name(&Vec::new()), "unknown");
}

#[test]
fn test_collect_network_ips_filters_empty() {
    let raw = vec![
        entry("none", ""),
        entry("bridge", "172.17.0.2"),
        entry("custom", "192.168.1.100"),
    ];
    let (networks, primary) = collect_network_ips(&raw);
    assert_eq!(networks, vec![entry("bridge", "172.17.0.2"), entry("custom", "192.168.1.100")]);
    assert_eq!(primary, Some("172.17.0.2".to_string()));
}

#[test]
fn test_collect_network_ips_all_empty() {
    let raw = vec![entry("a", ""), entry("b", "")];
    let (networks, primary) = collect_network_ips(&raw);
    assert!(networks.is_empty());
    assert_eq!(primary, None);
}

#[test]
fn test_parse_exposed_port() {
    assert_eq!(parse_exposed_port("80/tcp"), Some(80));
    assert_eq!(parse_exposed_port("8443/udp"), Some(8443));
    assert_eq!(parse_exposed_port("443"), Some(443));
    assert_eq!(parse_exposed_port("abc/tcp"), None);
    assert_eq!(parse_exposed_port("/tcp"), None);
    assert_eq!(parse_exposed_port("70000/tcp"), None);
}
