use pingap_docker_provider::models::{ContainerInfo, PingapLocation, PingapServiceConfig};
use pingap_docker_provider::protocol::{
    apply_retry_policy, apply_transition, delete_retry_policy, delete_transition,
    is_success_status, location_endpoint, location_payload, normalize_base_url,
    retry_slot_available, upstream_endpoint, upstream_payload, ApplyError, ApplyPhase,
    DeletePhase, ProtocolEvent, RemoteOutcome,
};

fn sample_config(name: &str, rule: &str) -> PingapServiceConfig {
    PingapServiceConfig {
        name: name.to_string(),
        upstreams: vec!["192.168.1.1:8080".to_string()],
        location: PingapLocation {
            rule: rule.to_string(),
            priority: None,
            middlewares: None,
            tls: None,
        },
        upstream_config: None,
        health_check: None,
        middleware_config: None,
        tls_config: None,
    }
}

#[test]
fn test_normalize_base_url_trims_trailing_slashes() {
    assert_eq!(normalize_base_url("http://localhost:6188/"), "http://localhost:6188");
    assert_eq!(normalize_base_url("http://localhost:6188"), "http://localhost:6188");
    assert_eq!(normalize_base_url("http://pingap:6188///"), "http://pingap:6188");
}

#[test]
fn test_endpoints() {
    assert_eq!(
        upstream_endpoint("http://p:6188", "svc"),
        "http://p:6188/upstreams/svc"
    );
    assert_eq!(
        location_endpoint("http://p:6188", "svc"),
        "http://p:6188/locations/svc"
    );
}

#[test]
fn test_upstream_payload_carries_addresses() {
    let config = sample_config("svc", "Host(`example.com`)");
    let p = upstream_payload(&config);
    assert_eq!(p.addrs, vec!["192.168.1.1:8080".to_string()]);
}

#[test]
fn test_location_payload_extracts_host() {
    let config = sample_config("svc", "Host(`example.com`)");
    let p = location_payload(&config);
    assert_eq!(p.upstream, "svc");
    assert_eq!(p.host, "`example.com`");
    assert_eq!(p.path, "");
}

#[test]
fn test_location_payload_extracts_path() {
    let config = sample_config("api", "PathPrefix(`/api`)");
    let p = location_payload(&config);
    assert_eq!(p.upstream, "api");
    assert_eq!(p.host, "");
    assert_eq!(p.path, "`/api`");
}

// Only the two canonical single-predicate forms populate the discrete
// fields: a rule built from other combinators uploads with both empty,
// even when it happens to begin with a host predicate.
#[test]
fn test_location_payload_other_rule_best_effort() {
    for rule in [
        "Header(`X`) && Host(`a`)",
        "Host(`a`) && PathPrefix(`/b`)",
        "Host(`a`) && (PathPrefix(`/x`) || PathPrefix(`/y`))",
        "PathPrefix(`/a`) || PathPrefix(`/b`)",
        "Host(`a`",
    ] {
        let config = sample_config("svc", rule);
        let p = location_payload(&config);
        assert_eq!(p.host, "");
        assert_eq!(p.path, "");
    }
}

#[test]
fn test_status_classification() {
    assert!(is_success_status(200));
    assert!(is_success_status(204));
    assert!(is_success_status(299));
    assert!(!is_success_status(199));
    assert!(!is_success_status(300));
    assert!(!is_success_status(404));
    assert!(!is_success_status(500));
}

#[test]
fn test_apply_machine_happy_path() {
    let p = ApplyPhase::SendUpstream;
    let p = apply_transition(p, ProtocolEvent::Response(RemoteOutcome::Status(200)));
    assert_eq!(p, ApplyPhase::SendLocation);
    let p = apply_transition(p, ProtocolEvent::Response(RemoteOutcome::Status(201)));
    assert_eq!(p, ApplyPhase::Succeeded);
}

// A failed step restarts the whole two-step unit from the upstream step.
#[test]
fn test_apply_machine_restarts_unit_on_location_failure() {
    let p = ApplyPhase::SendUpstream;
    let p = apply_transition(p, ProtocolEvent::Response(RemoteOutcome::Status(200)));
    let p = apply_transition(p, ProtocolEvent::Response(RemoteOutcome::Status(500)));
    assert_eq!(p, ApplyPhase::AwaitRetry);
    let p = apply_transition(p, ProtocolEvent::RetrySlot(true));
    assert_eq!(p, ApplyPhase::SendUpstream);
}

#[test]
fn test_apply_machine_unreachable_is_transient() {
    let p = apply_transition(
        ApplyPhase::SendUpstream,
        ProtocolEvent::Response(RemoteOutcome::Unreachable),
    );
    assert_eq!(p, ApplyPhase::AwaitRetry);
}

// A remote that always errors fails the apply only once the schedule is
// exhausted, not on the first failure.
#[test]
fn test_apply_retry_exhaustion() {
    let mut p = ApplyPhase::SendUpstream;
    for _ in 0..5 {
        p = apply_transition(p, ProtocolEvent::Response(RemoteOutcome::Status(500)));
        assert_eq!(p, ApplyPhase::AwaitRetry);
        p = apply_transition(p, ProtocolEvent::RetrySlot(true));
        assert_eq!(p, ApplyPhase::SendUpstream);
    }
    p = apply_transition(p, ProtocolEvent::Response(RemoteOutcome::Status(500)));
    p = apply_transition(p, ProtocolEvent::RetrySlot(false));
    assert_eq!(p, ApplyPhase::Failed);
}

#[test]
fn test_delete_machine_happy_path() {
    let p = DeletePhase::SendDeleteLocation;
    let p = delete_transition(p, ProtocolEvent::Response(RemoteOutcome::Status(200)));
    assert_eq!(p, DeletePhase::SendDeleteUpstream);
    let p = delete_transition(p, ProtocolEvent::Response(RemoteOutcome::Status(200)));
    assert_eq!(p, DeletePhase::Succeeded);
}

// Not-found on both delete steps is overall success.
#[test]
fn test_delete_not_found_both_steps_is_success() {
    let p = DeletePhase::SendDeleteLocation;
    let p = delete_transition(p, ProtocolEvent::Response(RemoteOutcome::Status(404)));
    assert_eq!(p, DeletePhase::SendDeleteUpstream);
    let p = delete_transition(p, ProtocolEvent::Response(RemoteOutcome::Status(404)));
    assert_eq!(p, DeletePhase::Succeeded);
}

#[test]
fn test_delete_server_error_retries_then_fails_on_exhaustion() {
    let mut p = DeletePhase::SendDeleteLocation;
    p = delete_transition(p, ProtocolEvent::Response(RemoteOutcome::Status(500)));
    assert_eq!(p, DeletePhase::AwaitRetry);
    p = delete_transition(p, ProtocolEvent::RetrySlot(true));
    assert_eq!(p, DeletePhase::SendDeleteLocation);
    p = delete_transition(p, ProtocolEvent::Response(RemoteOutcome::Status(503)));
    p = delete_transition(p, ProtocolEvent::RetrySlot(false));
    assert_eq!(p, DeletePhase::Failed);
}

#[test]
fn test_retry_policies() {
    assert_eq!(apply_retry_policy().max_elapsed_ms, 60_000);
    assert_eq!(delete_retry_policy().max_elapsed_ms, 30_000);
    let policy = apply_retry_policy();
    assert!(retry_slot_available(0, &policy));
    assert!(retry_slot_available(60_000, &policy));
    assert!(!retry_slot_available(60_001, &policy));
}

#[test]
fn test_apply_error_messages() {
    let e = ApplyError::ApplyExhausted {
        service: "svc".to_string(),
        detail: "Pingap Upstream API error: boom".to_string(),
    };
    let m = e.message();
    assert!(m.contains("svc"));
    assert!(m.contains("after retries"));
    assert!(m.contains("boom"));

    let e = ApplyError::DeleteExhausted {
        service: "gone".to_string(),
        detail: "status 500".to_string(),
    };
    let m = e.message();
    assert!(m.contains("delete"));
    assert!(m.contains("gone"));
}

// Drives the apply machine against an in-memory remote that always
// answers success, performing the upsert each phase asks for.
fn run_apply_against_stable_remote(
    config: &PingapServiceConfig,
    upstreams: &mut std::collections::HashMap<String, Vec<String>>,
    locations: &mut std::collections::HashMap<String, (String, String, String)>,
) -> bool {
    let mut phase = ApplyPhase::SendUpstream;
    loop {
        match phase {
            ApplyPhase::SendUpstream => {
                let p = upstream_payload(config);
                upstreams.insert(config.name.clone(), p.addrs);
                phase = apply_transition(phase, ProtocolEvent::Response(RemoteOutcome::Status(200)));
            }
            ApplyPhase::SendLocation => {
                let p = location_payload(config);
                locations.insert(config.name.clone(), (p.upstream, p.host, p.path));
                phase = apply_transition(phase, ProtocolEvent::Response(RemoteOutcome::Status(200)));
            }
            ApplyPhase::Succeeded => return true,
            _ => return false,
        }
    }
}

// Applying the same configuration twice against a stable remote produces
// the same final remote state as applying it once.
#[test]
fn test_apply_idempotence_against_stable_remote() {
    let config = sample_config("svc", "Host(`example.com`)");
    let mut upstreams = std::collections::HashMap::new();
    let mut locations = std::collections::HashMap::new();

    assert!(run_apply_against_stable_remote(&config, &mut upstreams, &mut locations));
    let upstreams_once = upstreams.clone();
    let locations_once = locations.clone();

    assert!(run_apply_against_stable_remote(&config, &mut upstreams, &mut locations));
    assert_eq!(upstreams, upstreams_once);
    assert_eq!(locations, locations_once);
}

// End-to-end: the scenario container compiles to the expected upstream and
// rule, and applying it issues an upstream upsert then a location upsert
// under the stripped container name.
#[test]
fn test_end_to_end_scenario() {
    let c = ContainerInfo {
        id: "cid".to_string(),
        name: "/scenario".to_string(),
        labels: vec![
            ("pingap.enable".to_string(), "true".to_string()),
            ("pingap.http.host".to_string(), "a.test".to_string()),
            ("pingap.service.port".to_string(), "9000".to_string()),
        ],
        ip_address: Some("10.0.0.5".to_string()),
        ports: vec![],
        networks: Vec::new(),
    };
    let config = c.parse_pingap_config().unwrap().unwrap();
    assert_eq!(config.name, "scenario");
    assert_eq!(config.upstreams, vec!["10.0.0.5:9000".to_string()]);
    assert_eq!(config.location.rule, "Host(`a.test`)");
    assert!(config.upstream_config.is_none());
    assert!(config.health_check.is_none());
    assert!(config.middleware_config.is_none());
    assert!(config.tls_config.is_none());

    let up = upstream_payload(&config);
    assert_eq!(up.addrs, vec!["10.0.0.5:9000".to_string()]);
    let loc = location_payload(&config);
    assert_eq!(loc.upstream, "scenario");
    assert_eq!(loc.host, "`a.test`");

    let base = normalize_base_url("http://pingap:6188/");
    assert_eq!(upstream_endpoint(&base, &config.name), "http://pingap:6188/upstreams/scenario");
    assert_eq!(location_endpoint(&base, &config.name), "http://pingap:6188/locations/scenario");

    let p = ApplyPhase::SendUpstream;
    let p = apply_transition(p, ProtocolEvent::Response(RemoteOutcome::Status(200)));
    assert_eq!(p, ApplyPhase::SendLocation);
    let p = apply_transition(p, ProtocolEvent::Response(RemoteOutcome::Status(200)));
    assert_eq!(p, ApplyPhase::Succeeded);
}
