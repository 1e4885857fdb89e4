use soagents::health::{
    port_confirmed, HealthCheck, HEALTH_ATTEMPTS, HEALTH_INTERVAL_MS, PORT_KEY,
};

#[test]
fn readiness_budget() {
    assert_eq!(HEALTH_ATTEMPTS, 60);
    assert_eq!(HEALTH_INTERVAL_MS, 100);
    assert_eq!(PORT_KEY, "port");
}

#[test]
fn health_url_names_the_port() {
    assert_eq!(HealthCheck::new(32415).url(), "http://127.0.0.1:32415/health");
    assert_eq!(HealthCheck::new(0).url(), "http://127.0.0.1:0/health");
    assert_eq!(HealthCheck::new(65535).url(), "http://127.0.0.1:65535/health");
}

#[test]
fn only_the_own_port_confirms() {
    assert!(port_confirmed(Some(32415), 32415));
    assert!(!port_confirmed(Some(32416), 32415));
    assert!(!port_confirmed(Some(32415 + 65536), 32415));
    assert!(!port_confirmed(None, 32415));
}

#[test]
fn reply_with_the_port_makes_the_worker_ready() {
    let mut check = HealthCheck::new(32415);
    assert!(check.is_pending());
    check.record_reply(Some(b"{\"status\":\"ok\",\"port\":32415}"));
    assert_eq!(check, HealthCheck { port: 32415, attempts: 1, healthy: true });
    assert!(!check.is_pending());
}

#[test]
fn reply_of_another_worker_does_not() {
    let mut check = HealthCheck::new(32415);
    check.record_reply(Some(b"{\"port\": 32414}"));
    assert_eq!(check, HealthCheck { port: 32415, attempts: 1, healthy: false });
    assert!(check.is_pending());
}

#[test]
fn replies_that_report_no_port_do_not() {
    let bodies: [&[u8]; 9] = [
        b"",
        b"OK",
        b"<html></html>",
        b"{\"port\": \"32415\"}",
        b"{\"port\": 32415.0}",
        b"{\"port\": -32415}",
        b"{\"Port\": 32415}",
        b"[32415]",
        b"{\"port\": 32415",
    ];
    let mut check = HealthCheck::new(32415);
    for body in bodies {
        check.record_reply(Some(body));
        assert!(!check.healthy);
    }
    assert_eq!(check.attempts, 9);
    check.record_reply(None);
    assert_eq!(check, HealthCheck { port: 32415, attempts: 10, healthy: false });
}

#[test]
fn worker_becomes_ready_on_a_later_attempt() {
    let mut check = HealthCheck::new(40000);
    check.record_reply(None);
    check.record_reply(None);
    check.record_reply(Some(b" { \"port\" : 40000 } "));
    assert_eq!(check, HealthCheck { port: 40000, attempts: 3, healthy: true });
    check.record_reply(Some(b"{\"port\": 1}"));
    assert_eq!(check, HealthCheck { port: 40000, attempts: 3, healthy: true });
}

#[test]
fn check_gives_up_when_the_budget_is_spent() {
    let mut check = HealthCheck::new(32415);
    let mut asked = 0;
    while check.is_pending() {
        check.record_report(None);
        asked += 1;
    }
    assert_eq!(asked, 60);
    assert_eq!(check, HealthCheck { port: 32415, attempts: 60, healthy: false });
    check.record_report(Some(32415));
    assert_eq!(check, HealthCheck { port: 32415, attempts: 60, healthy: false });
}

#[test]
fn last_attempt_can_still_confirm() {
    let mut check = HealthCheck::new(32415);
    for _ in 0..59 {
        check.record_report(Some(1));
    }
    assert!(check.is_pending());
    check.record_report(Some(32415));
    assert_eq!(check, HealthCheck { port: 32415, attempts: 60, healthy: true });
}
