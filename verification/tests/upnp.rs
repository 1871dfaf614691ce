use terminal_hell::upnp::{ForwardReport, LEASE_SECS};

#[test]
fn no_gateway_reports_error() {
    let r = ForwardReport::no_gateway("timeout");
    assert!(!r.game_opened && !r.http_opened);
    assert_eq!(r.error.as_deref(), Some("no IGD gateway found: timeout"));
}

#[test]
fn refused_mappings_report_error() {
    let r = ForwardReport::from_mappings(false, false);
    assert_eq!(
        r.error.as_deref(),
        Some("gateway found but add_port refused (router may disable UPnP)")
    );
    let ok = ForwardReport::from_mappings(true, false);
    assert!(ok.game_opened && !ok.http_opened && ok.error.is_none());
    assert_eq!(LEASE_SECS, 7200);
}

use terminal_hell::upnp::ForwardOutcome;

#[test]
fn outcomes_follow_opened_ports() {
    assert_eq!(ForwardReport::from_mappings(true, true).outcome(), ForwardOutcome::Both);
    assert_eq!(ForwardReport::from_mappings(true, false).outcome(), ForwardOutcome::GameOnly);
    assert_eq!(ForwardReport::from_mappings(false, true).outcome(), ForwardOutcome::HttpOnly);
    assert_eq!(ForwardReport::from_mappings(false, false).outcome(), ForwardOutcome::Failed);
    assert_eq!(ForwardReport::no_gateway("x").outcome(), ForwardOutcome::Failed);
    let odd = ForwardReport { game_opened: true, http_opened: false, error: Some("e".into()) };
    assert_eq!(odd.outcome(), ForwardOutcome::Failed);
}
