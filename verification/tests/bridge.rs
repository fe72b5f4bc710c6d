use open_intent::bridge::NativeBridge;
use open_intent::candidate::Provenance;

#[test]
fn registration_decides_whether_the_bridge_listens() {
    assert_eq!(NativeBridge::after_registration(true), NativeBridge::Listening);
    assert_eq!(NativeBridge::after_registration(false), NativeBridge::Absent);
}

#[test]
fn listening_bridge_turns_a_request_into_a_candidate() {
    let bridge = NativeBridge::Listening;
    let found = bridge.open_request_with("/docs/report.pdf", false).unwrap();
    assert_eq!(found.path, "/docs/report.pdf");
    assert_eq!(found.source, Provenance::NativeBridge);
    let existing = bridge.open_request_with("/docs/notes", true).unwrap();
    assert_eq!(existing.path, "/docs/notes");
    let probed = bridge.open_request("/").unwrap();
    assert_eq!(probed.path, "/");
    assert_eq!(probed.source, Provenance::NativeBridge);
}

#[test]
fn listening_bridge_discards_what_the_rule_rejects() {
    let bridge = NativeBridge::Listening;
    assert!(bridge.open_request_with("", true).is_none());
    assert!(bridge.open_request_with("-psn_0_12345", true).is_none());
    assert!(bridge.open_request_with("-x.pdf", false).is_none());
    assert!(bridge.open_request_with("/docs/notes", false).is_none());
    assert!(bridge.open_request("/no/such/entry/anywhere").is_none());
    assert!(bridge.open_request("").is_none());
}

#[test]
fn absent_bridge_yields_nothing() {
    let bridge = NativeBridge::Absent;
    assert!(bridge.open_request_with("/docs/report.pdf", true).is_none());
    assert!(bridge.open_request("/docs/report.pdf").is_none());
    assert!(bridge.open_request("/").is_none());
}
