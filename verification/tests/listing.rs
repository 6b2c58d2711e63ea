use resolvsync::directory::DecodeError;
use resolvsync::directory::DirectoryError;
use resolvsync::directory::MalformedEntry;
use resolvsync::directory::PropertyValue;
use resolvsync::directory::active_services;
use resolvsync::directory::decode_update;
use resolvsync::directory::find_service;
use resolvsync::service::RawService;
use resolvsync::service::Service;
use resolvsync::service::ServiceUpdate;

fn raw(path: &str, state: Option<&str>, ns: Option<&[&str]>) -> RawService {
    RawService {
        path: path.to_string(),
        state: state.map(|s| s.to_string()),
        interface: None,
        nameservers: ns.map(|l| l.iter().map(|s| s.to_string()).collect()),
        domains: None,
    }
}

#[test]
fn from_raw_extracts_id_and_defaults() {
    let r = RawService {
        path: "/net/connman/service/wifi_abc".to_string(),
        state: Some("ready".to_string()),
        interface: Some("wlan0".to_string()),
        nameservers: None,
        domains: None,
    };
    let s = Service::from_raw(r).expect("entry must convert");
    assert_eq!(s.id, "wifi_abc");
    assert_eq!(s.state, "ready");
    assert_eq!(s.interface, Some("wlan0".to_string()));
    assert!(s.nameservers.is_empty());
    assert!(s.domains.is_empty());
}

#[test]
fn from_raw_rejects_foreign_path() {
    let r = raw("/org/other/service/x", Some("ready"), None);
    match Service::from_raw(r) {
        Err(MalformedEntry::UnexpectedPath { path }) => {
            assert_eq!(path, "/org/other/service/x")
        },
        _ => panic!("expected a path error"),
    }
}

#[test]
fn from_raw_rejects_missing_state() {
    let r = raw("/net/connman/service/eth_1", None, None);
    match Service::from_raw(r) {
        Err(MalformedEntry::MissingState { path }) => {
            assert_eq!(path, "/net/connman/service/eth_1")
        },
        _ => panic!("expected a state error"),
    }
}

#[test]
fn from_raw_accepts_bare_prefix_with_empty_id() {
    let r = raw("/net/connman/service/", Some("ready"), None);
    let s = Service::from_raw(r).expect("entry must convert");
    assert_eq!(s.id, "");
}

#[test]
fn active_services_keeps_only_active_and_drops_malformed() {
    let listing = vec![
        raw("/net/connman/service/a", Some("ready"), Some(&["1.1.1.1"])),
        raw("/net/connman/service/b", Some("idle"), None),
        raw("/bad/path", Some("online"), None),
        raw("/net/connman/service/c", None, None),
        raw("/net/connman/service/d", Some("online"), None),
    ];
    let active = active_services(listing);
    let ids: Vec<String> = active.into_iter().map(|s| s.id).collect();
    assert_eq!(ids, vec!["a".to_string(), "d".to_string()]);
}

#[test]
fn find_service_returns_the_matching_entry() {
    let listing = vec![
        raw("/net/connman/service/a", Some("ready"), None),
        raw("/net/connman/service/b", Some("idle"), Some(&["9.9.9.9"])),
    ];
    let s = find_service(listing, "b").expect("the entry exists");
    assert_eq!(s.id, "b");
    assert_eq!(s.state, "idle");
    assert_eq!(s.nameservers, vec!["9.9.9.9".to_string()]);
}

#[test]
fn find_service_reports_missing_id() {
    let listing = vec![raw("/net/connman/service/a", Some("ready"), None)];
    match find_service(listing, "zzz") {
        Err(DirectoryError::NotFound { id }) => assert_eq!(id, "zzz"),
        _ => panic!("expected not-found"),
    }
}

#[test]
fn find_service_reports_malformed_match() {
    let listing = vec![raw("/net/connman/service/a", None, None)];
    match find_service(listing, "a") {
        Err(DirectoryError::Malformed { fault: MalformedEntry::MissingState { .. } }) => {},
        _ => panic!("expected a malformed entry"),
    }
}

#[test]
fn decode_known_properties() {
    match decode_update("State", PropertyValue::Text("ready".to_string())) {
        Ok(ServiceUpdate::State(s)) => assert_eq!(s, "ready"),
        _ => panic!("expected a state update"),
    }
    match decode_update("Domains", PropertyValue::TextList(vec!["d.example".to_string()])) {
        Ok(ServiceUpdate::Domains(d)) => assert_eq!(d, vec!["d.example".to_string()]),
        _ => panic!("expected a domains update"),
    }
    match decode_update("Nameservers", PropertyValue::TextList(vec!["1.1.1.1".to_string()])) {
        Ok(ServiceUpdate::Nameservers(n)) => assert_eq!(n, vec!["1.1.1.1".to_string()]),
        _ => panic!("expected a nameservers update"),
    }
}

#[test]
fn decode_unknown_property_is_silent_noop() {
    let r = decode_update("Strength", PropertyValue::OtherShape);
    assert!(matches!(r, Ok(ServiceUpdate::Other)));
    let r = decode_update("Favorite", PropertyValue::Text("yes".to_string()));
    assert!(matches!(r, Ok(ServiceUpdate::Other)));
}

#[test]
fn decode_known_property_with_wrong_shape_fails() {
    match decode_update("State", PropertyValue::TextList(vec![])) {
        Err(DecodeError { name }) => assert_eq!(name, "State"),
        _ => panic!("expected a decode error"),
    }
    match decode_update("Domains", PropertyValue::Text("d.example".to_string())) {
        Err(DecodeError { name }) => assert_eq!(name, "Domains"),
        _ => panic!("expected a decode error"),
    }
    match decode_update("Nameservers", PropertyValue::OtherShape) {
        Err(DecodeError { name }) => assert_eq!(name, "Nameservers"),
        _ => panic!("expected a decode error"),
    }
}
