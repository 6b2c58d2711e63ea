use resolvsync::reconcile::ResolvconfState;
use resolvsync::reconcile::WriterAction;
use resolvsync::service::Service;
use resolvsync::service::ServiceUpdate;

fn service(id: &str, state: &str, interface: Option<&str>, ns: &[&str], doms: &[&str]) -> Service {
    Service {
        id: id.to_string(),
        state: state.to_string(),
        interface: interface.map(|s| s.to_string()),
        nameservers: ns.iter().map(|s| s.to_string()).collect(),
        domains: doms.iter().map(|s| s.to_string()).collect(),
    }
}

fn apply_of(action: Option<WriterAction>) -> (String, String) {
    match action {
        Some(WriterAction::Apply { interface, content }) => (interface, content),
        _ => panic!("expected an Apply action"),
    }
}

#[test]
fn snapshot_idempotent() {
    let mut state = ResolvconfState::new();
    let first = state.insert(service("web", "ready", Some("eth0"), &["10.0.0.1"], &[]));
    let (iface, content) = apply_of(first);
    assert_eq!(iface, "eth0");
    assert_eq!(content, "# Generated for web\nnameserver 10.0.0.1\n");
    let second = state.insert(service("web", "ready", Some("eth0"), &["10.0.0.1"], &[]));
    assert!(second.is_none());
}

#[test]
fn snapshot_without_nameservers_is_tracked_but_never_written() {
    let mut state = ResolvconfState::new();
    let action = state.insert(service("quiet", "ready", None, &[], &["d.example"]));
    assert!(action.is_none());
    // The service is tracked: an activation notification for it needs no re-fetch.
    let activation = ServiceUpdate::State("ready".to_string());
    assert!(!state.needs_refetch("quiet", &activation));
    // A domain change on it still publishes nothing while no nameserver is set.
    let r = state.update("quiet", ServiceUpdate::Domains(vec!["e.example".to_string()]));
    assert!(matches!(r, Ok(None)));
}

#[test]
fn same_value_update_is_noop() {
    let mut state = ResolvconfState::new();
    state.insert(service("web", "ready", None, &["10.0.0.1"], &["d.example"]));
    let r = state.update("web", ServiceUpdate::Nameservers(vec!["10.0.0.1".to_string()]));
    assert!(matches!(r, Ok(None)));
    let r = state.update("web", ServiceUpdate::Domains(vec!["d.example".to_string()]));
    assert!(matches!(r, Ok(None)));
    let r = state.update("web", ServiceUpdate::State("ready".to_string()));
    assert!(matches!(r, Ok(None)));
}

#[test]
fn changed_nameservers_republish_full_content() {
    let mut state = ResolvconfState::new();
    state.insert(service("web", "ready", Some("eth0"), &["10.0.0.1"], &["d.example"]));
    let r = state.update(
        "web",
        ServiceUpdate::Nameservers(vec!["10.0.0.2".to_string(), "10.0.0.3".to_string()]),
    );
    let (iface, content) = apply_of(r.expect("update must succeed"));
    assert_eq!(iface, "eth0");
    assert_eq!(
        content,
        "# Generated for web\nsearch d.example\nnameserver 10.0.0.2\nnameserver 10.0.0.3\n"
    );
}

#[test]
fn disconnect_removes_exactly_once() {
    let mut state = ResolvconfState::new();
    state.insert(service("web", "ready", Some("eth0"), &["10.0.0.1"], &[]));
    let r = state.update("web", ServiceUpdate::State("disconnect".to_string()));
    match r {
        Ok(Some(WriterAction::Remove { interface })) => assert_eq!(interface, "eth0"),
        _ => panic!("expected a Remove action"),
    }
    // A duplicate disconnect for the now-untracked id is a silent no-op.
    let again = state.update("web", ServiceUpdate::State("disconnect".to_string()));
    assert!(matches!(again, Ok(None)));
}

#[test]
fn unexpected_state_is_an_error_for_that_update_only() {
    let mut state = ResolvconfState::new();
    state.insert(service("web", "ready", None, &["10.0.0.1"], &[]));
    let r = state.update("web", ServiceUpdate::State("failure".to_string()));
    match r {
        Err(e) => assert_eq!(e.state, "failure"),
        Ok(_) => panic!("expected an error"),
    }
    // The merged entry stays tracked: recovering to ready publishes again.
    let r = state.update("web", ServiceUpdate::State("ready".to_string()));
    let (iface, content) = apply_of(r.expect("recovery must succeed"));
    assert_eq!(iface, "web");
    assert_eq!(content, "# Generated for web\nnameserver 10.0.0.1\n");
}

#[test]
fn configuration_state_has_no_side_effect() {
    let mut state = ResolvconfState::new();
    state.insert(service("web", "ready", None, &["10.0.0.1"], &[]));
    let r = state.update("web", ServiceUpdate::State("configuration".to_string()));
    assert!(matches!(r, Ok(None)));
}

#[test]
fn teardown_removes_every_tracked_service() {
    let mut state = ResolvconfState::new();
    state.insert(service("a", "ready", Some("eth0"), &["10.0.0.1"], &[]));
    state.insert(service("b", "online", None, &["10.0.0.2"], &[]));
    state.insert(service("c", "ready", Some("wlan0"), &[], &[]));
    let actions = state.remove_all();
    // One removal per tracked entry, under each entry's own interface,
    // whatever becomes of the individual removals when they are executed.
    let mut interfaces: Vec<String> = actions
        .into_iter()
        .map(|a| match a {
            WriterAction::Remove { interface } => interface,
            _ => panic!("teardown must only remove"),
        })
        .collect();
    interfaces.sort();
    assert_eq!(interfaces, vec!["b".to_string(), "eth0".to_string(), "wlan0".to_string()]);
    // The record is cleared: re-observing a service writes again.
    let action = state.insert(service("a", "ready", Some("eth0"), &["10.0.0.1"], &[]));
    assert!(action.is_some());
}

#[test]
fn upsert_keeps_one_entry_per_id() {
    let mut state = ResolvconfState::new();
    state.insert(service("web", "ready", None, &["10.0.0.1"], &[]));
    state.insert(service("web", "online", None, &["10.0.0.2"], &[]));
    let actions = state.remove_all();
    assert_eq!(actions.len(), 1);
}

#[test]
fn update_for_unknown_id_is_ignored() {
    let mut state = ResolvconfState::new();
    let r = state.update("ghost", ServiceUpdate::Nameservers(vec!["1.1.1.1".to_string()]));
    assert!(matches!(r, Ok(None)));
}

#[test]
fn snapshot_with_changed_data_rewrites() {
    let mut state = ResolvconfState::new();
    state.insert(service("web", "ready", None, &["10.0.0.1"], &[]));
    let r = state.insert(service("web", "ready", None, &["10.0.0.1"], &["d.example"]));
    let (iface, content) = apply_of(r);
    assert_eq!(iface, "web");
    assert_eq!(content, "# Generated for web\nsearch d.example\nnameserver 10.0.0.1\n");
}

#[test]
fn needs_refetch_only_for_untracked_activation() {
    let mut state = ResolvconfState::new();
    let ready = ServiceUpdate::State("ready".to_string());
    let online = ServiceUpdate::State("online".to_string());
    let idle = ServiceUpdate::State("idle".to_string());
    let domains = ServiceUpdate::Domains(vec![]);
    assert!(state.needs_refetch("new", &ready));
    assert!(state.needs_refetch("new", &online));
    assert!(!state.needs_refetch("new", &idle));
    assert!(!state.needs_refetch("new", &domains));
    state.insert(service("new", "ready", None, &[], &[]));
    assert!(!state.needs_refetch("new", &ready));
}
