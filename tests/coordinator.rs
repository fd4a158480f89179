use helix_core::coordinator::{on_event, ClientRegistry, SessionAction, SessionEvent, SessionState};

#[test]
fn session_forwards_and_rejects() {
    assert_eq!(
        on_event(SessionState::Connected, SessionEvent::Message),
        (SessionState::Receiving, SessionAction::Forward)
    );
    assert_eq!(
        on_event(SessionState::Receiving, SessionEvent::Malformed),
        (SessionState::Receiving, SessionAction::Reject)
    );
    assert_eq!(
        on_event(SessionState::Receiving, SessionEvent::OtherFrame),
        (SessionState::Receiving, SessionAction::Ignore)
    );
}

#[test]
fn session_ends_on_close_error_or_overrun() {
    for e in [SessionEvent::Closed, SessionEvent::TransportError, SessionEvent::Overrun] {
        assert_eq!(
            on_event(SessionState::Receiving, e),
            (SessionState::Disconnected, SessionAction::Disconnect)
        );
    }
    assert_eq!(
        on_event(SessionState::Disconnected, SessionEvent::Message),
        (SessionState::Disconnected, SessionAction::Ignore)
    );
}

#[test]
fn registry_forwards_to_every_other_client() {
    let mut reg = ClientRegistry::new();
    reg.connect("A".to_string());
    reg.connect("B".to_string());
    reg.connect("C".to_string());
    reg.connect("B".to_string());
    assert_eq!(reg.recipients("A"), vec!["B".to_string(), "C".to_string()]);
    assert_eq!(reg.recipients("B"), vec!["A".to_string(), "C".to_string()]);
    reg.disconnect("C");
    assert!(!reg.contains("C"));
    assert!(reg.contains("A"));
    assert_eq!(reg.recipients("A"), vec!["B".to_string()]);
}
