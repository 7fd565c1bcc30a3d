use proxy_registry::active::ActiveRegistry;
use proxy_registry::session::{Notice, OpenOutcome, Session, SessionState, WsMessage};
use proxy_registry::store::RegistrationStore;

fn store_with(id: u128, password: &str, mac: &str) -> RegistrationStore {
    let mut store = RegistrationStore::new();
    store.register(id, password.to_string(), mac.to_string());
    store
}

#[test]
fn full_lifecycle() {
    let store = store_with(1, "p1", "d1");
    let mut active = ActiveRegistry::new();
    let mut session = Session::new(999);

    let n = session.handle_message(
        &store,
        &mut active,
        WsMessage::Auth { id: 1, password: "p1".to_string() },
    );
    assert_eq!(n, Notice::Authenticated);
    assert_eq!(n.text(), "Authenticated");
    assert!(session.is_authenticated());

    let listed = active.list();
    assert_eq!(listed.len(), 1);
    assert_eq!(listed[0].id, 1);
    assert_eq!(listed[0].ip, "unknown");
    assert_eq!(listed[0].port, 0);
    assert!(listed[0].active);
    assert_eq!(listed[0].mac_id, "d1");

    let n = session.handle_message(
        &store,
        &mut active,
        WsMessage::SetAddress { ip: "10.0.0.5".to_string(), port: 9000 },
    );
    assert_eq!(n, Notice::AddressUpdated);
    assert_eq!(n.text(), "Address updated");
    let listed = active.list();
    assert_eq!(listed.len(), 1);
    assert_eq!(listed[0].ip, "10.0.0.5");
    assert_eq!(listed[0].port, 9000);
    assert_eq!(listed[0].mac_id, "d1");

    session.on_close(&mut active);
    assert!(session.is_closed());
    assert_eq!(active.list().len(), 0);
}

#[test]
fn wrong_credential_closes_session() {
    let store = store_with(1, "p1", "d1");
    let mut active = ActiveRegistry::new();
    let mut session = Session::new(999);

    let n = session.handle_message(
        &store,
        &mut active,
        WsMessage::Auth { id: 1, password: "wrong".to_string() },
    );
    assert_eq!(n, Notice::AuthenticationFailed);
    assert_eq!(n.text(), "Authentication failed");
    assert!(session.is_closed());
    assert_eq!(active.list().len(), 0);
}

#[test]
fn unknown_identifier_closes_session() {
    let store = store_with(1, "p1", "d1");
    let mut active = ActiveRegistry::new();
    let mut session = Session::new(999);

    let n = session.handle_message(
        &store,
        &mut active,
        WsMessage::Auth { id: 42, password: "p1".to_string() },
    );
    assert_eq!(n, Notice::AuthenticationFailed);
    assert!(session.is_closed());
    assert_eq!(active.list().len(), 0);
}

#[test]
fn set_address_before_auth_mutates_nothing() {
    let store = store_with(1, "p1", "d1");
    let mut active = ActiveRegistry::new();
    let mut session = Session::new(999);

    let n = session.handle_message(
        &store,
        &mut active,
        WsMessage::SetAddress { ip: "10.0.0.5".to_string(), port: 9000 },
    );
    assert_eq!(n, Notice::NotAuthenticated);
    assert_eq!(n.text(), "Not authenticated");
    assert!(!session.is_closed());
    assert_eq!(active.list().len(), 0);
}

#[test]
fn duplicate_auth_is_refused_without_mutation() {
    let store = store_with(1, "p1", "d1");
    let mut active = ActiveRegistry::new();
    let mut session = Session::new(999);

    session.handle_message(&store, &mut active, WsMessage::Auth { id: 1, password: "p1".to_string() });
    session.handle_message(
        &store,
        &mut active,
        WsMessage::SetAddress { ip: "10.0.0.5".to_string(), port: 9000 },
    );
    let n = session.handle_message(
        &store,
        &mut active,
        WsMessage::Auth { id: 1, password: "p1".to_string() },
    );
    assert_eq!(n, Notice::AlreadyAuthenticated);
    assert_eq!(n.text(), "Already authenticated");
    assert!(session.is_authenticated());
    let listed = active.list();
    assert_eq!(listed.len(), 1);
    assert_eq!(listed[0].ip, "10.0.0.5");
    assert_eq!(listed[0].port, 9000);
}

#[test]
fn malformed_message_leaves_session_usable() {
    let store = store_with(1, "p1", "d1");
    let mut active = ActiveRegistry::new();
    let mut session = Session::new(999);

    let n = session.handle_message(&store, &mut active, WsMessage::Malformed);
    assert_eq!(n, Notice::InvalidMessageFormat);
    assert_eq!(n.text(), "Invalid message format");
    assert!(!session.is_closed());
    assert_eq!(active.list().len(), 0);

    let n = session.handle_message(
        &store,
        &mut active,
        WsMessage::Auth { id: 1, password: "p1".to_string() },
    );
    assert_eq!(n, Notice::Authenticated);
    assert_eq!(active.list().len(), 1);
}

#[test]
fn two_sessions_distinct_identifiers_both_listed() {
    let mut store = RegistrationStore::new();
    store.register(1, "p1".to_string(), "d1".to_string());
    store.register(2, "p2".to_string(), "d2".to_string());
    let mut active = ActiveRegistry::new();
    let mut s1 = Session::new(901);
    let mut s2 = Session::new(902);

    let n1 = s1.handle_message(&store, &mut active, WsMessage::Auth { id: 1, password: "p1".to_string() });
    let n2 = s2.handle_message(&store, &mut active, WsMessage::Auth { id: 2, password: "p2".to_string() });
    assert_eq!(n1, Notice::Authenticated);
    assert_eq!(n2, Notice::Authenticated);
    let ids: Vec<u128> = active.list().iter().map(|n| n.id).collect();
    assert_eq!(ids, vec![1, 2]);
}

#[test]
fn two_sessions_same_identifier_one_entry() {
    let store = store_with(1, "p1", "d1");
    let mut active = ActiveRegistry::new();
    let mut s1 = Session::new(901);
    let mut s2 = Session::new(902);

    let n1 = s1.handle_message(&store, &mut active, WsMessage::Auth { id: 1, password: "p1".to_string() });
    let n2 = s2.handle_message(&store, &mut active, WsMessage::Auth { id: 1, password: "p1".to_string() });
    assert_eq!(n1, Notice::Authenticated);
    assert_eq!(n2, Notice::Authenticated);
    let listed = active.list();
    assert_eq!(listed.len(), 1);
    assert_eq!(listed[0].id, 1);
    assert_eq!(listed[0].ip, "unknown");
}

#[test]
fn close_removes_exactly_own_entry_exactly_once() {
    let mut store = RegistrationStore::new();
    store.register(1, "p1".to_string(), "d1".to_string());
    store.register(2, "p2".to_string(), "d2".to_string());
    let mut active = ActiveRegistry::new();
    let mut s1 = Session::new(901);
    let mut s2 = Session::new(902);
    s1.handle_message(&store, &mut active, WsMessage::Auth { id: 1, password: "p1".to_string() });
    s2.handle_message(&store, &mut active, WsMessage::Auth { id: 2, password: "p2".to_string() });

    s1.on_close(&mut active);
    let ids: Vec<u128> = active.list().iter().map(|n| n.id).collect();
    assert_eq!(ids, vec![2]);

    // a second close signal changes nothing further
    s1.on_close(&mut active);
    let ids: Vec<u128> = active.list().iter().map(|n| n.id).collect();
    assert_eq!(ids, vec![2]);
}

#[test]
fn set_address_with_evicted_entry_reports_failure() {
    let store = store_with(1, "p1", "d1");
    let mut active = ActiveRegistry::new();
    let mut session = Session::new(999);
    session.handle_message(&store, &mut active, WsMessage::Auth { id: 1, password: "p1".to_string() });

    // something external takes the entry out from under the session
    assert!(active.remove(1));

    let n = session.handle_message(
        &store,
        &mut active,
        WsMessage::SetAddress { ip: "10.0.0.5".to_string(), port: 9000 },
    );
    assert_eq!(n, Notice::EntryMissing);
    assert_eq!(n.text(), "Address update failed");
    assert_eq!(active.list().len(), 0);
}

#[test]
fn preauthenticated_session_registers_on_open() {
    let mut active = ActiveRegistry::new();
    let mut session = Session::new_authenticated(5, "d5".to_string());
    let outcome = session.on_open(&mut active, true);
    assert_eq!(outcome, OpenOutcome::Activated);
    let listed = active.list();
    assert_eq!(listed.len(), 1);
    assert_eq!(listed[0].id, 5);
    assert_eq!(listed[0].mac_id, "d5");
    assert_eq!(listed[0].ip, "unknown");
}

#[test]
fn unauthenticated_open_is_rejected_where_preauth_is_required() {
    let mut active = ActiveRegistry::new();
    let mut session = Session::new(999);
    let outcome = session.on_open(&mut active, true);
    assert_eq!(outcome, OpenOutcome::Rejected);
    assert!(session.is_closed());
    assert_eq!(active.list().len(), 0);
    assert_eq!(Notice::AuthenticationRequired.text(), "Authentication required");
}

#[test]
fn unauthenticated_open_waits_where_auth_comes_in_band() {
    let mut active = ActiveRegistry::new();
    let mut session = Session::new(999);
    let outcome = session.on_open(&mut active, false);
    assert_eq!(outcome, OpenOutcome::AwaitingAuth);
    assert_eq!(session.state(), SessionState::Unauthenticated);
    assert_eq!(active.list().len(), 0);
}
