use proxy_registry::store::{
    register_endpoint, RegisterOutcome, RegisterRequest, RegisterResponse, RegistrationStore,
};

#[test]
fn register_success_then_conflict() {
    let mut store = RegistrationStore::new();
    let r1 = store.register(1, "p1".to_string(), "d1".to_string());
    assert_eq!(r1, RegisterOutcome::Registered);
    let r2 = store.register(1, "p2".to_string(), "d2".to_string());
    assert_eq!(r2, RegisterOutcome::AlreadyRegistered);
}

#[test]
fn conflict_leaves_entry_unchanged() {
    let mut store = RegistrationStore::new();
    store.register(7, "first".to_string(), "dev-a".to_string());
    store.register(7, "second".to_string(), "dev-b".to_string());
    let node = store.lookup(7).expect("entry must exist");
    assert_eq!(node.password, "first");
    assert_eq!(node.mac_id, "dev-a");
    assert_eq!(store.list().len(), 1);
}

#[test]
fn lookup_unknown_is_none() {
    let mut store = RegistrationStore::new();
    store.register(1, "p1".to_string(), "d1".to_string());
    assert!(store.lookup(2).is_none());
    assert!(store.contains(1));
    assert!(!store.contains(2));
}

#[test]
fn list_keeps_insertion_order() {
    let mut store = RegistrationStore::new();
    store.register(3, "a".to_string(), "da".to_string());
    store.register(1, "b".to_string(), "db".to_string());
    store.register(2, "c".to_string(), "dc".to_string());
    let listed = store.list();
    let ids: Vec<u128> = listed.iter().map(|n| n.id).collect();
    assert_eq!(ids, vec![3, 1, 2]);
}

#[test]
fn list_shows_device_but_never_the_credential() {
    let mut store = RegistrationStore::new();
    store.register(1, "p1".to_string(), "d1".to_string());
    let listed = store.list();
    assert_eq!(listed.len(), 1);
    // the listed record is the redacted projection: identifier and device
    // identifier only — the type carries no credential field at all
    assert_eq!(listed[0].id, 1);
    assert_eq!(listed[0].mac_id, "d1");
    // the credential is still there for the equality check
    assert_eq!(store.lookup(1).unwrap().password, "p1");
}

#[test]
fn endpoint_rejects_bad_api_key() {
    let mut store = RegistrationStore::new();
    let req = RegisterRequest {
        id: 1,
        password: "p1".to_string(),
        mac_id: "d1".to_string(),
        api_key: "wrong".to_string(),
    };
    let r = register_endpoint(&mut store, req, &"right".to_string());
    assert_eq!(r, RegisterResponse::InvalidApiKey);
    assert_eq!(r.text(), "Invalid API key");
    assert!(!store.contains(1));
}

#[test]
fn endpoint_registers_and_reports_conflict() {
    let mut store = RegistrationStore::new();
    let key = "deploy-key".to_string();
    let req = RegisterRequest {
        id: 9,
        password: "p1".to_string(),
        mac_id: "d1".to_string(),
        api_key: key.clone(),
    };
    let r = register_endpoint(&mut store, req, &key);
    assert_eq!(r, RegisterResponse::Registered);
    assert_eq!(r.text(), "Registered successfully");

    let again = RegisterRequest {
        id: 9,
        password: "other".to_string(),
        mac_id: "d2".to_string(),
        api_key: key.clone(),
    };
    let r2 = register_endpoint(&mut store, again, &key);
    assert_eq!(r2, RegisterResponse::IdAlreadyRegistered);
    assert_eq!(r2.text(), "ID already registered");
    assert_eq!(store.lookup(9).unwrap().password, "p1");
}
