use proxy_registry::names::node_name;
use proxy_registry::users::UserStore;
use uuid::Uuid;

#[test]
fn node_name_takes_top_bits_in_hex() {
    assert_eq!(node_name(0), "node-00000000");
    assert_eq!(node_name(0xdeadbeefu128 << 96), "node-deadbeef");
    assert_eq!(node_name(0x01234567u128 << 96 | 0xffff), "node-01234567");
    assert_eq!(node_name(u128::MAX), "node-ffffffff");
}

#[test]
fn node_name_matches_canonical_identifier_form() {
    for id in [
        0u128,
        1u128,
        0xdeadbeefu128 << 96,
        0x0123456789abcdef0123456789abcdefu128,
        u128::MAX,
    ] {
        let canonical = Uuid::from_u128(id).to_string();
        assert_eq!(node_name(id), format!("node-{}", &canonical[..8]));
    }
}

#[test]
fn add_user_then_check_credentials() {
    let mut users = UserStore::new();
    assert!(users.add_user("ferivonus", "password123"));
    assert!(users.check_credentials("ferivonus", "password123"));
    assert!(!users.check_credentials("ferivonus", "password124"));
    assert!(!users.check_credentials("someone-else", "password123"));
}

#[test]
fn re_adding_a_user_replaces_the_password() {
    let mut users = UserStore::new();
    assert!(users.add_user("op", "first"));
    assert!(users.add_user("op", "second"));
    assert!(!users.check_credentials("op", "first"));
    assert!(users.check_credentials("op", "second"));
}

#[test]
fn stored_hash_is_not_the_password() {
    let mut users = UserStore::new();
    assert!(users.add_user("op", "plain"));
    let stored = users.lookup("op").expect("account must exist");
    assert_ne!(stored.password_hash, "plain");
    assert_eq!(stored.password_hash.len(), 60);
    assert!(stored.password_hash.starts_with("$2b$"));
}
