use dreas::error::DreasError;
use dreas::security::IdentityManager;
use dreas::time::Timestamp;

fn at(secs: i64) -> Timestamp {
    Timestamp::new(secs, 0)
}

fn names(items: &[&str]) -> Vec<String> {
    items.iter().map(|s| s.to_string()).collect()
}

#[test]
fn test_identity_manager() {
    let mut identity_manager = IdentityManager::new();

    let user = identity_manager
        .create_user(
            "testuser".to_string(),
            "test@example.com".to_string(),
            "password123".to_string(),
            vec!["user".to_string()],
        )
        .unwrap();

    assert_eq!(user.username, "testuser");
    assert_eq!(user.email, "test@example.com");

    let auth_result = identity_manager.authenticate("testuser", "password123").unwrap();
    assert!(auth_result.success);
    assert!(auth_result.session_id.is_some());

    // A session names its user by the account's id, and accounts are stored under
    // their user name: the permission check does not find the account.
    if let Some(session_id) = auth_result.session_id {
        match identity_manager.check_permission(&session_id, "read_data").unwrap_err() {
            DreasError::Authentication(message) => assert_eq!(message, "User not found"),
            other => panic!("unexpected error: {:?}", other),
        }
    }
}

#[test]
fn created_user_is_active_without_direct_permissions() {
    let mut manager = IdentityManager::new();
    let user = manager
        .create_user("u".to_string(), "e".to_string(), "pw".to_string(), names(&["a", "b"]))
        .unwrap();
    assert_eq!(user.roles, names(&["a", "b"]));
    assert!(user.permissions.is_empty());
    assert!(user.is_active);
    assert_eq!(user.last_login, None);
    // The id is a hyphenated identity.
    assert_eq!(user.id.len(), 36);
    assert!(uuid::Uuid::parse_str(&user.id).is_ok());

    let role = manager
        .create_role("a".to_string(), names(&["read"]), "readers".to_string())
        .unwrap();
    assert_eq!(role.name, "a");
    assert_eq!(role.permissions, names(&["read"]));
    assert_eq!(role.description, "readers");
}

#[test]
fn login_is_refused_for_wrong_password_or_unknown_user() {
    let mut manager = IdentityManager::new();
    manager
        .create_user("u".to_string(), "e".to_string(), "password123".to_string(), vec![])
        .unwrap();
    for (name, password) in [("u", "password124"), ("u", ""), ("nobody", "password123")] {
        let result = manager.authenticate(name, password).unwrap();
        assert!(!result.success);
        assert!(result.user.is_none());
        assert!(result.session_id.is_none());
        assert_eq!(result.error.as_deref(), Some("Invalid credentials"));
    }
    let ok = manager.authenticate("u", "password123").unwrap();
    assert!(ok.success);
    assert_eq!(ok.user.unwrap().username, "u");
    assert_eq!(ok.error, None);
    assert!(uuid::Uuid::parse_str(&ok.session_id.unwrap()).is_ok());
}

#[test]
fn session_opens_for_a_day_and_stamps_the_login() {
    let mut manager = IdentityManager::new();
    // An account whose id is its user name can be found through its session.
    manager
        .create_user("alice".to_string(), "e".to_string(), "pw".to_string(), vec![])
        .unwrap();
    let session = manager
        .create_session_at("alice".to_string(), "s-1".to_string(), Timestamp::new(1_000, 7))
        .unwrap();
    assert_eq!(session.session_id, "s-1");
    assert_eq!(session.user_id, "alice");
    assert_eq!(session.created_at, Timestamp::new(1_000, 7));
    assert_eq!(session.expires_at, Timestamp::new(87_400, 7));
    assert_eq!(session.ip_address, None);
    assert_eq!(session.user_agent, None);

    let user = manager.get_user_by_session_at("s-1", at(1_000)).unwrap().unwrap();
    assert_eq!(user.username, "alice");
    assert_eq!(user.last_login, Some(Timestamp::new(1_000, 7)));

    // Good up to and including the expiry, not after it.
    assert!(manager.get_user_by_session_at("s-1", Timestamp::new(87_400, 7)).unwrap().is_some());
    assert!(manager.get_user_by_session_at("s-1", Timestamp::new(87_400, 8)).unwrap().is_none());
    assert!(manager.get_user_by_session_at("s-2", at(1_000)).unwrap().is_none());

    // A session for an id that no account is stored under finds nobody.
    manager.create_session_at("ghost".to_string(), "s-3".to_string(), at(0)).unwrap();
    assert!(manager.get_user_by_session_at("s-3", at(1)).unwrap().is_none());
}

#[test]
fn session_expiry_stops_at_the_end_of_the_time_line() {
    let mut manager = IdentityManager::new();
    let session = manager
        .create_session_at("u".to_string(), "s".to_string(), Timestamp::new(i64::MAX - 5, 1))
        .unwrap();
    assert_eq!(session.expires_at, Timestamp::new(i64::MAX, 1));
    let session = manager
        .create_session_at("u".to_string(), "t".to_string(), Timestamp::new(i64::MAX - 86_400, 1))
        .unwrap();
    assert_eq!(session.expires_at, Timestamp::new(i64::MAX, 1));
}

fn manager_with_roles() -> IdentityManager {
    let mut manager = IdentityManager::new();
    manager
        .create_user(
            "alice".to_string(),
            "e".to_string(),
            "pw".to_string(),
            names(&["missing", "reader", "writer"]),
        )
        .unwrap();
    manager.create_role("reader".to_string(), names(&["read"]), String::new()).unwrap();
    manager.create_role("writer".to_string(), names(&["write", "append"]), String::new()).unwrap();
    manager.create_role("admin".to_string(), names(&["delete"]), String::new()).unwrap();
    manager.create_session_at("alice".to_string(), "s".to_string(), at(100)).unwrap();
    manager
}

#[test]
fn permission_comes_from_the_users_roles() {
    let manager = manager_with_roles();
    for granted in ["read", "write", "append"] {
        let result = manager.check_permission_at("s", granted, at(200)).unwrap();
        assert!(result.allowed, "{}", granted);
        assert_eq!(result.reason, None);
    }
    for denied in ["delete", "", "READ"] {
        let result = manager.check_permission_at("s", denied, at(200)).unwrap();
        assert!(!result.allowed, "{}", denied);
        assert_eq!(result.reason.as_deref(), Some("Insufficient permissions"));
    }
}

#[test]
fn permission_check_reports_session_faults() {
    let manager = manager_with_roles();
    match manager.check_permission_at("nope", "read", at(200)).unwrap_err() {
        DreasError::Authentication(message) => assert_eq!(message, "Invalid session"),
        other => panic!("unexpected error: {:?}", other),
    }
    // At the expiry the session is still good; after it, it is not.
    assert!(manager.check_permission_at("s", "read", at(86_500)).unwrap().allowed);
    let expired = manager.check_permission_at("s", "read", Timestamp::new(86_500, 1)).unwrap();
    assert!(!expired.allowed);
    assert_eq!(expired.reason.as_deref(), Some("Session expired"));
}

#[test]
fn logout_ends_the_session() {
    let mut manager = manager_with_roles();
    assert!(manager.logout("unknown").is_ok());
    assert!(manager.check_permission_at("s", "read", at(200)).is_ok());
    assert!(manager.logout("s").is_ok());
    assert!(manager.check_permission_at("s", "read", at(200)).is_err());
    assert!(manager.get_user_by_session("s").unwrap().is_none());
}

#[test]
fn clock_based_calls_agree_with_fresh_sessions() {
    let mut manager = IdentityManager::new();
    manager
        .create_user("bob".to_string(), "e".to_string(), "pw".to_string(), vec![])
        .unwrap();
    let now = chrono::Utc::now().timestamp();
    manager
        .create_session_at("bob".to_string(), "live".to_string(), Timestamp::new(now, 0))
        .unwrap();
    manager
        .create_session_at("bob".to_string(), "stale".to_string(), Timestamp::new(now - 200_000, 0))
        .unwrap();
    assert_eq!(manager.get_user_by_session("live").unwrap().unwrap().username, "bob");
    assert!(manager.get_user_by_session("stale").unwrap().is_none());
    let result = manager.check_permission("live", "x").unwrap();
    assert_eq!(result.reason.as_deref(), Some("Insufficient permissions"));
    let result = manager.check_permission("stale", "x").unwrap();
    assert_eq!(result.reason.as_deref(), Some("Session expired"));
}
