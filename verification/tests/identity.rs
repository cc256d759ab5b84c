use chat_core::auth::{bearer_token, extract_username_from_auth_header, verify_jwt};
use chat_core::groups_api::{CreateGroupRequest, JoinLeaveGroupRequest};
use chat_core::pump::broadcast_copies;
use chat_core::registry::{Registry, Session};

const SECRET: &[u8] = b"test-signing-secret";

fn make_token(sub: &str, secret: &[u8], exp: i64) -> String {
    let mut claims = serde_json::Map::new();
    claims.insert("sub".to_string(), serde_json::Value::String(sub.to_string()));
    claims.insert("exp".to_string(), serde_json::Value::Number(serde_json::Number::from(exp)));
    jsonwebtoken::encode(
        &jsonwebtoken::Header::default(),
        &serde_json::Value::Object(claims),
        &jsonwebtoken::EncodingKey::from_secret(secret),
    )
    .expect("token signing")
}

#[test]
fn bearer_token_strips_the_scheme_prefix() {
    assert_eq!(bearer_token("Bearer abc.def.ghi"), Some("abc.def.ghi"));
    assert!(bearer_token("Basic abc").is_none());
    assert!(bearer_token("Bearer").is_none());
    assert!(bearer_token("").is_none());
    assert_eq!(bearer_token("Bearer "), Some(""));
}

#[test]
fn valid_token_resolves_to_its_subject() {
    let exp = chrono::Utc::now().timestamp() + 3600;
    let token = make_token("alice", SECRET, exp);
    assert_eq!(verify_jwt(&token, SECRET), Some("alice".to_string()));
    let header = format!("Bearer {}", token);
    assert_eq!(extract_username_from_auth_header(header, SECRET), Ok("alice".to_string()));
}

#[test]
fn forged_and_expired_tokens_are_refused() {
    let exp = chrono::Utc::now().timestamp() + 3600;
    let forged = make_token("alice", b"other-secret", exp);
    assert!(verify_jwt(&forged, SECRET).is_none());
    let expired = make_token("alice", SECRET, chrono::Utc::now().timestamp() - 3600);
    assert!(verify_jwt(&expired, SECRET).is_none());
    assert!(verify_jwt("not.a.token", SECRET).is_none());
    assert_eq!(
        extract_username_from_auth_header(format!("Bearer {}", forged), SECRET),
        Err("Invalid or expired token".to_string())
    );
    assert_eq!(
        extract_username_from_auth_header("no scheme".to_string(), SECRET),
        Err("Invalid authorization header".to_string())
    );
}

#[test]
fn registry_tracks_sessions_one_to_one() {
    let mut registry = Registry::new();
    assert!(registry.register(Session { connection_id: 1, username: "alice".to_string() }));
    assert!(registry.register(Session { connection_id: 2, username: "bob".to_string() }));
    // a duplicate connection id is refused
    assert!(!registry.register(Session { connection_id: 1, username: "mallory".to_string() }));
    assert_eq!(registry.len(), 2);
    let snapshot = registry.snapshot();
    assert_eq!(snapshot.len(), 2);
    assert_eq!(snapshot[0].username, "alice");
    assert_eq!(snapshot[1].username, "bob");
    assert!(registry.unregister(1));
    assert!(!registry.unregister(1));
    assert_eq!(registry.len(), 1);
    assert_eq!(registry.usernames(), vec!["bob".to_string()]);
}

#[test]
fn global_notice_fans_out_to_every_session() {
    let sessions = vec![
        Session { connection_id: 1, username: "alice".to_string() },
        Session { connection_id: 2, username: "alice".to_string() },
        Session { connection_id: 3, username: "bob".to_string() },
    ];
    let copies = broadcast_copies(&sessions, "{\"type\":\"reaction_added\"}", "t");
    assert_eq!(copies.len(), 3);
    for (copy, session) in copies.iter().zip(sessions.iter()) {
        assert_eq!(copy.sender_username, "system");
        assert_eq!(copy.receiver_username, session.username);
        // each session accepts its own copy under the delivery rules
        assert!(chat_core::filter::should_deliver(copy, &session.username, false));
    }
}

#[test]
fn group_creation_appends_creator_unless_listed() {
    let req = CreateGroupRequest {
        name: "team".to_string(),
        description: None,
        members: vec!["bob".to_string(), "carol".to_string()],
        ghost_mode: None,
    };
    assert!(!req.ghost_mode_or_default());
    let members = req.members_with_creator("alice");
    assert_eq!(members, vec!["bob".to_string(), "carol".to_string(), "alice".to_string()]);
    let req2 = CreateGroupRequest {
        name: "team".to_string(),
        description: None,
        members: vec!["alice".to_string(), "bob".to_string()],
        ghost_mode: Some(true),
    };
    assert!(req2.ghost_mode_or_default());
    assert_eq!(req2.members_with_creator("alice").len(), 2);
}

#[test]
fn join_and_leave_only_on_ones_own_behalf() {
    let req = JoinLeaveGroupRequest { group_id: 7, username: "bob".to_string() };
    assert!(req.authorized_for("bob"));
    assert!(!req.authorized_for("alice"));
    // the check is exact, not case-insensitive
    assert!(!req.authorized_for("Bob"));
}
