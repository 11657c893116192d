use shell_remote::proto::Permission;
use shell_remote::relay::session::{FreshIds, RegisterError, SessionRegistry};

fn fresh(rw: &str, ro: &str, id: &str) -> FreshIds {
    FreshIds {
        rw_token: rw.to_string(),
        ro_token: ro.to_string(),
        session_id: id.to_string(),
    }
}

fn clone_tokens(tokens: &Vec<(String, Permission)>) -> Vec<(String, Permission)> {
    tokens.clone()
}

#[test]
fn test_register_temporary() {
    let mut registry = SessionRegistry::new();
    let (session_id, tokens) = registry.register(None, "rw", None).unwrap();
    assert_eq!(tokens.len(), 1);
    assert_eq!(tokens[0].1, Permission::ReadWrite);
    assert!(registry.is_temporary(&session_id));
}

#[test]
fn test_register_both_token_types() {
    let mut registry = SessionRegistry::new();
    let (_session_id, tokens) = registry.register(None, "both", None).unwrap();
    assert_eq!(tokens.len(), 2);
    assert_eq!(tokens[0].1, Permission::ReadWrite);
    assert_eq!(tokens[1].1, Permission::ReadOnly);
    assert_ne!(tokens[0].0, tokens[1].0);
}

#[test]
fn test_register_ro_only() {
    let mut registry = SessionRegistry::new();
    let (_session_id, tokens) = registry.register(None, "ro", None).unwrap();
    assert_eq!(tokens.len(), 1);
    assert_eq!(tokens[0].1, Permission::ReadOnly);
}

#[test]
fn test_register_fixed_key() {
    let mut registry = SessionRegistry::new();
    let (_session_id, tokens) = registry
        .register(Some("my-secret-key".to_string()), "rw", None)
        .unwrap();
    assert_eq!(tokens.len(), 1);
    assert_eq!(tokens[0].0, "my-secret-key");
    assert_eq!(tokens[0].1, Permission::ReadWrite);
}

#[test]
fn test_register_fixed_key_both() {
    let mut registry = SessionRegistry::new();
    let (_session_id, tokens) = registry
        .register(Some("my-secret-key".to_string()), "both", None)
        .unwrap();
    assert_eq!(tokens.len(), 2);
    assert_eq!(tokens[0].0, "my-secret-key");
    assert_eq!(tokens[0].1, Permission::ReadWrite);
    assert_eq!(tokens[1].1, Permission::ReadOnly);
    assert_ne!(tokens[1].0, "my-secret-key");
}

#[test]
fn test_register_with_custom_id() {
    let mut registry = SessionRegistry::new();
    let (sid, _t) = registry
        .register(None, "rw", Some("mydev01".to_string()))
        .unwrap();
    assert_eq!(sid, "mydev01");
}

#[test]
fn test_register_custom_id_taken() {
    let mut registry = SessionRegistry::new();
    let _ = registry
        .register(None, "rw", Some("mydev01".to_string()))
        .unwrap();
    let err = registry
        .register(None, "rw", Some("mydev01".to_string()))
        .unwrap_err();
    assert!(matches!(err, RegisterError::IdTaken));
}

#[test]
fn test_register_invalid_id_rejected() {
    let mut registry = SessionRegistry::new();
    let err = registry
        .register(None, "rw", Some("ab!".to_string()))
        .unwrap_err();
    assert!(matches!(err, RegisterError::InvalidId));
    let (_sid, _t) = registry.register(None, "rw", None).unwrap();
}

#[test]
fn test_register_existing_evicts_same_tokens() {
    let mut registry = SessionRegistry::new();
    let (sid, tokens) = registry
        .register(None, "rw", Some("dev01".to_string()))
        .unwrap();
    assert_eq!(sid, "dev01");
    let (sid2, _t2) = registry
        .register_existing(clone_tokens(&tokens), Some("dev01".to_string()))
        .unwrap();
    assert_eq!(sid2, "dev01");
    let (resolved, _) = registry.authenticate(&tokens[0].0).unwrap();
    assert_eq!(resolved, "dev01");
}

#[test]
fn test_register_existing_conflict_different_tokens() {
    let mut registry = SessionRegistry::new();
    let _ = registry
        .register(None, "rw", Some("dev01".to_string()))
        .unwrap();
    let other = vec![("other-token-xx".to_string(), Permission::ReadWrite)];
    let err = registry
        .register_existing(other, Some("dev01".to_string()))
        .unwrap_err();
    assert!(matches!(err, RegisterError::IdTaken));
}

#[test]
fn test_authenticate_valid_token() {
    let mut registry = SessionRegistry::new();
    let (session_id, tokens) = registry.register(None, "rw", None).unwrap();
    let result = registry.authenticate(&tokens[0].0);
    assert!(result.is_some());
    let (sid, perm) = result.unwrap();
    assert_eq!(sid, session_id);
    assert_eq!(perm, Permission::ReadWrite);
}

#[test]
fn test_authenticate_invalid_token() {
    let registry = SessionRegistry::new();
    let result = registry.authenticate("nonexistent");
    assert!(result.is_none());
}

#[test]
fn test_authenticate_ro_token() {
    let mut registry = SessionRegistry::new();
    let (_session_id, tokens) = registry.register(None, "both", None).unwrap();
    let result = registry.authenticate(&tokens[1].0);
    assert!(result.is_some());
    let (_sid, perm) = result.unwrap();
    assert_eq!(perm, Permission::ReadOnly);
}

#[test]
fn test_remove_session() {
    let mut registry = SessionRegistry::new();
    let (session_id, tokens) = registry.register(None, "rw", None).unwrap();
    registry.remove(&session_id);
    let result = registry.authenticate(&tokens[0].0);
    assert!(result.is_none());
    assert!(!registry.is_temporary(&session_id));
}

#[test]
fn test_is_temporary_false_for_fixed_key() {
    let mut registry = SessionRegistry::new();
    let (session_id, _tokens) = registry
        .register(Some("key".to_string()), "rw", None)
        .unwrap();
    assert!(!registry.is_temporary(&session_id));
}

#[test]
fn test_token_hex_format() {
    let mut registry = SessionRegistry::new();
    let (_session_id, tokens) = registry.register(None, "rw", None).unwrap();
    let token = &tokens[0].0;
    assert_eq!(token.len(), 64);
    assert!(token.chars().all(|c| c.is_ascii_hexdigit()));
}

#[test]
fn test_register_existing_reuses_tokens() {
    let mut registry = SessionRegistry::new();
    let reused = vec![
        ("cached-rw-token".to_string(), Permission::ReadWrite),
        ("cached-ro-token".to_string(), Permission::ReadOnly),
    ];
    let (sid, tokens) = registry
        .register_existing(clone_tokens(&reused), None)
        .unwrap();
    assert_eq!(tokens.len(), 2);
    assert_eq!(tokens[0].0, "cached-rw-token");
    assert_eq!(tokens[1].0, "cached-ro-token");
    let (s1, p1) = registry.authenticate("cached-rw-token").unwrap();
    let (s2, _p2) = registry.authenticate("cached-ro-token").unwrap();
    assert_eq!(s1, sid);
    assert_eq!(s2, sid);
    assert_eq!(p1, Permission::ReadWrite);
    assert!(registry.is_temporary(&sid));
}

#[test]
fn test_register_existing_overwrites_old_mapping() {
    let mut registry = SessionRegistry::new();
    let (old_sid, _t) = registry
        .register_existing(vec![("shared-token".to_string(), Permission::ReadWrite)], None)
        .unwrap();
    let (new_sid, _t) = registry
        .register_existing(vec![("shared-token".to_string(), Permission::ReadWrite)], None)
        .unwrap();
    assert_ne!(old_sid, new_sid);
    let (resolved, _) = registry.authenticate("shared-token").unwrap();
    assert_eq!(resolved, new_sid);
}

#[test]
fn session_test_list_sessions() {
    let mut registry = SessionRegistry::new();
    let (sid, _t) = registry.register(None, "both", None).unwrap();
    let list = registry.list_sessions();
    assert_eq!(list.len(), 1);
    assert_eq!(list[0].0, sid);
    assert_eq!(list[0].1.tokens.len(), 2);
}

#[test]
fn test_revoke_token() {
    let mut registry = SessionRegistry::new();
    let (_sid, tokens) = registry.register(None, "both", None).unwrap();
    assert!(registry.revoke_token(&tokens[0].0));
    assert!(registry.authenticate(&tokens[0].0).is_none());
    assert!(registry.authenticate(&tokens[1].0).is_some());
    assert!(!registry.revoke_token("nope"));
}

#[test]
fn test_regenerate_session() {
    let mut registry = SessionRegistry::new();
    let (sid, tokens) = registry.register(None, "rw", None).unwrap();
    let new_tokens = registry.regenerate_session(&sid).unwrap();
    assert_eq!(new_tokens.len(), 1);
    assert_ne!(new_tokens[0].0, tokens[0].0);
    assert!(registry.authenticate(&tokens[0].0).is_none());
    let (resolved, perm) = registry.authenticate(&new_tokens[0].0).unwrap();
    assert_eq!(resolved, sid);
    assert_eq!(perm, Permission::ReadWrite);
    assert!(registry.regenerate_session("deadbeef").is_none());
}

#[test]
fn test_set_token_permission() {
    let mut registry = SessionRegistry::new();
    let (_sid, tokens) = registry.register(None, "rw", None).unwrap();
    assert!(registry.set_token_permission(&tokens[0].0, Permission::ReadOnly));
    let (_sid, perm) = registry.authenticate(&tokens[0].0).unwrap();
    assert_eq!(perm, Permission::ReadOnly);
    registry.set_token_permission(&tokens[0].0, Permission::ReadWrite);
    let (_, perm) = registry.authenticate(&tokens[0].0).unwrap();
    assert_eq!(perm, Permission::ReadWrite);
    assert!(!registry.set_token_permission("nope", Permission::ReadOnly));
}

#[test]
fn test_add_and_remove_tag() {
    let mut registry = SessionRegistry::new();
    let (sid, _t) = registry.register(None, "rw", None).unwrap();
    assert!(registry.add_tag(&sid, "prod"));
    assert!(registry.add_tag(&sid, "  db  "));
    registry.add_tag(&sid, "prod");
    let list = registry.list_sessions();
    let info = list.iter().find(|(s, _)| s == &sid).unwrap();
    assert_eq!(info.1.tags, vec!["prod".to_string(), "db".to_string()]);

    assert!(!registry.add_tag(&sid, "   "));

    assert!(registry.remove_tag(&sid, "prod"));
    let list = registry.list_sessions();
    let info = list.iter().find(|(s, _)| s == &sid).unwrap();
    assert_eq!(info.1.tags, vec!["db".to_string()]);

    assert!(!registry.add_tag("deadbeef", "x"));
    assert!(!registry.remove_tag("deadbeef", "x"));
}

#[test]
fn registers_with_the_values_given() {
    let mut registry = SessionRegistry::new();
    let (sid, tokens) = registry
        .register_with(None, "both", None, fresh("aa", "bb", "cc"))
        .unwrap();
    assert_eq!(sid, "cc");
    assert_eq!(
        tokens,
        vec![
            ("aa".to_string(), Permission::ReadWrite),
            ("bb".to_string(), Permission::ReadOnly),
        ]
    );
    assert_eq!(registry.count(), 1);
    // A random id that is taken already is refused too.
    let err = registry
        .register_with(None, "rw", None, fresh("dd", "ee", "cc"))
        .unwrap_err();
    assert_eq!(err, RegisterError::IdTaken);
    assert!(registry.authenticate("dd").is_none());
}

#[test]
fn fixed_key_with_read_only_type_is_read_only() {
    let mut registry = SessionRegistry::new();
    let (_sid, tokens) = registry
        .register_with(Some("k1".to_string()), "ro", None, fresh("aa", "bb", "cc"))
        .unwrap();
    assert_eq!(tokens, vec![("k1".to_string(), Permission::ReadOnly)]);
}

#[test]
fn session_ids_are_eight_hex_digits() {
    let mut registry = SessionRegistry::new();
    let (sid, _t) = registry.register(None, "rw", None).unwrap();
    assert_eq!(sid.len(), 8);
    assert!(sid.chars().all(|c| c.is_ascii_hexdigit() && !c.is_ascii_uppercase()));
}

#[test]
fn removing_one_session_keeps_the_others() {
    let mut registry = SessionRegistry::new();
    let (a, ta) = registry.register(None, "rw", None).unwrap();
    let (b, tb) = registry.register(None, "rw", None).unwrap();
    registry.remove(&a);
    assert!(registry.authenticate(&ta[0].0).is_none());
    assert_eq!(registry.authenticate(&tb[0].0).unwrap().0, b);
    assert_eq!(registry.count(), 1);
}

#[test]
fn regenerating_keeps_permission_slots_and_tags() {
    let mut registry = SessionRegistry::new();
    let (sid, tokens) = registry.register(None, "both", None).unwrap();
    registry.add_tag(&sid, "prod");
    let new_tokens = registry
        .regenerate_with(&sid, vec!["x1".to_string(), "x2".to_string()])
        .unwrap();
    assert_eq!(
        new_tokens,
        vec![
            ("x1".to_string(), Permission::ReadWrite),
            ("x2".to_string(), Permission::ReadOnly),
        ]
    );
    assert!(registry.authenticate(&tokens[0].0).is_none());
    assert!(registry.authenticate(&tokens[1].0).is_none());
    assert_eq!(registry.authenticate("x2").unwrap().1, Permission::ReadOnly);
    assert_eq!(registry.list_sessions()[0].1.tags, vec!["prod".to_string()]);
}

#[test]
fn a_session_without_tokens_is_not_regenerated() {
    let mut registry = SessionRegistry::new();
    let (sid, tokens) = registry.register(None, "rw", None).unwrap();
    assert!(registry.revoke_token(&tokens[0].0));
    assert!(registry.regenerate_session(&sid).is_none());
    assert_eq!(registry.count(), 1);
}

#[test]
fn untagging_trims_the_label() {
    let mut registry = SessionRegistry::new();
    let (sid, _t) = registry.register(None, "rw", None).unwrap();
    registry.add_tag(&sid, "a");
    assert!(registry.remove_tag(&sid, "\u{2003}a\t"));
    assert!(registry.list_sessions()[0].1.tags.is_empty());
    assert!(registry.remove_tag(&sid, "never-there"));
}

#[test]
fn regenerating_replaces_a_fixed_key() {
    let mut r = SessionRegistry::new();
    r.register(Some("my-secret-key".to_string()), "rw", Some("dev01".to_string())).unwrap();
    let tokens = r.regenerate_session("dev01").unwrap();
    assert!(r.authenticate("my-secret-key").is_none());
    let (sid, info) = &r.list_sessions()[0];
    assert_eq!(sid, "dev01");
    assert_eq!(info.fixed_key, Some(tokens[0].0.clone()));
    assert!(!info.is_temporary);
    // A session without a fixed key gets none.
    let (sid, _) = r.register(None, "both", None).unwrap();
    r.regenerate_session(&sid).unwrap();
    for (id, info) in r.list_sessions() {
        if id == sid {
            assert_eq!(info.fixed_key, None);
            assert!(info.is_temporary);
        }
    }
}
