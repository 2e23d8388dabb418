use plantita_ayudante::reactions::{emoji_id, emoji_string, role_for_emoji_id, vote_removes, AutoRoleError, Emoji, RoleAssignment};

#[test]
fn votes() {
    assert!(vote_removes(1, 1, 5));
    assert!(vote_removes(1, 1, 7));
    assert!(!vote_removes(1, 1, 4));
    assert!(!vote_removes(1, 2, 9));
}

#[test]
fn emoji_text_and_id() {
    let e = Emoji::Custom { animated: false, id: 123, name: Some("hoja".to_string()) };
    assert_eq!(emoji_string(&e), "<:hoja:123>");
    assert_eq!(emoji_id(&e), Some("123".to_string()));
    let a = Emoji::Custom { animated: true, id: 9, name: Some("baile".to_string()) };
    assert_eq!(emoji_string(&a), "<a:baile:9>");
    assert_eq!(emoji_id(&a), Some("9".to_string()));
    let u = Emoji::Unicode("🔻".to_string());
    assert_eq!(emoji_string(&u), "🔻");
    assert_eq!(emoji_id(&u), None);
    let nameless = Emoji::Custom { animated: false, id: 5, name: None };
    assert_eq!(emoji_id(&nameless), None);
}

#[test]
fn assignments() {
    let a = vec![
        RoleAssignment { emoji_id: "1".to_string(), role: "100".to_string() },
        RoleAssignment { emoji_id: "2".to_string(), role: "rol".to_string() },
        RoleAssignment { emoji_id: "1".to_string(), role: "300".to_string() },
    ];
    assert!(matches!(role_for_emoji_id(&a, "1"), Ok(Some(100))));
    assert!(matches!(role_for_emoji_id(&a, "2"), Err(AutoRoleError::InvalidRole)));
    assert!(matches!(role_for_emoji_id(&a, "3"), Ok(None)));
}
