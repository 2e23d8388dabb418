use plantita_ayudante::moderation::{
    check_admin_exception, exception_applies, forbidden_user_gate, forbidden_user_sanctioned, mentions_everyone,
    role_time_out_message, role_warn_message, route_mention, sanction_applies, timeout_end, user_time_out_message,
    user_warn_message, warns_counter, MentionRoute, Warns, decide_sanction, sanction_actions, ModAction,
    ModerationError, ProtectedMention,
};

#[test]
fn admin_exception_needs_a_matching_role() {
    let admins = vec!["1020156814152712222".to_string(), "no-es-id".to_string()];
    assert!(check_admin_exception(Some(&admins), &vec![5, 1_020_156_814_152_712_222]));
    assert!(!check_admin_exception(Some(&admins), &vec![5]));
    assert!(!check_admin_exception(None, &vec![1_020_156_814_152_712_222]));
    assert!(!check_admin_exception(Some(&admins), &vec![]));
}

#[test]
fn sanctions_spare_admins() {
    let admins = vec!["10".to_string()];
    assert!(!sanction_applies(Some(&admins), &vec![10]));
    assert!(sanction_applies(Some(&admins), &vec![11]));
    assert!(sanction_applies(None, &vec![10]));
    // Mentions of the protected user are only punished when admins are configured.
    assert!(!forbidden_user_sanctioned(None, &vec![11]));
    assert!(forbidden_user_sanctioned(Some(&admins), &vec![11]));
    assert!(!forbidden_user_sanctioned(Some(&admins), &vec![10]));
}

#[test]
fn forbidden_user_gate_checks() {
    assert!(!forbidden_user_gate(1, 1, None, true));
    assert!(!forbidden_user_gate(2, 1, Some(true), true));
    assert!(forbidden_user_gate(2, 1, Some(false), true));
    assert!(!forbidden_user_gate(2, 1, None, false));
    assert!(forbidden_user_gate(2, 1, None, true));
}

#[test]
fn mention_routing() {
    assert!(matches!(route_mention(&vec![3, 9], 9), MentionRoute::ForbiddenUser));
    assert!(matches!(route_mention(&vec![3, 4], 9), MentionRoute::CheckRole(3)));
    assert!(matches!(route_mention(&vec![], 9), MentionRoute::Nothing));
}

#[test]
fn everyone_pings() {
    assert!(mentions_everyone("hola @everyone"));
    assert!(mentions_everyone("@here ya"));
    assert!(!mentions_everyone("everyone here"));
}

#[test]
fn warning_counter_reaches_limit_on_third_warning() {
    let mut w = Warns::new(5);
    assert!(!warns_counter(&mut w, None));
    assert_eq!(w.warns, 1);
    assert!(!w.reaches_limit());
    let stored = Warns { user_id: 5, warns: 1 };
    assert!(warns_counter(&mut w, Some(stored)));
    assert_eq!(w.warns, 2);
    let stored = Warns { user_id: 5, warns: 2 };
    assert!(warns_counter(&mut w, Some(stored)));
    assert_eq!(w.warns, 3);
    assert!(w.reaches_limit());
}

#[test]
fn warn_texts() {
    assert_eq!(
        user_warn_message("Ana", None),
        "Ana Por favor no hagas @ a este usuario. Si estás respondiendo un mensaje, considera responder al mensaje sin usar @"
    );
    assert_eq!(user_warn_message("Ana", Some("No".to_string())), "Ana No");
    assert_eq!(
        user_time_out_message(None),
        "Has sido silenciado por mencionar a un usuario cuyo rol está prohibido de mencionar"
    );
    assert_eq!(
        role_warn_message("Ana", None),
        "Ana Ana Por favor no hagas @ a este usuario. Si estás respondiendo un mensaje, considera responder al mensaje sin usar @"
    );
    assert_eq!(role_warn_message("Ana", Some("No".to_string())), "Ana No");
    assert_eq!(
        role_time_out_message("Ana", None),
        "Ana Has sido silenciado por mencionar a un usuario cuyo rol está prohibido de mencionar"
    );
    assert_eq!(role_time_out_message("Ana", Some("Fuera".to_string())), "Fuera");
}

#[test]
fn timeout_end_adds_timer() {
    assert_eq!(timeout_end(1_700_000_000, 300), 1_700_000_300);
}

#[test]
fn typing_exception() {
    assert!(exception_applies(1, 1, 2, 2));
    assert!(!exception_applies(1, 3, 2, 2));
    assert!(!exception_applies(1, 1, 2, 4));
}

#[test]
fn sanction_fails_without_a_valid_time_out_even_for_admins() {
    let admins = vec!["10".to_string()];
    let roles = vec![10u64];
    let r = decide_sanction(ProtectedMention::User, None, "ana", None, None, Some(&admins), &roles);
    assert!(matches!(r, Err(ModerationError::NoTimeOut)));
    let r = decide_sanction(ProtectedMention::Role, Some("5m"), "ana", None, None, Some(&admins), &roles);
    assert!(matches!(r, Err(ModerationError::InvalidTimeOut)));
}

#[test]
fn sanction_decision() {
    let admins = vec!["10".to_string()];
    let r = decide_sanction(ProtectedMention::User, Some("300"), "ana", None, None, Some(&admins), &vec![10]);
    assert!(matches!(r, Ok(None)));
    let r = decide_sanction(ProtectedMention::User, Some("300"), "ana", None, None, None, &vec![7]);
    assert!(matches!(r, Ok(None)));
    let s = decide_sanction(ProtectedMention::Role, Some("300"), "ana", None, Some("fuera".to_string()), None, &vec![7])
        .ok()
        .flatten()
        .unwrap();
    assert_eq!(s.seconds, 300);
    assert_eq!(
        s.warn_message,
        "ana ana Por favor no hagas @ a este usuario. Si estás respondiendo un mensaje, considera responder al mensaje sin usar @"
    );
    assert_eq!(s.time_out_message, "fuera");
}

#[test]
fn sanction_steps_in_order() {
    let admins = vec!["10".to_string()];
    let s = decide_sanction(ProtectedMention::User, Some("60"), "ana", Some("no".to_string()), None, Some(&admins), &vec![7])
        .ok()
        .flatten()
        .unwrap();
    let a = sanction_actions(ProtectedMention::User, s, 3);
    assert_eq!(a.len(), 4);
    assert!(matches!(&a[0], ModAction::SendWarning { warns: 3, message } if message == "ana no"));
    assert!(matches!(&a[1], ModAction::TimeOut { seconds: 60, message } if message.starts_with("Has sido silenciado")));
    assert!(matches!(&a[2], ModAction::StoreMessage));
    assert!(matches!(&a[3], ModAction::DeleteMessage { reason: Some(r) } if r.starts_with("Mensaje eliminado")));

    let s = decide_sanction(ProtectedMention::Role, Some("60"), "ana", None, None, None, &vec![7]).ok().flatten().unwrap();
    let a = sanction_actions(ProtectedMention::Role, s, 1);
    assert_eq!(a.len(), 2);
    assert!(matches!(&a[0], ModAction::SendWarning { warns: 1, .. }));
    assert!(matches!(&a[1], ModAction::DeleteMessage { reason: None }));
}
