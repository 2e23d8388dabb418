use plantita_ayudante::sanctions::{goodbye_record, returning_member_description, role_mentions, roles_to_restore, sanction_roles_held, welcome_text, SanctionRoles};

#[test]
fn leaving_member_records_sanctions() {
    let s = SanctionRoles { roles: vec!["10".to_string(), "30".to_string()] };
    assert_eq!(sanction_roles_held(&vec![30, 20, 10], &s), vec!["30".to_string(), "10".to_string()]);
    let r = goodbye_record(5, 6, &vec![30, 20], &s).unwrap();
    assert_eq!(r.user_id, "5");
    assert_eq!(r.guild_id, "6");
    assert_eq!(r.roles, vec!["30".to_string()]);
    assert!(goodbye_record(5, 6, &vec![20], &s).is_none());
}

#[test]
fn returning_member_gets_roles_back() {
    let stored = vec!["30".to_string(), "x".to_string(), "0".to_string(), "10".to_string()];
    let roles = roles_to_restore(&stored);
    assert_eq!(roles, vec![30, 10]);
    assert_eq!(role_mentions(&roles), "<@&30>, <@&10>");
    assert_eq!(role_mentions(&vec![]), "");
    assert_eq!(
        returning_member_description(7, &roles),
        "Usuario detectado: <@7> \nRoles asignados previamente <@&30>, <@&10>"
    );
}

#[test]
fn recorded_roles_restore() {
    let s = SanctionRoles { roles: vec!["10".to_string(), "30".to_string()] };
    let held = sanction_roles_held(&vec![30, 20, 10], &s);
    assert_eq!(roles_to_restore(&held), vec![30, 10]);
}

#[test]
fn welcome() {
    assert_eq!(welcome_text(4, "Plantas", "Disfruta"), "Bienvenido <@4> a Plantas. \nDisfruta");
}
