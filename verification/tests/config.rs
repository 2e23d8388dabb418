use plantita_ayudante::config::{
    joke_status_text, timeout_label, timeout_reply, timeout_seconds, AdminData, BlackListData, BlacklistOutcome,
    ConfigError, ForbiddenRoleData, ForbiddenUserData, GuildData, Joke, JokeChannelData, OocChannel, SetTimeoutTimer,
    TimeOutMessageData, WarnMessageData, WelcomeChannelData, WelcomeMessageData,
};

#[test]
fn admin_roles_are_stored_in_decimal_and_read_back() {
    let d = AdminData::new(Some(1_020_156_814_152_712_222), None, 1_014_327_651_772_674_168);
    assert_eq!(d.role_id.as_deref(), Some("1020156814152712222"));
    assert_eq!(d.role_2_id, None);
    assert_eq!(d.guild_id, "1014327651772674168");
    assert_eq!(AdminData::get_admin_role(Some(d)), Some("1020156814152712222".to_string()));
    let d2 = AdminData { role_id: Some("007".to_string()), role_2_id: Some("1196523947177545858".to_string()), guild_id: "1".to_string() };
    assert_eq!(AdminData::get_admin_role(Some(AdminData { role_id: d2.role_id.clone(), role_2_id: None, guild_id: "1".to_string() })), Some("7".to_string()));
    assert_eq!(AdminData::get_admin_role_2(Some(d2)), Some("1196523947177545858".to_string()));
    assert_eq!(AdminData::get_admin_role(None), None);
    assert_eq!(AdminData::get_admin_role_2(Some(AdminData { role_id: None, role_2_id: None, guild_id: String::new() })), None);
}

#[test]
fn forbidden_ids_read_back() {
    let u = ForbiddenUserData::new(702_527_748_568_121_455, 1_014_327_651_772_674_168);
    assert_eq!(u.user_id, "702527748568121455");
    assert_eq!(ForbiddenUserData::get_forbidden_user_id(Some(u)), Some(702_527_748_568_121_455));
    let bad = ForbiddenUserData { user_id: "x".to_string(), guild_id: String::new() };
    assert_eq!(ForbiddenUserData::get_forbidden_user_id(Some(bad)), Some(0));
    assert_eq!(ForbiddenUserData::get_forbidden_user_id(None), None);
    let r = ForbiddenRoleData::new(1_210_266_785_061_019_658, 3);
    assert_eq!(r.role_id, "1210266785061019658");
    assert_eq!(ForbiddenRoleData::get_role_id(Some(r)), Some(1_210_266_785_061_019_658));
}

#[test]
fn timeout_choices() {
    for (label, secs) in [("5 Minutos", 300), ("30 Minutos", 1800), ("60 Minutos", 3600), ("1 Semana", 604_800), ("otro", 60)] {
        assert_eq!(timeout_seconds(label), secs);
    }
    for label in ["5 Minutos", "30 Minutos", "60 Minutos", "1 Semana"] {
        assert_eq!(timeout_label(timeout_seconds(label)), label);
    }
    assert_eq!(timeout_label(timeout_seconds("2 Horas")), "1 Minuto");
    assert_eq!(timeout_reply(false, 300), "El tiempo de timeout se ha establecido a 5 Minutos");
    assert_eq!(timeout_reply(true, 60), "El tiempo de timeout se ha actualizado a 1 Minuto");
    let t = SetTimeoutTimer::new(1800, 9);
    assert_eq!(SetTimeoutTimer::get_time_out_timer(Some(t)), Some(1800));
}

#[test]
fn joke_switch_and_reads() {
    let mut j = Joke::new("983473640387518504".to_string(), false, "1076623900697448478".to_string());
    j.switch(true);
    assert!(j.is_active);
    assert_eq!(j.guild_id, "983473640387518504");
    assert!(matches!(Joke::get_joke_target_id(Some(Joke::new(String::new(), true, "1076623900697448478".to_string()))), Ok(1_076_623_900_697_448_478)));
    assert!(matches!(Joke::get_joke_target_id(Some(Joke::new(String::new(), true, "abc".to_string()))), Err(ConfigError::InvalidId)));
    assert!(matches!(Joke::get_joke_target_id(None), Err(ConfigError::NotFound)));
    assert!(matches!(Joke::get_joke_status(Some(Joke::new(String::new(), true, String::new()))), Ok(true)));
    assert!(matches!(Joke::get_joke_status(None), Err(ConfigError::NotFound)));
    assert_eq!(joke_status_text(true), "habilitado");
    assert_eq!(joke_status_text(false), "deshabilitado");
}

#[test]
fn channel_records() {
    let j = JokeChannelData::new(11, 22);
    assert_eq!((j.channel_id.as_str(), j.guild_id.as_str()), ("11", "22"));
    let o = OocChannel::new(33, 44);
    assert_eq!((o.channel_id.as_str(), o.guild_id.as_str()), ("33", "44"));
    let w = WelcomeChannelData::new(55, 66);
    assert_eq!((w.guild_id.as_str(), w.channel_id.as_str()), ("55", "66"));
    assert!(matches!(WelcomeChannelData::get_welcome_channel(Some(w)), Ok(ref c) if c == "66"));
    assert!(matches!(WelcomeChannelData::get_welcome_channel(None), Err(ConfigError::NotFound)));
    let m = WelcomeMessageData::new(77, "Hola".to_string());
    assert_eq!((m.guild_id.as_str(), m.message.as_str()), ("77", "Hola"));
    let g = GuildData::new(1, 2);
    assert_eq!((g.guild_id, g.log_channel_id), (1, 2));
}

#[test]
fn message_records() {
    let w = WarnMessageData::new(1, "aviso".to_string());
    assert_eq!(WarnMessageData::get_warn_message(Some(w)), Some("aviso".to_string()));
    assert_eq!(WarnMessageData::get_warn_message(None), None);
    let t = TimeOutMessageData::new(1, "fuera".to_string());
    assert_eq!(TimeOutMessageData::get_time_out_message(Some(t)), Some("fuera".to_string()));
}

#[test]
fn blacklist_decisions() {
    assert!(matches!(BlackListData::add_outcome("example.com", false), BlacklistOutcome::InvalidLink));
    assert!(matches!(BlackListData::add_outcome("www.example.com", false), BlacklistOutcome::Added));
    assert!(matches!(BlackListData::add_outcome("https://example.com", true), BlacklistOutcome::AlreadyListed));
    let b = BlackListData::new(&"https://x.y".to_string(), 3);
    assert_eq!(BlackListData::get_blacklist_link(Some(b)), Some("https://x.y".to_string()));
}
