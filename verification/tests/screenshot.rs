use plantita_ayudante::screenshot::{author_label, display_name, mentioned_user_id, quote_content, replace_mention, screenshot_target, ScreenshotTarget};

#[test]
fn targets() {
    assert!(matches!(screenshot_target("hola", &None), ScreenshotTarget::Here));
    assert!(matches!(screenshot_target("hola", &Some("ooc".to_string())), ScreenshotTarget::OutOfContext));
    assert!(matches!(screenshot_target("hola", &Some("otro".to_string())), ScreenshotTarget::InvalidChannel));
    let long = "a".repeat(73);
    assert!(matches!(screenshot_target(&long, &None), ScreenshotTarget::TooLong));
    // 36 two-byte characters are 72 bytes: still allowed.
    let accents = "é".repeat(36);
    assert!(matches!(screenshot_target(&accents, &None), ScreenshotTarget::Here));
    let accents = "é".repeat(37);
    assert!(matches!(screenshot_target(&accents, &None), ScreenshotTarget::TooLong));
}

#[test]
fn names_and_quotes() {
    assert_eq!(display_name(Some("Nick".into()), Some("Global".into()), "user".into()), "Nick");
    assert_eq!(display_name(None, Some("Global".into()), "user".into()), "Global");
    assert_eq!(display_name(None, None, "user".into()), "user");
    assert_eq!(quote_content("hola"), "\"hola\"");
    assert_eq!(author_label("Ana"), "- Ana");
}

#[test]
fn mentions() {
    assert_eq!(mentioned_user_id("hola <@123> que tal"), Some(123));
    assert_eq!(mentioned_user_id("<@12"), Some(12));
    assert_eq!(mentioned_user_id("a <@x> b"), None);
    assert_eq!(mentioned_user_id("<@5<@6>"), Some(5));
    assert_eq!(replace_mention("\"hola <@123> y <@123>\"", 123, "Ana"), "\"hola @Ana y @Ana\"");
}
