use plantita_ayudante::messages::{audio_attachment_urls, audio_download_path, deleted_message_logged, Attachment, MessageProcessor, MessageState};

#[test]
fn processor_runs_every_check_in_order() {
    let p = MessageProcessor::new();
    assert!(p.states == vec![
        MessageState::Attachment,
        MessageState::ForbiddenMention,
        MessageState::Everyone,
        MessageState::Spam,
        MessageState::Logger,
    ]);
    let plan = p.process(false, "hola");
    assert!(!plan.react);
    assert_eq!(plan.steps.len(), 5);
    let plan = p.process(false, "<:HojaYo:1082385549450563584>");
    assert!(plan.react);
    let plan = p.process(true, "<:HojaYo:1082385549450563584>");
    assert!(!plan.react && plan.steps.is_empty());
}

#[test]
fn audio_attachments_only() {
    let atts = vec![
        Attachment { content_type: Some("audio/ogg".to_string()), url: "https://cdn/a.ogg".to_string() },
        Attachment { content_type: Some("image/png".to_string()), url: "https://cdn/b.png".to_string() },
        Attachment { content_type: None, url: "https://cdn/c".to_string() },
        Attachment { content_type: Some("audi".to_string()), url: "https://cdn/d".to_string() },
    ];
    assert_eq!(audio_attachment_urls(&atts), vec!["https://cdn/a.ogg".to_string()]);
}

#[test]
fn deleted_messages() {
    assert!(deleted_message_logged("hola", 1, 2));
    assert!(!deleted_message_logged("", 1, 2));
    assert!(!deleted_message_logged("hola", 2, 2));
    assert_eq!(audio_download_path("https://cdn.discordapp.com/x/voice-message.ogg"), "/tmp/voice-message.ogg");
    assert_eq!(audio_download_path("sin-barra"), "/tmp/sin-barra");
    assert_eq!(audio_download_path("termina/"), "/tmp/");
}
