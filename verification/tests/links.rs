use plantita_ayudante::links::{extract_link, record_message, spam_copies, spam_report, ChannelMessage, MessageTracker};

#[test]
fn a_extract_link() {
    let text = "este es un enlace malicioso a https://www.google.com que debería ser detectado";
    let result = extract_link(text);
    assert_eq!(result, Some("https://www.google.com".to_string()));
}

#[test]
fn extract_link_none_without_scheme() {
    assert_eq!(extract_link("visita www.google.com hoy"), None);
    assert_eq!(extract_link("solo https:// y nada"), None);
    assert_eq!(extract_link(""), None);
}

#[test]
fn extract_link_takes_first_and_stops_at_whitespace() {
    assert_eq!(
        extract_link("a http://uno.com/x?y=1\tb https://dos.com"),
        Some("http://uno.com/x?y=1".to_string())
    );
    // Unicode whitespace (no-break space) ends the link too.
    assert_eq!(extract_link("ver https://a.b\u{a0}fin"), Some("https://a.b".to_string()));
    assert_eq!(extract_link("xhttps://pegado"), Some("https://pegado".to_string()));
}

fn record(trackers: Vec<MessageTracker>, channel: u64, now: i64) -> plantita_ayudante::links::SpamOutcome {
    record_message(trackers, 7, &"https://spam.example".to_string(), channel, now)
}

#[test]
fn spam_in_three_channels_is_detected() {
    let o1 = record(Vec::new(), 1, 10);
    assert!(o1.created);
    assert_eq!(o1.index, 0);
    assert!(o1.spam_channels.is_none());
    let o2 = record(o1.trackers, 2, 11);
    assert!(!o2.created);
    assert!(o2.spam_channels.is_none());
    assert_eq!(o2.trackers[0].channel_ids, vec![1, 2]);
    assert_eq!(o2.trackers[0].last_message_time, 11);
    let o3 = record(o2.trackers, 3, 12);
    assert_eq!(o3.spam_channels, Some(vec![1, 2, 3]));
}

#[test]
fn same_channel_repeated_is_not_spam() {
    let mut ts = Vec::new();
    for t in 0..5 {
        let o = record(ts, 4, t);
        assert!(o.spam_channels.is_none());
        ts = o.trackers;
    }
    assert_eq!(ts.len(), 1);
    assert_eq!(ts[0].channel_ids, vec![4]);
    assert_eq!(ts[0].last_message_time, 4);
}

#[test]
fn different_text_gets_its_own_tracker() {
    let o1 = record(Vec::new(), 1, 0);
    let o2 = record_message(o1.trackers, 7, &"otro texto".to_string(), 2, 1);
    assert!(o2.created);
    assert_eq!(o2.index, 1);
    assert_eq!(o2.trackers.len(), 2);
}

#[test]
fn spam_copies_filters_author_and_text() {
    let msgs = vec![
        ChannelMessage { id: 1, author_id: 7, content: "x".to_string() },
        ChannelMessage { id: 2, author_id: 8, content: "x".to_string() },
        ChannelMessage { id: 3, author_id: 7, content: "y".to_string() },
        ChannelMessage { id: 4, author_id: 7, content: "x".to_string() },
    ];
    assert_eq!(spam_copies(&msgs, 7, &"x".to_string()), vec![1, 4]);
}

#[test]
fn spam_report_text() {
    assert_eq!(
        spam_report(42, "hola"),
        "El usuario <@42> fue detectado enviando spam.\nMensaje: hola"
    );
}
