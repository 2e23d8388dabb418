use plantita_ayudante::twitter::{tweet_announcement, tweet_key, tweet_search_query, tweet_url, TweetTracker};

#[test]
fn tweet_texts() {
    assert_eq!(tweet_key("@meica", "123"), "@meica:123");
    assert_eq!(tweet_search_query("@@meica"), "from:meica");
    assert_eq!(
        tweet_url("@meica", "99", Some("https://twitter.com/meica/status/99".to_string())),
        "https://vxtwitter.com/meica/status/99"
    );
    assert_eq!(tweet_url("@meica", "99", None), "https://vxtwitter.com/meica/status/99");
    assert_eq!(tweet_announcement("@meica@", "u"), "Nuevo Tweet de meica: u");
}

#[test]
fn tweets_are_announced_once() {
    let mut t = TweetTracker::new();
    assert!(t.observe("a:1", "10"));
    assert!(!t.observe("a:1", "10"));
    assert!(t.observe("b:1", "10"));
    assert!(t.observe("a:1", "11"));
    assert!(!t.observe("a:1", "11"));
    assert!(!t.observe("c:1", ""));
}
