use plantita_ayudante::ranking::{ranking_description, ranking_title, top_users, AuthoredMessage};

fn m(author: u64, text: &str) -> AuthoredMessage {
    AuthoredMessage { author_id: author, content: text.to_string() }
}

#[test]
fn top_counts_messages_with_the_word() {
    let msgs = vec![m(1, "hola mundo"), m(2, "hola"), m(1, "adios"), m(1, "hola hola"), m(3, "nada")];
    let r = top_users(&msgs, "hola");
    assert_eq!(r, vec![(1, 2), (2, 1)]);
}

#[test]
fn top_keeps_ten_highest() {
    let mut msgs = Vec::new();
    for user in 1..=12u64 {
        for _ in 0..user {
            msgs.push(m(user, "palabra"));
        }
    }
    let r = top_users(&msgs, "palabra");
    assert_eq!(r.len(), 10);
    assert_eq!(r[0], (12, 12));
    assert_eq!(r[9], (3, 3));
    for w in r.windows(2) {
        assert!(w[0].1 >= w[1].1);
    }
}

#[test]
fn top_of_nothing_is_empty() {
    assert!(top_users(&vec![m(1, "x")], "y").is_empty());
    assert!(top_users(&Vec::new(), "y").is_empty());
}

#[test]
fn ranking_texts() {
    assert_eq!(ranking_description(&vec![(5, 3), (7, 1)]), "- <@5>: 3\n- <@7>: 1");
    assert_eq!(ranking_description(&vec![]), "");
    assert_eq!(ranking_title("hola"), "Top Usuarios que usaron la palabra \"hola\"");
}
