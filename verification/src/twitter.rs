//! Announcing new tweets: for each server that follows a Twitter account, the
//! latest tweet is announced once, with a link that embeds well in Discord.

use vstd::prelude::*;
use crate::text::{replace_all, replace_str, str_eq, trim_end_char, trim_matches, trim_start_char, trim_start_matches};

verus! {

/// The key under which the last announced tweet is remembered: the account
/// and the server, `user:server`.
pub fn tweet_key(twitter_user: &str, guild_id: &str) -> (s: String)
    ensures
        s@ == twitter_user@ + ":"@ + guild_id@,
{
    let mut s = twitter_user.to_owned();
    s.append(":");
    s.append(guild_id);
    s
}

/// The search that finds the account's tweets: `from:` and the account
/// without its leading `@`s.
pub fn tweet_search_query(twitter_user: &str) -> (s: String)
    ensures
        s@ == "from:"@ + trim_start_char(twitter_user@, '@'),
{
    let mut s = "from:".to_owned();
    let u = trim_start_matches(twitter_user, '@');
    s.append(u.as_str());
    s
}

/// The link that is posted for a tweet: its permanent address with
/// `twitter.com` replaced by `vxtwitter.com`, or, when there is none, one
/// built from the account and the tweet id.
pub open spec fn spec_tweet_url(twitter_user: Seq<char>, tweet_id: Seq<char>, permanent_url: Option<Seq<char>>) -> Seq<char> {
    match permanent_url {
        Some(u) => replace_all(u, "twitter.com"@, "vxtwitter.com"@),
        None => "https://vxtwitter.com/"@ + trim_start_char(twitter_user, '@') + "/status/"@ + tweet_id,
    }
}

/// Builds the link that is posted for a tweet.
pub fn tweet_url(twitter_user: &str, tweet_id: &str, permanent_url: Option<String>) -> (s: String)
    ensures
        s@ == spec_tweet_url(twitter_user@, tweet_id@, match permanent_url {
            Some(u) => Some(u@),
            None => None,
        }),
{
    match permanent_url {
        Some(u) => {
            proof {
                reveal_strlit("twitter.com");
            }
            replace_str(u.as_str(), "twitter.com", "vxtwitter.com")
        },
        None => {
            let mut s = "https://vxtwitter.com/".to_owned();
            let user = trim_start_matches(twitter_user, '@');
            s.append(user.as_str());
            s.append("/status/");
            s.append(tweet_id);
            s
        },
    }
}

/// The announcement posted in the server's channel.
pub fn tweet_announcement(twitter_user: &str, url: &str) -> (s: String)
    ensures
        s@ == "Nuevo Tweet de "@ + trim_end_char(trim_start_char(twitter_user@, '@'), '@') + ": "@ + url@,
{
    let mut s = "Nuevo Tweet de ".to_owned();
    let u = trim_matches(twitter_user, '@');
    s.append(u.as_str());
    s.append(": ");
    s.append(url);
    s
}

/// The last announced tweet per key, as (key, tweet id) pairs.
pub struct TweetTracker {
    pub last: Vec<(String, String)>,
}

/// The last tweet id remembered under `key` (empty when none).
pub open spec fn last_id(last: Seq<(String, String)>, key: Seq<char>) -> Seq<char>
    decreases last.len(),
{
    if last.len() == 0 {
        Seq::empty()
    } else if last.last().0@ == key {
        last.last().1@
    } else {
        last_id(last.drop_last(), key)
    }
}

proof fn lemma_last_id_update(last: Seq<(String, String)>, i: int, key: Seq<char>, k2: Seq<char>, v: String)
    requires
        0 <= i < last.len(),
        last[i].0@ == key,
        forall|j: int| 0 <= j < last.len() && j != i ==> last[j].0@ != key,
    ensures
        last_id(last.update(i, (last[i].0, v)), k2) == if k2 == key { v@ } else { last_id(last, k2) },
    decreases last.len(),
{
    let u = last.update(i, (last[i].0, v));
    if i == last.len() - 1 {
        assert(u.drop_last() =~= last.drop_last());
    } else {
        assert(u.drop_last() =~= last.drop_last().update(i, (last[i].0, v)));
        lemma_last_id_update(last.drop_last(), i, key, k2, v);
    }
}

proof fn lemma_last_id_absent(last: Seq<(String, String)>, key: Seq<char>)
    requires
        forall|j: int| 0 <= j < last.len() ==> last[j].0@ != key,
    ensures
        last_id(last, key) == Seq::<char>::empty(),
    decreases last.len(),
{
    if last.len() > 0 {
        lemma_last_id_absent(last.drop_last(), key);
    }
}

proof fn lemma_last_id_push(last: Seq<(String, String)>, key: String, v: String, k2: Seq<char>)
    ensures
        last_id(last.push((key, v)), k2) == if k2 == key@ { v@ } else { last_id(last, k2) },
{
    assert(last.push((key, v)).drop_last() =~= last);
}

/// The remembered ids as a map from every key to its last tweet id (empty
/// when nothing is remembered under the key).
impl View for TweetTracker {
    type V = Map<Seq<char>, Seq<char>>;

    open spec fn view(&self) -> Map<Seq<char>, Seq<char>> {
        Map::new(|k: Seq<char>| true, |k: Seq<char>| last_id(self.last@, k))
    }
}

/// What seeing tweet `id` under `key` does to the remembered ids `m`: `id`
/// becomes the one remembered under `key`, and the tweet is new exactly when
/// it differs from the one remembered before.
pub open spec fn spec_observe(m: Map<Seq<char>, Seq<char>>, key: Seq<char>, id: Seq<char>) -> (Map<Seq<char>, Seq<char>>, bool) {
    (m.insert(key, id), id != m[key])
}

impl TweetTracker {
    /// No tweet announced yet.
    pub fn new() -> (t: TweetTracker)
        ensures
            t.last@.len() == 0,
    {
        TweetTracker { last: Vec::new() }
    }

    /// The last tweet id remembered under `key`.
    pub open spec fn spec_last(&self, key: Seq<char>) -> Seq<char> {
        last_id(self.last@, key)
    }

    /// Each key is remembered once.
    pub open spec fn wf(&self) -> bool {
        forall|a: int, b: int| 0 <= a < b < self.last@.len() ==> self.last@[a].0@ != self.last@[b].0@
    }

    /// Sees the latest tweet of a key: it is new when it differs from the one
    /// remembered (an empty id is remembered at first), and then it becomes
    /// the remembered one.
    pub fn observe(&mut self, key: &str, current_id: &str) -> (is_new: bool)
        requires
            old(self).wf(),
        ensures
            final(self).wf(),
            is_new == (current_id@ != old(self).spec_last(key@)),
            forall|k: Seq<char>| #[trigger] final(self).spec_last(k) == if k == key@ { current_id@ } else { old(self).spec_last(k) },
            final(self)@ == spec_observe(old(self)@, key@, current_id@).0,
            is_new == spec_observe(old(self)@, key@, current_id@).1,
    {
        let mut i: usize = 0;
        while i < self.last.len()
            invariant
                i <= self.last.len(),
                self.last@ == old(self).last@,
                old(self).wf(),
                forall|j: int| 0 <= j < i ==> self.last@[j].0@ != key@,
            decreases self.last.len() - i,
        {
            if str_eq(self.last[i].0.as_str(), key) {
                let is_new = !str_eq(self.last[i].1.as_str(), current_id);
                let ghost old_last = self.last@;
                proof {
                    assert forall|j: int| 0 <= j < old_last.len() && j != i implies old_last[j].0@ != key@ by {
                        if j > i {
                            assert(old_last[i as int].0@ != old_last[j].0@);
                        }
                    }
                }
                let k = self.last[i].0.clone();
                let new_v = current_id.to_owned();
                self.last.set(i, (k, new_v));
                proof {
                    assert(self.last@ == old_last.update(i as int, (old_last[i as int].0, new_v)));
                    assert forall|k2: Seq<char>| #[trigger] last_id(self.last@, k2) == if k2 == key@ { current_id@ } else { last_id(old_last, k2) } by {
                        lemma_last_id_update(old_last, i as int, key@, k2, new_v);
                    }
                    assert(is_new == (current_id@ != last_id(old_last, key@))) by {
                        lemma_last_id_update(old_last, i as int, key@, key@, old_last[i as int].1);
                        assert(old_last.update(i as int, (old_last[i as int].0, old_last[i as int].1)) =~= old_last);
                    }
                    assert forall|a: int, b: int| 0 <= a < b < self.last@.len() implies self.last@[a].0@ != self.last@[b].0@ by {
                        assert(self.last@[a].0 == old_last[a].0);
                        assert(self.last@[b].0 == old_last[b].0);
                    }
                }
                return is_new;
            }
            i = i + 1;
        }
        let ghost old_last = self.last@;
        proof {
            lemma_last_id_absent(old_last, key@);
            reveal_strlit("");
        }
        let is_new = !(current_id.unicode_len() == 0);
        let new_k = key.to_owned();
        let new_v = current_id.to_owned();
        self.last.push((new_k, new_v));
        proof {
            assert forall|k2: Seq<char>| #[trigger] last_id(self.last@, k2) == if k2 == key@ { current_id@ } else { last_id(old_last, k2) } by {
                lemma_last_id_push(old_last, new_k, new_v, k2);
            }
            assert forall|a: int, b: int| 0 <= a < b < self.last@.len() implies self.last@[a].0@ != self.last@[b].0@ by {
                if b == old_last.len() {
                    assert(self.last@[a] == old_last[a]);
                } else {
                    assert(self.last@[a] == old_last[a]);
                    assert(self.last@[b] == old_last[b]);
                }
            }
            if current_id@.len() == 0 {
                assert(current_id@ =~= Seq::<char>::empty());
            }
        }
        is_new
    }
}

/// A tweet is announced once: after seeing tweet `id` under `key`, seeing it
/// again under that key is not new and changes nothing, and seeing it left
/// every other key as it was.
pub proof fn lemma_tweet_announced_once(m: Map<Seq<char>, Seq<char>>, key: Seq<char>, id: Seq<char>)
    ensures
        ({
            let (m1, first) = spec_observe(m, key, id);
            let (m2, again) = spec_observe(m1, key, id);
            &&& first == (id != m[key])
            &&& !again
            &&& m2 == m1
            &&& forall|k: Seq<char>| k != key ==> #[trigger] m1[k] == m[k]
        }),
{
    let m1 = m.insert(key, id);
    assert(m1.insert(key, id) =~= m1);
}

} // verus!
