//! Link detection and the cross-channel spam tracker.
//!
//! A message that holds a link is tracked per author and per text: the
//! channels it was posted in are collected, and the same text reaching three
//! different channels is treated as spam.

use vstd::prelude::*;
use crate::text::{decimal, is_white_space, occurs_at, u64_to_string};
use regex::Regex;

verus! {

/// Length of the URL scheme (`https://` or `http://`) that starts at `i`, or 0.
pub open spec fn scheme_len(t: Seq<char>, i: int) -> int {
    if occurs_at(t, "https://"@, i) {
        8
    } else if occurs_at(t, "http://"@, i) {
        7
    } else {
        0
    }
}

/// A link `https?://\S+` can start at `i`: a scheme followed by at least one
/// non-whitespace character.
pub open spec fn link_at(t: Seq<char>, i: int) -> bool {
    scheme_len(t, i) > 0 && i + scheme_len(t, i) < t.len() && !is_white_space(t[i + scheme_len(t, i)])
}

/// End of the run of non-whitespace characters that starts at `k`.
pub open spec fn run_end(t: Seq<char>, k: int) -> int
    decreases t.len() - k,
{
    if 0 <= k < t.len() && !is_white_space(t[k]) {
        run_end(t, k + 1)
    } else {
        k
    }
}

/// The first position at or after `i` where a link starts.
pub open spec fn first_link_from(t: Seq<char>, i: int) -> Option<int>
    decreases t.len() - i,
{
    if i < 0 || i >= t.len() {
        None
    } else if link_at(t, i) {
        Some(i)
    } else {
        first_link_from(t, i + 1)
    }
}

/// The leftmost, longest match of `https?://\S+` in `t`.
pub open spec fn spec_extract_link(t: Seq<char>) -> Option<Seq<char>> {
    match first_link_from(t, 0) {
        Some(i) => Some(t.subrange(i, run_end(t, i + scheme_len(t, i)))),
        None => None,
    }
}

/// `Regex::find` with the pattern `(https?://\S+)`: the regex crate returns the
/// leftmost-first match, where `s?` and `\S+` are greedy and `\S` is any
/// character outside Unicode `White_Space`; that match is `spec_extract_link`.
#[verifier::external_body]
fn regex_find_link(text: &str) -> (r: Option<String>)
    ensures
        match r {
            Some(s) => spec_extract_link(text@) == Some(s@),
            None => spec_extract_link(text@) is None,
        },
{
    Regex::new(r"(https?://\S+)").ok()?.find(text).map(|m| m.as_str().to_string())
}

/// The first link (`http://` or `https://` followed by non-whitespace) in a
/// message, if there is one.
pub fn extract_link(text: &str) -> (r: Option<String>)
    ensures
        match r {
            Some(s) => spec_extract_link(text@) == Some(s@),
            None => spec_extract_link(text@) is None,
        },
{
    regex_find_link(text)
}


/// One tracked text of an author: the channels it has been posted in, and when
/// it was last seen (milliseconds since the Unix epoch).
pub struct MessageTracker {
    pub author_id: u64,
    pub message_content: String,
    pub channel_ids: Vec<u64>,
    pub last_message_time: i64,
}

/// Mathematical view of a `MessageTracker`.
pub struct TrackerView {
    pub author_id: u64,
    pub message_content: Seq<char>,
    pub channel_ids: Seq<u64>,
    pub last_message_time: i64,
}

impl View for MessageTracker {
    type V = TrackerView;

    open spec fn view(&self) -> TrackerView {
        TrackerView {
            author_id: self.author_id,
            message_content: self.message_content@,
            channel_ids: self.channel_ids@,
            last_message_time: self.last_message_time,
        }
    }
}

/// The views of a list of trackers.
pub open spec fn trackers_view(ts: Seq<MessageTracker>) -> Seq<TrackerView> {
    ts.map_values(|t: MessageTracker| t@)
}

/// Index of the first tracker whose text is `content`.
pub open spec fn find_tracker(ts: Seq<TrackerView>, content: Seq<char>) -> Option<int>
    decreases ts.len(),
{
    if ts.len() == 0 {
        None
    } else {
        match find_tracker(ts.drop_last(), content) {
            Some(i) => Some(i),
            None => if ts.last().message_content == content { Some(ts.len() - 1) } else { None },
        }
    }
}

/// A tracker after its text was seen again in `channel_id` at `now`: the
/// channel is added unless already listed, and the time is refreshed.
pub open spec fn touch(t: TrackerView, channel_id: u64, now: i64) -> TrackerView {
    TrackerView {
        channel_ids: if t.channel_ids.contains(channel_id) { t.channel_ids } else { t.channel_ids.push(channel_id) },
        last_message_time: now,
        ..t
    }
}

/// Spam is detected once some tracked text reached three channels.
pub open spec fn spam_detected(ts: Seq<TrackerView>) -> bool {
    exists|i: int| 0 <= i < ts.len() && #[trigger] ts[i].channel_ids.len() >= 3
}

/// What `record_message` decided.
pub struct SpamOutcome {
    /// The author's trackers after this message.
    pub trackers: Vec<MessageTracker>,
    /// A new tracker was started (to be inserted), rather than an existing one updated.
    pub created: bool,
    /// The tracker that was started or updated.
    pub index: usize,
    /// When spam was detected: the channels whose copies of the text are deleted.
    pub spam_channels: Option<Vec<u64>>,
}

/// The outcome of one linked message, as a function of the author's trackers.
pub open spec fn spec_record_message(
    ts: Seq<TrackerView>,
    author_id: u64,
    content: Seq<char>,
    channel_id: u64,
    now: i64,
) -> (Seq<TrackerView>, bool, int, Option<Seq<u64>>) {
    match find_tracker(ts, content) {
        None => (
            ts.push(TrackerView { author_id, message_content: content, channel_ids: seq![channel_id], last_message_time: now }),
            true,
            ts.len() as int,
            None,
        ),
        Some(i) => {
            let ts2 = ts.update(i, touch(ts[i], channel_id, now));
            (ts2, false, i, if spam_detected(ts2) { Some(ts2.last().channel_ids) } else { None })
        },
    }
}

proof fn lemma_find_tracker_bounds(ts: Seq<TrackerView>, content: Seq<char>)
    ensures
        match find_tracker(ts, content) {
            Some(i) => 0 <= i < ts.len() && ts[i].message_content == content
                && forall|j: int| 0 <= j < i ==> ts[j].message_content != content,
            None => forall|j: int| 0 <= j < ts.len() ==> ts[j].message_content != content,
        },
    decreases ts.len(),
{
    if ts.len() > 0 {
        let p = ts.drop_last();
        lemma_find_tracker_bounds(p, content);
        assert(forall|j: int| 0 <= j < p.len() ==> p[j] == ts[j]);
    }
}

proof fn lemma_find_tracker_first(ts: Seq<TrackerView>, content: Seq<char>, i: int)
    requires
        0 <= i < ts.len(),
        ts[i].message_content == content,
        forall|j: int| 0 <= j < i ==> ts[j].message_content != content,
    ensures
        find_tracker(ts, content) == Some(i),
{
    lemma_find_tracker_bounds(ts, content);
    match find_tracker(ts, content) {
        Some(k) => {
            if k < i {
            } else if k > i {
            }
        },
        None => {},
    }
}

fn copy_channels(v: &Vec<u64>) -> (r: Vec<u64>)
    ensures
        r@ == v@,
{
    let mut r: Vec<u64> = Vec::new();
    let mut i: usize = 0;
    while i < v.len()
        invariant
            i <= v.len(),
            r@ == v@.subrange(0, i as int),
        decreases v.len() - i,
    {
        r.push(v[i]);
        i = i + 1;
    }
    r
}

fn contains_id(v: &Vec<u64>, x: u64) -> (b: bool)
    ensures
        b == v@.contains(x),
{
    let mut i: usize = 0;
    while i < v.len()
        invariant
            i <= v.len(),
            forall|j: int| 0 <= j < i ==> v@[j] != x,
        decreases v.len() - i,
    {
        if v[i] == x {
            return true;
        }
        i = i + 1;
    }
    false
}

fn find_index(trackers: &Vec<MessageTracker>, content: &String) -> (r: Option<usize>)
    ensures
        match r {
            Some(i) => i < trackers.len() && trackers@[i as int].message_content@ == content@
                && forall|j: int| 0 <= j < i ==> trackers@[j].message_content@ != content@,
            None => forall|j: int| 0 <= j < trackers.len() ==> trackers@[j].message_content@ != content@,
        },
{
    let mut i: usize = 0;
    while i < trackers.len()
        invariant
            i <= trackers.len(),
            forall|j: int| 0 <= j < i ==> trackers@[j].message_content@ != content@,
        decreases trackers.len() - i,
    {
        if trackers[i].message_content == *content {
            return Some(i);
        }
        i = i + 1;
    }
    None
}

/// Records one message that holds a link: the author's trackers are searched
/// for the same text; a new tracker is started if there is none, otherwise the
/// first match gains the channel and the time. Spam is reported when, after
/// an update, some tracker lists three channels or more; the channels to clean
/// are those of the last tracker in the list.
pub fn record_message(
    trackers: Vec<MessageTracker>,
    author_id: u64,
    content: &String,
    channel_id: u64,
    now: i64,
) -> (r: SpamOutcome)
    ensures
        ({
            let (ts2, created, index, spam) = spec_record_message(trackers_view(trackers@), author_id, content@, channel_id, now);
            &&& trackers_view(r.trackers@) == ts2
            &&& r.created == created
            &&& r.index as int == index
            &&& match r.spam_channels {
                Some(v) => spam == Some(v@),
                None => spam is None,
            }
        }),
{
    let ghost tv = trackers_view(trackers@);
    let mut trackers = trackers;
    let n = trackers.len();
    let found = find_index(&trackers, content);
    proof {
        lemma_find_tracker_bounds(tv, content@);
        match found {
            Some(i) => lemma_find_tracker_first(tv, content@, i as int),
            None => {
                assert(find_tracker(tv, content@) is None);
            },
        }
    }
    let i = match found {
        Some(i) => i,
        None => n,
    };
    if i == n {
        let tracker = MessageTracker {
            author_id,
            message_content: content.clone(),
            channel_ids: vec![channel_id],
            last_message_time: now,
        };
        trackers.push(tracker);
        proof {
            assert(trackers_view(trackers@) =~= tv.push(tracker@));
            assert(tracker@.channel_ids =~= seq![channel_id]);
            assert(tv.len() == n);
            assert(tracker@ == TrackerView { author_id, message_content: content@, channel_ids: seq![channel_id], last_message_time: now });
        }
        return SpamOutcome { trackers, created: true, index: n, spam_channels: None };
    }
    let mut t = trackers.remove(i);
    t.last_message_time = now;
    if !contains_id(&t.channel_ids, channel_id) {
        t.channel_ids.push(channel_id);
    }
    trackers.insert(i, t);
    let ghost ts2 = trackers_view(trackers@);
    proof {
        assert(ts2 =~= tv.update(i as int, touch(tv[i as int], channel_id, now)));
    }
    let mut k: usize = 0;
    let mut spam = false;
    while k < n
        invariant
            n == trackers.len(),
            ts2 == trackers_view(trackers@),
            k <= n,
            spam == exists|j: int| 0 <= j < k && #[trigger] ts2[j].channel_ids.len() >= 3,
        decreases n - k,
    {
        let c = trackers[k].channel_ids.len() >= 3;
        proof {
            assert(ts2[k as int] == trackers@[k as int]@);
            if c {
                assert(ts2[k as int].channel_ids.len() >= 3);
            }
            if !c && !spam {
                assert forall|j: int| 0 <= j < k + 1 implies !(#[trigger] ts2[j].channel_ids.len() >= 3) by {
                    if j == k {
                    }
                }
            }
        }
        spam = spam || c;
        k = k + 1;
    }
    let spam_channels = if spam {
        Some(copy_channels(&trackers[n - 1].channel_ids))
    } else {
        None
    };
    SpamOutcome { trackers, created: false, index: i, spam_channels }
}


/// The trackers' channel lists hold no channel twice.
pub open spec fn channels_distinct(ts: Seq<TrackerView>) -> bool {
    forall|i: int| 0 <= i < ts.len() ==> (#[trigger] ts[i]).channel_ids.no_duplicates()
}

/// Recording a message never lists a channel twice in a tracker.
pub proof fn lemma_record_keeps_channels_distinct(
    ts: Seq<TrackerView>,
    author_id: u64,
    content: Seq<char>,
    channel_id: u64,
    now: i64,
)
    requires
        channels_distinct(ts),
    ensures
        channels_distinct(spec_record_message(ts, author_id, content, channel_id, now).0),
{
    lemma_find_tracker_bounds(ts, content);
    let r = spec_record_message(ts, author_id, content, channel_id, now).0;
    match find_tracker(ts, content) {
        None => {
            assert(seq![channel_id].no_duplicates());
            assert forall|i: int| 0 <= i < r.len() implies (#[trigger] r[i]).channel_ids.no_duplicates() by {
                if i < ts.len() {
                    assert(r[i] == ts[i]);
                }
            }
        },
        Some(k) => {
            let c = ts[k].channel_ids;
            if !c.contains(channel_id) {
                let c2 = c.push(channel_id);
                assert forall|a: int, b: int| 0 <= a < b < c2.len() implies c2[a] != c2[b] by {
                    if b == c.len() {
                        assert(c[a] == c2[a]);
                    }
                }
            }
        },
    }
}

/// The same text posted by one author in three different channels, starting
/// from no trackers, is detected as spam on the third message, and the three
/// channels are the ones cleaned.
pub proof fn lemma_three_channels_is_spam(
    author_id: u64,
    content: Seq<char>,
    c1: u64,
    c2: u64,
    c3: u64,
    t1: i64,
    t2: i64,
    t3: i64,
)
    requires
        c1 != c2,
        c1 != c3,
        c2 != c3,
    ensures
        ({
            let s1 = spec_record_message(Seq::empty(), author_id, content, c1, t1);
            let s2 = spec_record_message(s1.0, author_id, content, c2, t2);
            let s3 = spec_record_message(s2.0, author_id, content, c3, t3);
            &&& s1.3 is None
            &&& s2.3 is None
            &&& s3.3 == Some(seq![c1, c2, c3])
        }),
{
    let e = Seq::<TrackerView>::empty();
    assert(find_tracker(e, content) is None);
    let s1 = spec_record_message(e, author_id, content, c1, t1);
    assert(s1.0.drop_last() =~= e);
    assert(find_tracker(s1.0, content) == Some(0int));
    let s2 = spec_record_message(s1.0, author_id, content, c2, t2);
    assert(!seq![c1].contains(c2)) by {
        if seq![c1].contains(c2) {
            let j = choose|j: int| 0 <= j < 1 && seq![c1][j] == c2;
        }
    }
    assert(s2.0[0].channel_ids =~= seq![c1, c2]);
    assert(!spam_detected(s2.0));
    assert(s2.0.drop_last() =~= e);
    assert(find_tracker(s2.0, content) == Some(0int));
    let s3 = spec_record_message(s2.0, author_id, content, c3, t3);
    assert(!seq![c1, c2].contains(c3)) by {
        if seq![c1, c2].contains(c3) {
            let j = choose|j: int| 0 <= j < 2 && seq![c1, c2][j] == c3;
        }
    }
    assert(s3.0[0].channel_ids =~= seq![c1, c2, c3]);
    assert(s3.0[0].channel_ids.len() >= 3);
    assert(spam_detected(s3.0));
}


/// Spam is reported with the channels of the spammed text, whatever trackers
/// the author already has: when the earlier trackers hold other texts and
/// reached fewer than three channels each, posting one text in three
/// different channels reports nothing on the first two posts and exactly
/// those three channels, in order, on the third.
pub proof fn lemma_spam_reports_spammed_channels(
    ts: Seq<TrackerView>,
    author_id: u64,
    content: Seq<char>,
    c1: u64,
    c2: u64,
    c3: u64,
    t1: i64,
    t2: i64,
    t3: i64,
)
    requires
        forall|i: int| 0 <= i < ts.len() ==> (#[trigger] ts[i]).message_content != content && ts[i].channel_ids.len() < 3,
        c1 != c2,
        c1 != c3,
        c2 != c3,
    ensures
        ({
            let s1 = spec_record_message(ts, author_id, content, c1, t1);
            let s2 = spec_record_message(s1.0, author_id, content, c2, t2);
            let s3 = spec_record_message(s2.0, author_id, content, c3, t3);
            &&& s1.3 is None
            &&& s2.3 is None
            &&& s3.3 == Some(seq![c1, c2, c3])
        }),
{
    let n = ts.len() as int;
    lemma_find_tracker_bounds(ts, content);
    assert(find_tracker(ts, content) is None) by {
        match find_tracker(ts, content) {
            Some(k) => {
                assert(ts[k].message_content != content);
            },
            None => {},
        }
    }
    let s1 = spec_record_message(ts, author_id, content, c1, t1);
    let u1 = s1.0;
    assert(u1.len() == n + 1);
    assert forall|j: int| 0 <= j < n implies u1[j].message_content != content by {
        assert(u1[j] == ts[j]);
    }
    lemma_find_tracker_first(u1, content, n);
    let s2 = spec_record_message(u1, author_id, content, c2, t2);
    let u2 = s2.0;
    assert(!seq![c1].contains(c2)) by {
        if seq![c1].contains(c2) {
            let j = choose|j: int| 0 <= j < 1 && seq![c1][j] == c2;
        }
    }
    assert(u2[n].channel_ids =~= seq![c1, c2]);
    assert(!spam_detected(u2)) by {
        assert forall|i: int| 0 <= i < u2.len() implies !(#[trigger] u2[i].channel_ids.len() >= 3) by {
            if i < n {
                assert(u2[i] == ts[i]);
            }
        }
    }
    assert forall|j: int| 0 <= j < n implies u2[j].message_content != content by {
        assert(u2[j] == ts[j]);
    }
    lemma_find_tracker_first(u2, content, n);
    let s3 = spec_record_message(u2, author_id, content, c3, t3);
    let u3 = s3.0;
    assert(!seq![c1, c2].contains(c3)) by {
        if seq![c1, c2].contains(c3) {
            let j = choose|j: int| 0 <= j < 2 && seq![c1, c2][j] == c3;
        }
    }
    assert(u3[n].channel_ids =~= seq![c1, c2, c3]);
    assert(u3[n].channel_ids.len() >= 3);
    assert(spam_detected(u3));
    assert(u3.last() == u3[n]);
}

/// A message read back from a channel while cleaning up spam.
pub struct ChannelMessage {
    pub id: u64,
    pub author_id: u64,
    pub content: String,
}

/// Ids of the messages among `ms` that the author posted with exactly `content`.
pub open spec fn spam_copy_ids(ms: Seq<ChannelMessage>, author_id: u64, content: Seq<char>) -> Seq<u64>
    decreases ms.len(),
{
    if ms.len() == 0 {
        Seq::empty()
    } else {
        let rest = spam_copy_ids(ms.drop_last(), author_id, content);
        let m = ms.last();
        if m.author_id == author_id && m.content@ == content { rest.push(m.id) } else { rest }
    }
}

/// The messages of a channel that are copies of the spam: same author, same text.
pub fn spam_copies(messages: &Vec<ChannelMessage>, author_id: u64, content: &String) -> (r: Vec<u64>)
    ensures
        r@ == spam_copy_ids(messages@, author_id, content@),
{
    let mut r: Vec<u64> = Vec::new();
    let mut i: usize = 0;
    while i < messages.len()
        invariant
            i <= messages.len(),
            r@ == spam_copy_ids(messages@.subrange(0, i as int), author_id, content@),
        decreases messages.len() - i,
    {
        let m = &messages[i];
        proof {
            assert(messages@.subrange(0, i + 1).drop_last() =~= messages@.subrange(0, i as int));
        }
        if m.author_id == author_id && m.content == *content {
            r.push(m.id);
        }
        i = i + 1;
    }
    assert(messages@.subrange(0, messages.len() as int) =~= messages@);
    r
}

/// Text of the log entry that reports detected spam.
pub open spec fn spam_report_text(author_id: u64, content: Seq<char>) -> Seq<char> {
    "El usuario <@"@ + decimal(author_id as nat) + "> fue detectado enviando spam.\nMensaje: "@ + content
}

/// Builds the log entry that reports detected spam.
pub fn spam_report(author_id: u64, content: &str) -> (r: String)
    ensures
        r@ == spam_report_text(author_id, content@),
{
    let mut r = "El usuario <@".to_owned();
    let id = u64_to_string(author_id);
    r.append(id.as_str());
    r.append("> fue detectado enviando spam.\nMensaje: ");
    r.append(content);
    r
}

} // verus!
