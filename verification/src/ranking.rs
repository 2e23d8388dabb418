//! The `top` command: which users wrote a given word most often.
//!
//! Every message whose text contains the word counts once for its author.
//! The ten authors with the highest counts are listed, highest first.

use vstd::prelude::*;
use crate::text::{contains, decimal, occurs_in, u64_to_string};
use std::collections::HashMap;

verus! {

broadcast use vstd::std_specs::hash::group_hash_axioms;

/// A message as the ranking sees it: who wrote it and what it says.
pub struct AuthoredMessage {
    pub author_id: u64,
    pub content: String,
}

/// How many of the messages `user` wrote that contain `target`.
pub open spec fn count_of(ms: Seq<AuthoredMessage>, target: Seq<char>, user: u64) -> nat
    decreases ms.len(),
{
    if ms.len() == 0 {
        0
    } else {
        count_of(ms.drop_last(), target, user) + if ms.last().author_id == user && occurs_in(
            ms.last().content@,
            target,
        ) {
            1nat
        } else {
            0nat
        }
    }
}

/// The user ids of a list of `(user, count)` entries.
pub open spec fn users_of(r: Seq<(u64, u64)>) -> Seq<u64> {
    r.map_values(|e: (u64, u64)| e.0)
}

/// `r` is a ranking of the authors of `ms` by how often they used `target`:
/// at most ten distinct users, each with their exact (nonzero) count, highest
/// count first, and no user left out who used the word more often than the
/// last one listed (or at all, when fewer than ten are listed).
pub open spec fn is_top_ranking(r: Seq<(u64, u64)>, ms: Seq<AuthoredMessage>, target: Seq<char>) -> bool {
    &&& r.len() <= 10
    &&& users_of(r).no_duplicates()
    &&& forall|i: int| 0 <= i < r.len() ==> (#[trigger] r[i]).1 == count_of(ms, target, r[i].0) && r[i].1 > 0
    &&& forall|i: int, j: int| 0 <= i < j < r.len() ==> (#[trigger] r[i]).1 >= (#[trigger] r[j]).1
    &&& forall|u: u64| count_of(ms, target, u) > 0 && !(#[trigger] users_of(r).contains(u))
        ==> r.len() == 10 && count_of(ms, target, u) <= r[9].1
}

proof fn lemma_count_step(ms: Seq<AuthoredMessage>, target: Seq<char>, i: int, u: u64)
    requires
        0 <= i < ms.len(),
    ensures
        count_of(ms.subrange(0, i + 1), target, u) == count_of(ms.subrange(0, i), target, u) + if ms[i].author_id == u
            && occurs_in(ms[i].content@, target) {
            1nat
        } else {
            0nat
        },
{
    assert(ms.subrange(0, i + 1).drop_last() =~= ms.subrange(0, i));
}

proof fn lemma_count_bound(ms: Seq<AuthoredMessage>, target: Seq<char>, u: u64)
    ensures
        count_of(ms, target, u) <= ms.len(),
    decreases ms.len(),
{
    if ms.len() > 0 {
        lemma_count_bound(ms.drop_last(), target, u);
    }
}

/// Counts, per author, the messages that contain `target` (in a `HashMap`
/// keyed by author, as the messages are read), then lists the authors in order
/// of first appearance with their counts.
fn count_users(messages: &Vec<AuthoredMessage>, target: &str) -> (counts: Vec<(u64, u64)>)
    ensures
        users_of(counts@).no_duplicates(),
        forall|k: int| 0 <= k < counts.len() ==> (#[trigger] counts@[k]).1 == count_of(messages@, target@, counts@[k].0)
            && counts@[k].1 > 0,
        forall|u: u64| count_of(messages@, target@, u) > 0 ==> #[trigger] users_of(counts@).contains(u),
{
    let mut map: HashMap<u64, u64> = HashMap::new();
    let mut users: Vec<u64> = Vec::new();
    let mut i: usize = 0;
    while i < messages.len()
        invariant
            i <= messages.len(),
            users@.no_duplicates(),
            forall|u: u64| #[trigger] map@.contains_key(u) <==> users@.contains(u),
            forall|u: u64| #[trigger] map@.contains_key(u) ==> map@[u] == count_of(messages@.subrange(0, i as int), target@, u)
                && map@[u] > 0,
            forall|u: u64| count_of(messages@.subrange(0, i as int), target@, u) > 0 ==> #[trigger] map@.contains_key(u),
        decreases messages.len() - i,
    {
        let ghost p = messages@.subrange(0, i as int);
        let ghost p1 = messages@.subrange(0, i + 1);
        proof {
            assert forall|u: u64| #[trigger] count_of(p1, target@, u) == count_of(p, target@, u) + if messages@[i as int].author_id == u
                && occurs_in(messages@[i as int].content@, target@) {
                1nat
            } else {
                0nat
            } by {
                lemma_count_step(messages@, target@, i as int, u);
            }
        }
        let m = &messages[i];
        if contains(m.content.as_str(), target) {
            let a = m.author_id;
            let current: Option<u64> = match map.get(&a) {
                Some(c) => Some(*c),
                None => None,
            };
            match current {
                Some(c) => {
                    proof {
                        lemma_count_bound(p, target@, a);
                    }
                    map.insert(a, c + 1);
                },
                None => {
                    proof {
                        if users@.contains(a) {
                            assert(map@.contains_key(a));
                        }
                    }
                    map.insert(a, 1);
                    let ghost before = users@;
                    users.push(a);
                    proof {
                        assert forall|x: int, y: int| 0 <= x < y < users@.len() implies users@[x] != users@[y] by {
                            if y == before.len() {
                                assert(before.contains(before[x]));
                            }
                        }
                        assert forall|u: u64| #[trigger] map@.contains_key(u) <==> users@.contains(u) by {
                            if users@.contains(u) && u != a {
                                let w = choose|w: int| 0 <= w < users@.len() && users@[w] == u;
                                assert(before[w] == u);
                            }
                            if before.contains(u) {
                                let w = choose|w: int| 0 <= w < before.len() && before[w] == u;
                                assert(users@[w] == u);
                            }
                            if u == a {
                                assert(users@[before.len() as int] == a);
                            }
                        }
                    }
                },
            }
        }
        i = i + 1;
    }
    assert(messages@.subrange(0, messages.len() as int) =~= messages@);
    let mut counts: Vec<(u64, u64)> = Vec::new();
    let mut k: usize = 0;
    while k < users.len()
        invariant
            k <= users.len(),
            users@.no_duplicates(),
            forall|u: u64| #[trigger] map@.contains_key(u) <==> users@.contains(u),
            forall|u: u64| #[trigger] map@.contains_key(u) ==> map@[u] == count_of(messages@, target@, u) && map@[u] > 0,
            users_of(counts@) == users@.subrange(0, k as int),
            forall|j: int| 0 <= j < counts.len() ==> (#[trigger] counts@[j]).1 == count_of(messages@, target@, counts@[j].0)
                && counts@[j].1 > 0,
        decreases users.len() - k,
    {
        let u = users[k];
        assert(users@.contains(u));
        let c: u64 = match map.get(&u) {
            Some(c) => *c,
            None => 0,
        };
        let ghost before = counts@;
        counts.push((u, c));
        proof {
            assert(users_of(counts@) =~= users_of(before).push(u));
            assert(users@.subrange(0, k + 1) =~= users@.subrange(0, k as int).push(u));
        }
        k = k + 1;
    }
    proof {
        assert(users@.subrange(0, users.len() as int) =~= users@);
        assert forall|u: u64| count_of(messages@, target@, u) > 0 implies #[trigger] users_of(counts@).contains(u) by {
            assert(map@.contains_key(u));
            assert(users@.contains(u));
        }
    }
    counts
}


/// Picks, highest count first, up to ten entries out of `counts`.
fn select_top(counts: &Vec<(u64, u64)>) -> (r: Vec<(u64, u64)>)
    requires
        users_of(counts@).no_duplicates(),
    ensures
        r.len() <= 10,
        users_of(r@).no_duplicates(),
        forall|i: int| 0 <= i < r.len() ==> counts@.contains(#[trigger] r@[i]),
        forall|a: int, b: int| 0 <= a < b < r.len() ==> (#[trigger] r@[a]).1 >= (#[trigger] r@[b]).1,
        forall|j: int| 0 <= j < counts.len() && !users_of(r@).contains(#[trigger] counts@[j].0)
            ==> r.len() == 10 && counts@[j].1 <= r@[9].1,
{
    let n = counts.len();
    let mut chosen: Vec<bool> = Vec::new();
    let mut z: usize = 0;
    while z < n
        invariant
            z <= n,
            chosen.len() == z,
            forall|j: int| 0 <= j < z ==> !chosen@[j],
        decreases n - z,
    {
        chosen.push(false);
        z = z + 1;
    }
    let mut r: Vec<(u64, u64)> = Vec::new();
    let mut picked: Vec<usize> = Vec::new();
    let mut done = false;
    while r.len() < 10 && !done
        invariant
            n == counts.len(),
            users_of(counts@).no_duplicates(),
            chosen.len() == n,
            r.len() <= 10,
            picked.len() == r.len(),
            forall|k: int| 0 <= k < r.len() ==> (#[trigger] picked@[k]) < n && r@[k] == counts@[picked@[k] as int]
                && chosen@[picked@[k] as int],
            forall|j: int| 0 <= j < n && #[trigger] chosen@[j] ==> exists|k: int| 0 <= k < r.len() && picked@[k] == j,
            forall|a: int, b: int| 0 <= a < b < r.len() ==> picked@[a] != picked@[b],
            forall|a: int, b: int| 0 <= a < b < r.len() ==> (#[trigger] r@[a]).1 >= (#[trigger] r@[b]).1,
            forall|j: int| 0 <= j < n && !(#[trigger] chosen@[j]) && r.len() > 0 ==> counts@[j].1 <= r@[r.len() - 1].1,
            done ==> forall|j: int| 0 <= j < n ==> #[trigger] chosen@[j],
        decreases 10 - r.len(), if done { 0int } else { 1int },
    {
        let mut best: Option<usize> = None;
        let mut j: usize = 0;
        while j < n
            invariant
                n == counts.len(),
                chosen.len() == n,
                j <= n,
                match best {
                    Some(b) => b < j && !chosen@[b as int] && forall|x: int| 0 <= x < j && !chosen@[x] ==> counts@[x].1 <= counts@[b as int].1,
                    None => forall|x: int| 0 <= x < j ==> chosen@[x],
                },
            decreases n - j,
        {
            if !chosen[j] {
                match best {
                    None => {
                        best = Some(j);
                    },
                    Some(b) => {
                        if counts[j].1 > counts[b].1 {
                            best = Some(j);
                        }
                    },
                }
            }
            j = j + 1;
        }
        match best {
            None => {
                done = true;
            },
            Some(b) => {
                let ghost old_r = r@;
                let ghost old_picked = picked@;
                let ghost old_chosen = chosen@;
                r.push(counts[b]);
                picked.push(b);
                chosen.set(b, true);
                proof {
                    assert forall|x: int| 0 <= x < n && #[trigger] chosen@[x] implies exists|k: int| 0 <= k < r.len() && picked@[k] == x by {
                        if x == b {
                            assert(picked@[old_r.len() as int] == x);
                        } else {
                            assert(old_chosen[x]);
                            let k = choose|k: int| 0 <= k < old_r.len() && old_picked[k] == x;
                            assert(picked@[k] == x);
                        }
                    }
                    assert forall|a: int, c: int| 0 <= a < c < r.len() implies picked@[a] != picked@[c] by {
                        if c == old_r.len() {
                            assert(old_chosen[old_picked[a] as int]);
                        }
                    }
                    assert forall|a: int, c: int| 0 <= a < c < r.len() implies (#[trigger] r@[a]).1 >= (#[trigger] r@[c]).1 by {
                        if c == old_r.len() && old_r.len() > 0 {
                            assert(counts@[b as int].1 <= old_r[old_r.len() - 1].1);
                            if a < old_r.len() - 1 {
                                assert(old_r[a].1 >= old_r[old_r.len() - 1].1);
                            }
                        }
                    }
                }
            },
        }
    }
    proof {
        assert forall|a: int, c: int| 0 <= a < c < r.len() implies users_of(r@)[a] != users_of(r@)[c] by {
            assert(users_of(counts@)[picked@[a] as int] != users_of(counts@)[picked@[c] as int]);
        }
        assert forall|i: int| 0 <= i < r.len() implies counts@.contains(#[trigger] r@[i]) by {
            assert(counts@[picked@[i] as int] == r@[i]);
        }
        assert forall|j: int| 0 <= j < counts.len() && !users_of(r@).contains(#[trigger] counts@[j].0)
            implies r.len() == 10 && counts@[j].1 <= r@[9].1 by {
            if chosen@[j] {
                let k = choose|k: int| 0 <= k < r.len() && picked@[k] == j;
                assert(users_of(r@)[k] == counts@[j].0);
            }
        }
    }
    r
}

/// The ten users who wrote `target` in the most messages, each with the number
/// of their messages that contain it, highest count first.
pub fn top_users(messages: &Vec<AuthoredMessage>, target: &str) -> (r: Vec<(u64, u64)>)
    ensures
        is_top_ranking(r@, messages@, target@),
{
    let counts = count_users(messages, target);
    let r = select_top(&counts);
    proof {
        assert forall|i: int| 0 <= i < r.len() implies (#[trigger] r@[i]).1 == count_of(messages@, target@, r@[i].0) && r@[i].1 > 0 by {
            assert(counts@.contains(r@[i]));
            let k = choose|k: int| 0 <= k < counts.len() && counts@[k] == r@[i];
            assert(counts@[k].1 == count_of(messages@, target@, counts@[k].0));
        }
        assert forall|u: u64| count_of(messages@, target@, u) > 0 && !(#[trigger] users_of(r@).contains(u))
            implies r.len() == 10 && count_of(messages@, target@, u) <= r@[9].1 by {
            assert(users_of(counts@).contains(u));
            let k = choose|k: int| 0 <= k < users_of(counts@).len() && users_of(counts@)[k] == u;
            assert(counts@[k].0 == u);
        }
    }
    r
}


/// One line of the ranking: `- <@user>: count`.
pub open spec fn ranking_line(e: (u64, u64)) -> Seq<char> {
    "- <@"@ + decimal(e.0 as nat) + ">: "@ + decimal(e.1 as nat)
}

/// The lines of a ranking joined with newlines.
pub open spec fn ranking_text(r: Seq<(u64, u64)>) -> Seq<char>
    decreases r.len(),
{
    if r.len() == 0 {
        Seq::empty()
    } else if r.len() == 1 {
        ranking_line(r[0])
    } else {
        ranking_text(r.drop_last()) + "\n"@ + ranking_line(r.last())
    }
}

/// Rankings are shown line by line: a one-entry ranking is its line, and the
/// text of two non-empty rankings one after the other is the text of the
/// first, a newline, and the text of the second.
pub proof fn lemma_ranking_text_append(r: Seq<(u64, u64)>, s: Seq<(u64, u64)>)
    requires
        r.len() > 0,
        s.len() > 0,
    ensures
        ranking_text(seq![r[0]]) == ranking_line(r[0]),
        ranking_text(r + s) == ranking_text(r) + "\n"@ + ranking_text(s),
    decreases s.len(),
{
    let rs = r + s;
    assert(rs.drop_last() =~= r + s.drop_last());
    assert(rs.last() == s.last());
    if s.len() == 1 {
        assert(s.drop_last() =~= Seq::<(u64, u64)>::empty());
        assert(r + s.drop_last() =~= r);
        assert(s[0] == s.last());
    } else {
        lemma_ranking_text_append(r, s.drop_last());
        assert(ranking_text(rs) == ranking_text(r + s.drop_last()) + "\n"@ + ranking_line(s.last()));
        assert(ranking_text(s) == ranking_text(s.drop_last()) + "\n"@ + ranking_line(s.last()));
        assert(ranking_text(r) + "\n"@ + ranking_text(s.drop_last()) + "\n"@ + ranking_line(s.last()) =~= ranking_text(r)
            + "\n"@ + (ranking_text(s.drop_last()) + "\n"@ + ranking_line(s.last())));
    }
}

/// The body of the ranking embed: one line per user, separated by newlines.
pub fn ranking_description(r: &Vec<(u64, u64)>) -> (s: String)
    ensures
        s@ == ranking_text(r@),
{
    let mut s = String::new();
    let mut i: usize = 0;
    while i < r.len()
        invariant
            i <= r.len(),
            s@ == ranking_text(r@.subrange(0, i as int)),
        decreases r.len() - i,
    {
        proof {
            assert(r@.subrange(0, i + 1).drop_last() =~= r@.subrange(0, i as int));
            assert(r@.subrange(0, i + 1).last() == r@[i as int]);
        }
        if i > 0 {
            s.append("\n");
        }
        s.append("- <@");
        let u = u64_to_string(r[i].0);
        s.append(u.as_str());
        s.append(">: ");
        let c = u64_to_string(r[i].1);
        s.append(c.as_str());
        proof {
            if i == 0 {
                assert(r@.subrange(0, 1)[0] == r@[0]);
            }
        }
        i = i + 1;
    }
    assert(r@.subrange(0, r.len() as int) =~= r@);
    s
}

/// Title of the ranking embed.
pub fn ranking_title(target: &str) -> (s: String)
    ensures
        s@ == "Top Usuarios que usaron la palabra \""@ + target@ + "\""@,
{
    let mut s = "Top Usuarios que usaron la palabra \"".to_owned();
    s.append(target);
    s.append("\"");
    s
}

} // verus!
