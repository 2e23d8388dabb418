//! The `screenshot_this` command: which quoted messages can be turned into a
//! picture, where the picture goes, and how mentions in the quote are shown.

use vstd::prelude::*;
use crate::text::{
    chars_of, decimal, index_of, index_of_chars, occurs_in, parse_u64, replace_all, replace_str,
    slice_chars, spec_parse_u64, str_eq, string_of, u64_to_string,
};

verus! {

/// Longest quote (in bytes of UTF-8) that fits in the picture.
pub const MAX_QUOTE_BYTES: usize = 72;

/// Where a screenshot goes, or why none is made.
pub enum ScreenshotTarget {
    /// The quote is longer than the picture allows.
    TooLong,
    /// The optional argument is given but is not `ooc`.
    InvalidChannel,
    /// The picture is posted in the current channel.
    Here,
    /// The picture is posted in the server's out-of-context channel.
    OutOfContext,
}

/// Where the screenshot of `content` goes, given the command's optional
/// argument: a quote over 72 bytes is refused; otherwise the argument, when
/// given, must be `ooc`.
pub fn screenshot_target(content: &str, ooc: &Option<String>) -> (t: ScreenshotTarget)
    ensures
        content.len() > 72 ==> t is TooLong,
        content.len() <= 72 ==> match ooc {
            None => t is Here,
            Some(o) => if o@ == "ooc"@ { t is OutOfContext } else { t is InvalidChannel },
        },
{
    if content.len() > MAX_QUOTE_BYTES {
        return ScreenshotTarget::TooLong;
    }
    match ooc {
        None => ScreenshotTarget::Here,
        Some(o) => if str_eq(o.as_str(), "ooc") {
            ScreenshotTarget::OutOfContext
        } else {
            ScreenshotTarget::InvalidChannel
        },
    }
}

/// The name a member is shown with: the server nickname, else the global
/// name, else the user name.
pub fn display_name(nick: Option<String>, global_name: Option<String>, name: String) -> (s: String)
    ensures
        s == match nick {
            Some(n) => n,
            None => match global_name {
                Some(g) => g,
                None => name,
            },
        },
{
    match nick {
        Some(n) => n,
        None => match global_name {
            Some(g) => g,
            None => name,
        },
    }
}

/// The quote as printed in the picture: between double quotes.
pub fn quote_content(content: &str) -> (s: String)
    ensures
        s@ == "\""@ + content@ + "\""@,
{
    let mut s = "\"".to_owned();
    s.append(content);
    s.append("\"");
    s
}

/// The author line printed under the quote: `- ` and the name.
pub fn author_label(name: &str) -> (s: String)
    ensures
        s@ == "- "@ + name@,
{
    let mut s = "- ".to_owned();
    s.append(name);
    s
}

/// The text that names the first mentioned user: what follows the first
/// `<@`, up to the next `<@`, and within that up to the first `>`.
pub open spec fn mention_id_text(content: Seq<char>) -> Seq<char> {
    let rest = content.subrange(index_of(content, "<@"@) + 2, content.len() as int);
    let segment = rest.subrange(0, index_of(rest, "<@"@));
    segment.subrange(0, index_of(segment, ">"@))
}

/// The id of the first user mentioned in a quote that holds `<@`, read as the
/// text after the first `<@` and before the next `>`; `None` when that text is
/// not a number.
pub fn mentioned_user_id(content: &str) -> (r: Option<u64>)
    requires
        occurs_in(content@, "<@"@),
    ensures
        r == spec_parse_u64(mention_id_text(content@)),
{
    proof {
        reveal_strlit("<@");
        reveal_strlit(">");
    }
    let v = chars_of(content);
    let open_p = chars_of("<@");
    let close_p = chars_of(">");
    let i = index_of_chars(&v, &open_p);
    proof {
        let w = choose|w: int| crate::text::occurs_at(content@, "<@"@, w);
        lemma_first_before(content@, "<@"@, w);
    }
    let rest = slice_chars(&v, i + 2, v.len());
    let j = index_of_chars(&rest, &open_p);
    let segment = slice_chars(&rest, 0, j);
    let k = index_of_chars(&segment, &close_p);
    let id_chars = slice_chars(&segment, 0, k);
    let id_text = string_of(&id_chars);
    parse_u64(id_text.as_str())
}

proof fn lemma_first_before(s: Seq<char>, p: Seq<char>, w: int)
    requires
        crate::text::occurs_at(s, p, w),
        p.len() > 0,
    ensures
        index_of(s, p) <= w,
        index_of(s, p) + p.len() <= s.len(),
{
    lemma_index_bound(s, p, 0, w);
}

proof fn lemma_index_bound(s: Seq<char>, p: Seq<char>, i: int, w: int)
    requires
        crate::text::occurs_at(s, p, w),
        p.len() > 0,
        0 <= i <= w,
    ensures
        crate::text::index_from(s, p, i) <= w,
        crate::text::occurs_at(s, p, crate::text::index_from(s, p, i)),
    decreases w - i,
{
    if !crate::text::occurs_at(s, p, i) {
        lemma_index_bound(s, p, i + 1, w);
    }
}

proof fn lemma_index_is(s: Seq<char>, p: Seq<char>, k: int)
    requires
        p.len() > 0,
        0 <= k,
        crate::text::occurs_at(s, p, k),
        forall|j: int| 0 <= j < k ==> !crate::text::occurs_at(s, p, j),
    ensures
        index_of(s, p) == k,
{
    crate::text::lemma_index_from(s, p, 0);
    let x = index_of(s, p);
    if x < k {
        assert(!crate::text::occurs_at(s, p, x));
    } else if x > k {
        assert(!crate::text::occurs_at(s, p, k));
    }
}

proof fn lemma_index_at_least(s: Seq<char>, p: Seq<char>, k: int)
    requires
        p.len() > 0,
        0 <= k <= s.len(),
        forall|j: int| 0 <= j < k ==> !crate::text::occurs_at(s, p, j),
    ensures
        k <= index_of(s, p) <= s.len(),
{
    crate::text::lemma_index_from(s, p, 0);
    let x = index_of(s, p);
    if x < k {
        assert(x < s.len());
        assert(crate::text::occurs_at(s, p, x));
    }
}

/// The whole id of a mention is read: when the quote holds `<@`, the id in
/// decimal and `>`, with no `<@` before it, the id read from the quote is that
/// id, whatever follows the mention.
pub proof fn lemma_mention_reads_full_id(before: Seq<char>, n: u64, after: Seq<char>)
    requires
        !occurs_in(before, "<@"@),
    ensures
        occurs_in(before + "<@"@ + decimal(n as nat) + ">"@ + after, "<@"@),
        spec_parse_u64(mention_id_text(before + "<@"@ + decimal(n as nat) + ">"@ + after)) == Some(n),
{
    reveal_strlit("<@");
    reveal_strlit(">");
    let op = "<@"@;
    let cl = ">"@;
    let d = decimal(n as nat);
    crate::text::lemma_decimal_digits(n as nat);
    crate::text::lemma_parse_u64_of_decimal(n);
    let c = before + op + d + cl + after;
    let lb = before.len() as int;
    assert(c.subrange(lb, lb + 2) =~= op);
    assert(crate::text::occurs_at(c, op, lb));
    assert forall|j: int| 0 <= j < lb implies !crate::text::occurs_at(c, op, j) by {
        if crate::text::occurs_at(c, op, j) {
            if j + 2 <= lb {
                assert(before.subrange(j, j + 2) =~= c.subrange(j, j + 2));
                assert(crate::text::occurs_at(before, op, j));
            } else {
                assert(c.subrange(j, j + 2)[1] == c[lb]);
                assert(c[lb] == '<');
            }
        }
    }
    lemma_index_is(c, op, lb);
    let rest = c.subrange(lb + 2, c.len() as int);
    assert(rest =~= d + cl + after);
    let dl = d.len() as int;
    assert(rest[dl] == '>');
    assert forall|j: int| 0 <= j <= dl implies !crate::text::occurs_at(rest, op, j) by {
        if crate::text::occurs_at(rest, op, j) {
            assert(rest.subrange(j, j + 2)[0] == rest[j]);
            if j < dl {
                assert(rest[j] == d[j]);
                assert(crate::text::is_digit(d[j]));
            }
        }
    }
    lemma_index_at_least(rest, op, dl + 1);
    let idx = index_of(rest, op);
    let segment = rest.subrange(0, idx);
    assert(segment[dl] == '>');
    assert(segment.subrange(dl, dl + 1) =~= cl);
    assert forall|j: int| 0 <= j < dl implies !crate::text::occurs_at(segment, cl, j) by {
        if crate::text::occurs_at(segment, cl, j) {
            assert(segment.subrange(j, j + 1)[0] == segment[j]);
            assert(segment[j] == d[j]);
            assert(crate::text::is_digit(d[j]));
        }
    }
    lemma_index_is(segment, cl, dl);
    assert(segment.subrange(0, dl) =~= d);
}

/// The quote with the mention `<@id>` replaced by `@` and the user's name.
pub fn replace_mention(quoted: &str, user_id: u64, username: &str) -> (s: String)
    ensures
        s@ == replace_all(quoted@, "<@"@ + decimal(user_id as nat) + ">"@, "@"@ + username@),
{
    let mut mention = "<@".to_owned();
    let d = u64_to_string(user_id);
    mention.append(d.as_str());
    mention.append(">");
    let mut shown = "@".to_owned();
    shown.append(username);
    proof {
        reveal_strlit("<@");
    }
    replace_str(quoted, mention.as_str(), shown.as_str())
}

} // verus!
