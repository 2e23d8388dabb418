//! Character-level text primitives used by the rest of the library:
//! conversions between strings and character sequences, substring search,
//! Unicode whitespace trimming, and decimal rendering and parsing of ids.

use vstd::prelude::*;

verus! {

/// Appends one character to a string (`String::push`).
#[verifier::external_body]
pub(crate) fn push_char(s: &mut String, c: char)
    ensures
        final(s)@ == old(s)@.push(c),
{
    s.push(c);
}

/// The characters of a string slice, as a vector.
pub fn chars_of(s: &str) -> (v: Vec<char>)
    ensures
        v@ == s@,
{
    let n = s.unicode_len();
    let mut v: Vec<char> = Vec::new();
    let mut i: usize = 0;
    while i < n
        invariant
            n == s@.len(),
            i <= n,
            v@ == s@.subrange(0, i as int),
        decreases n - i,
    {
        let c = s.get_char(i);
        v.push(c);
        i = i + 1;
    }
    v
}

/// A string holding exactly the given characters.
pub fn string_of(v: &Vec<char>) -> (s: String)
    ensures
        s@ == v@,
{
    let mut s = String::new();
    let mut i: usize = 0;
    while i < v.len()
        invariant
            i <= v.len(),
            s@ == v@.subrange(0, i as int),
        decreases v.len() - i,
    {
        push_char(&mut s, v[i]);
        i = i + 1;
    }
    s
}


/// Unicode `White_Space` characters: what `char::is_whitespace` accepts and
/// what the regular-expression class `\s` matches.
pub open spec fn is_white_space(c: char) -> bool {
    ||| ('\t' <= c && c <= '\r')
    ||| c == ' '
    ||| c == '\u{85}'
    ||| c == '\u{a0}'
    ||| c == '\u{1680}'
    ||| ('\u{2000}' <= c && c <= '\u{200a}')
    ||| c == '\u{2028}'
    ||| c == '\u{2029}'
    ||| c == '\u{202f}'
    ||| c == '\u{205f}'
    ||| c == '\u{3000}'
}

/// Whether `c` is a Unicode `White_Space` character.
pub fn is_white_space_char(c: char) -> (b: bool)
    ensures
        b == is_white_space(c),
{
    ('\t' <= c && c <= '\r') || c == ' ' || c == '\u{85}' || c == '\u{a0}' || c == '\u{1680}'
        || ('\u{2000}' <= c && c <= '\u{200a}') || c == '\u{2028}' || c == '\u{2029}'
        || c == '\u{202f}' || c == '\u{205f}' || c == '\u{3000}'
}

/// `p` occurs in `s` starting at position `i`.
pub open spec fn occurs_at(s: Seq<char>, p: Seq<char>, i: int) -> bool {
    0 <= i && i + p.len() <= s.len() && s.subrange(i, i + p.len()) == p
}

/// `p` occurs somewhere in `s`.
pub open spec fn occurs_in(s: Seq<char>, p: Seq<char>) -> bool {
    exists|i: int| occurs_at(s, p, i)
}

/// Whether `p` occurs in `s` at position `i` (exec form of `occurs_at`).
pub fn matches_at(s: &Vec<char>, p: &Vec<char>, i: usize) -> (b: bool)
    requires
        i <= s.len(),
    ensures
        b == occurs_at(s@, p@, i as int),
{
    if p.len() > s.len() - i {
        return false;
    }
    let mut k: usize = 0;
    while k < p.len()
        invariant
            i + p.len() <= s.len(),
            k <= p.len(),
            forall|j: int| 0 <= j < k ==> s@[i + j] == p@[j],
        decreases p.len() - k,
    {
        if s[i + k] != p[k] {
            assert(s@.subrange(i as int, i + p.len())[k as int] != p@[k as int]);
            return false;
        }
        k = k + 1;
    }
    assert(s@.subrange(i as int, i + p.len()) =~= p@);
    true
}

/// The first position at or after `from` where `p` occurs in `s`.
pub fn find_from(s: &Vec<char>, p: &Vec<char>, from: usize) -> (r: Option<usize>)
    requires
        from <= s.len(),
    ensures
        match r {
            Some(i) => from <= i && occurs_at(s@, p@, i as int)
                && forall|j: int| from <= j < i ==> !occurs_at(s@, p@, j),
            None => forall|j: int| from <= j ==> !occurs_at(s@, p@, j),
        },
{
    let mut i = from;
    loop
        invariant
            from <= i <= s.len(),
            forall|j: int| from <= j < i ==> !occurs_at(s@, p@, j),
        decreases s.len() - i,
    {
        if matches_at(s, p, i) {
            return Some(i);
        }
        if i == s.len() {
            return None;
        }
        i = i + 1;
    }
}

/// Whether `needle` occurs in `hay` (`str::contains` with a string pattern).
pub fn contains(hay: &str, needle: &str) -> (b: bool)
    ensures
        b == occurs_in(hay@, needle@),
{
    let h = chars_of(hay);
    let n = chars_of(needle);
    let r = find_from(&h, &n, 0);
    match r {
        Some(_) => true,
        None => {
            assert forall|j: int| !occurs_at(hay@, needle@, j) by {
                if 0 <= j {
                    assert(!occurs_at(h@, n@, j));
                }
            }
            false
        },
    }
}

/// Whether two string slices hold the same characters.
pub fn str_eq(a: &str, b: &str) -> (r: bool)
    ensures
        r == (a@ == b@),
{
    a.to_owned() == b.to_owned()
}

/// `s` starts with `p`.
pub open spec fn starts_with(s: Seq<char>, p: Seq<char>) -> bool {
    occurs_at(s, p, 0)
}

/// `s` with every non-overlapping occurrence of `p`, scanning left to right,
/// replaced by `t` (`str::replace` with a non-empty pattern).
pub open spec fn replace_all(s: Seq<char>, p: Seq<char>, t: Seq<char>) -> Seq<char>
    decreases s.len(),
{
    if s.len() == 0 || p.len() == 0 {
        s
    } else if occurs_at(s, p, 0) {
        t + replace_all(s.subrange(p.len() as int, s.len() as int), p, t)
    } else {
        seq![s[0]] + replace_all(s.drop_first(), p, t)
    }
}

proof fn lemma_replace_all_suffix(s: Seq<char>, p: Seq<char>, t: Seq<char>, i: int)
    requires
        0 <= i < s.len(),
        p.len() > 0,
        !occurs_at(s, p, i),
    ensures
        replace_all(s.subrange(i, s.len() as int), p, t) == seq![s[i]] + replace_all(s.subrange(i + 1, s.len() as int), p, t),
{
    let u = s.subrange(i, s.len() as int);
    assert(u.drop_first() =~= s.subrange(i + 1, s.len() as int));
    if occurs_at(u, p, 0) {
        assert(u.subrange(0, p.len() as int) =~= s.subrange(i, i + p.len()));
    }
}

proof fn lemma_replace_all_match(s: Seq<char>, p: Seq<char>, t: Seq<char>, i: int)
    requires
        0 <= i < s.len(),
        p.len() > 0,
        occurs_at(s, p, i),
    ensures
        replace_all(s.subrange(i, s.len() as int), p, t) == t + replace_all(s.subrange(i + p.len(), s.len() as int), p, t),
{
    let u = s.subrange(i, s.len() as int);
    assert(u.subrange(0, p.len() as int) =~= s.subrange(i, i + p.len()));
    assert(u.subrange(p.len() as int, u.len() as int) =~= s.subrange(i + p.len(), s.len() as int));
}

/// Replaces every occurrence of `p` in `s` by `t`, left to right, without
/// overlaps (`str::replace`). The pattern must not be empty.
pub fn replace_str(s: &str, p: &str, t: &str) -> (r: String)
    requires
        p@.len() > 0,
    ensures
        r@ == replace_all(s@, p@, t@),
{
    let sv = chars_of(s);
    let pv = chars_of(p);
    let n = sv.len();
    let mut out: Vec<char> = Vec::new();
    let mut i: usize = 0;
    let ghost full = replace_all(s@, p@, t@);
    assert(s@.subrange(0, n as int) =~= s@);
    while i < n
        invariant
            n == sv.len(),
            sv@ == s@,
            pv@ == p@,
            p@.len() > 0,
            i <= n,
            full == replace_all(s@, p@, t@),
            full == out@ + replace_all(s@.subrange(i as int, n as int), p@, t@),
        decreases n - i,
    {
        if matches_at(&sv, &pv, i) {
            proof {
                lemma_replace_all_match(s@, p@, t@, i as int);
            }
            let tv = chars_of(t);
            let mut k: usize = 0;
            let ghost before = out@;
            while k < tv.len()
                invariant
                    k <= tv.len(),
                    out@ == before + tv@.subrange(0, k as int),
                decreases tv.len() - k,
            {
                out.push(tv[k]);
                k = k + 1;
            }
            assert(tv@.subrange(0, tv.len() as int) =~= tv@);
            assert(out@ + replace_all(s@.subrange(i + p@.len(), n as int), p@, t@) =~= before + (t@ + replace_all(
                s@.subrange(i + p@.len(), n as int),
                p@,
                t@,
            )));
            i = i + pv.len();
        } else {
            proof {
                lemma_replace_all_suffix(s@, p@, t@, i as int);
                assert(out@.push(sv@[i as int]) + replace_all(s@.subrange(i + 1, n as int), p@, t@) =~= out@ + (seq![s@[i as int]]
                    + replace_all(s@.subrange(i + 1, n as int), p@, t@)));
            }
            out.push(sv[i]);
            i = i + 1;
        }
    }
    assert(s@.subrange(n as int, n as int) =~= Seq::<char>::empty());
    assert(out@ + Seq::<char>::empty() =~= out@);
    string_of(&out)
}

/// The first position at or after `i` where `p` occurs in `s`, or `s.len()`
/// when it does not occur there.
pub open spec fn index_from(s: Seq<char>, p: Seq<char>, i: int) -> int
    decreases s.len() - i,
{
    if i < 0 || i >= s.len() {
        s.len() as int
    } else if occurs_at(s, p, i) {
        i
    } else {
        index_from(s, p, i + 1)
    }
}

/// The first position where `p` occurs in `s`, or `s.len()` when it does not.
pub open spec fn index_of(s: Seq<char>, p: Seq<char>) -> int {
    index_from(s, p, 0)
}

/// `index_from` finds the first occurrence at or after `i`: it lies between
/// `i` and the end, an occurrence starts there unless it is the end, and none
/// starts before it.
pub proof fn lemma_index_from(s: Seq<char>, p: Seq<char>, i: int)
    requires
        0 <= i <= s.len(),
        p.len() > 0,
    ensures
        i <= index_from(s, p, i) <= s.len(),
        index_from(s, p, i) < s.len() ==> occurs_at(s, p, index_from(s, p, i)),
        forall|j: int| i <= j < index_from(s, p, i) ==> !occurs_at(s, p, j),
    decreases s.len() - i,
{
    if i < s.len() && !occurs_at(s, p, i) {
        lemma_index_from(s, p, i + 1);
    }
}

/// The first position where `p` occurs in `s`, or `s.len()` when it does not.
pub fn index_of_chars(s: &Vec<char>, p: &Vec<char>) -> (r: usize)
    requires
        p@.len() > 0,
    ensures
        r == index_of(s@, p@),
        r <= s.len(),
{
    proof {
        lemma_index_from(s@, p@, 0);
    }
    let mut i: usize = 0;
    while i < s.len()
        invariant
            i <= s.len(),
            p@.len() > 0,
            index_from(s@, p@, 0) == index_from(s@, p@, i as int),
        decreases s.len() - i,
    {
        if matches_at(s, p, i) {
            return i;
        }
        i = i + 1;
    }
    i
}

/// The characters of `v` from `a` to `b`.
pub fn slice_chars(v: &Vec<char>, a: usize, b: usize) -> (r: Vec<char>)
    requires
        a <= b <= v.len(),
    ensures
        r@ == v@.subrange(a as int, b as int),
{
    let mut r: Vec<char> = Vec::new();
    let mut k = a;
    while k < b
        invariant
            a <= k <= b <= v.len(),
            r@ == v@.subrange(a as int, k as int),
        decreases b - k,
    {
        r.push(v[k]);
        k = k + 1;
    }
    r
}

/// `s` without the copies of `c` at its start (`str::trim_start_matches`).
pub open spec fn trim_start_char(s: Seq<char>, c: char) -> Seq<char>
    decreases s.len(),
{
    if s.len() > 0 && s[0] == c {
        trim_start_char(s.drop_first(), c)
    } else {
        s
    }
}

/// `s` without the copies of `c` at its end (`str::trim_end_matches`).
pub open spec fn trim_end_char(s: Seq<char>, c: char) -> Seq<char>
    decreases s.len(),
{
    if s.len() > 0 && s.last() == c {
        trim_end_char(s.drop_last(), c)
    } else {
        s
    }
}

/// Drops the copies of `c` at the start of `s`.
pub fn trim_start_matches(s: &str, c: char) -> (r: String)
    ensures
        r@ == trim_start_char(s@, c),
{
    let v = chars_of(s);
    let n = v.len();
    let mut a: usize = 0;
    assert(s@.subrange(0, n as int) =~= s@);
    while a < n && v[a] == c
        invariant
            n == v.len(),
            v@ == s@,
            a <= n,
            trim_start_char(s@, c) == trim_start_char(s@.subrange(a as int, n as int), c),
        decreases n - a,
    {
        assert(s@.subrange(a as int, n as int).drop_first() =~= s@.subrange(a + 1, n as int));
        a = a + 1;
    }
    let mut out: Vec<char> = Vec::new();
    let mut k = a;
    while k < n
        invariant
            n == v.len(),
            a <= k <= n,
            out@ == v@.subrange(a as int, k as int),
        decreases n - k,
    {
        out.push(v[k]);
        k = k + 1;
    }
    string_of(&out)
}

/// Drops the copies of `c` at both ends of `s` (`str::trim_matches`).
pub fn trim_matches(s: &str, c: char) -> (r: String)
    ensures
        r@ == trim_end_char(trim_start_char(s@, c), c),
{
    let t = trim_start_matches(s, c);
    let v = chars_of(t.as_str());
    let mut b: usize = v.len();
    assert(v@.subrange(0, b as int) =~= v@);
    while b > 0 && v[b - 1] == c
        invariant
            b <= v.len(),
            v@ == t@,
            trim_end_char(t@, c) == trim_end_char(v@.subrange(0, b as int), c),
        decreases b,
    {
        assert(v@.subrange(0, b as int).drop_last() =~= v@.subrange(0, b - 1));
        b = b - 1;
    }
    let mut out: Vec<char> = Vec::new();
    let mut k: usize = 0;
    while k < b
        invariant
            b <= v.len(),
            k <= b,
            out@ == v@.subrange(0, k as int),
        decreases b - k,
    {
        out.push(v[k]);
        k = k + 1;
    }
    string_of(&out)
}

/// `s` without its leading whitespace (`str::trim_start`).
pub open spec fn trim_start(s: Seq<char>) -> Seq<char>
    decreases s.len(),
{
    if s.len() > 0 && is_white_space(s[0]) {
        trim_start(s.drop_first())
    } else {
        s
    }
}

/// `s` without its trailing whitespace (`str::trim_end`).
pub open spec fn trim_end(s: Seq<char>) -> Seq<char>
    decreases s.len(),
{
    if s.len() > 0 && is_white_space(s.last()) {
        trim_end(s.drop_last())
    } else {
        s
    }
}

/// `s` without leading and trailing whitespace (`str::trim`).
pub open spec fn trim(s: Seq<char>) -> Seq<char> {
    trim_end(trim_start(s))
}

/// The characters of `s` without leading and trailing Unicode whitespace.
pub fn trim_chars(s: &Vec<char>) -> (r: Vec<char>)
    ensures
        r@ == trim(s@),
{
    let n = s.len();
    let mut a: usize = 0;
    assert(s@.subrange(0, n as int) =~= s@);
    while a < n && is_white_space_char(s[a])
        invariant
            n == s.len(),
            a <= n,
            trim_start(s@) == trim_start(s@.subrange(a as int, n as int)),
        decreases n - a,
    {
        assert(s@.subrange(a as int, n as int).drop_first() =~= s@.subrange(a + 1, n as int));
        a = a + 1;
    }
    assert(trim_start(s@) == s@.subrange(a as int, n as int));
    let mut b: usize = n;
    while b > a && is_white_space_char(s[b - 1])
        invariant
            n == s.len(),
            a <= b <= n,
            trim(s@) == trim_end(s@.subrange(a as int, b as int)),
        decreases b,
    {
        assert(s@.subrange(a as int, b as int).drop_last() =~= s@.subrange(a as int, b - 1));
        b = b - 1;
    }
    let mut r: Vec<char> = Vec::new();
    let mut k = a;
    while k < b
        invariant
            n == s.len(),
            a <= k <= b <= n,
            r@ == s@.subrange(a as int, k as int),
        decreases b - k,
    {
        r.push(s[k]);
        k = k + 1;
    }
    r
}

/// The ASCII decimal digit for `d` (`0 <= d < 10`).
pub open spec fn digit_char(d: int) -> char {
    (48 + d) as char
}

/// `c` is an ASCII decimal digit.
pub open spec fn is_digit(c: char) -> bool {
    '0' <= c && c <= '9'
}

/// The value of the ASCII digit `c`.
pub open spec fn digit_value(c: char) -> nat {
    (c as int - 48) as nat
}

/// The decimal rendering of `n`, without leading zeros (`u64::to_string`).
pub open spec fn decimal(n: nat) -> Seq<char>
    decreases n,
{
    if n < 10 {
        seq![digit_char(n as int)]
    } else {
        decimal(n / 10).push(digit_char((n % 10) as int))
    }
}

/// Every character of `s` is an ASCII digit.
pub open spec fn all_digits(s: Seq<char>) -> bool {
    forall|i: int| 0 <= i < s.len() ==> is_digit(#[trigger] s[i])
}

/// The number written by the digits of `s`, most significant first.
pub open spec fn digits_value(s: Seq<char>) -> nat
    decreases s.len(),
{
    if s.len() == 0 {
        0
    } else {
        digits_value(s.drop_last()) * 10 + digit_value(s.last())
    }
}

/// What `str::parse::<u64>` accepts: an optional `+`, then one or more ASCII
/// digits whose value fits in a `u64`.
pub open spec fn spec_parse_u64(s: Seq<char>) -> Option<u64> {
    let body = if s.len() > 0 && s[0] == '+' { s.drop_first() } else { s };
    if body.len() > 0 && all_digits(body) && digits_value(body) <= u64::MAX {
        Some(digits_value(body) as u64)
    } else {
        None
    }
}

/// What parsing a Discord id accepts: a `u64` as `spec_parse_u64` reads it,
/// other than zero.
pub open spec fn spec_parse_id(s: Seq<char>) -> Option<u64> {
    match spec_parse_u64(s) {
        Some(n) => if n != 0 { Some(n) } else { None },
        None => None,
    }
}

proof fn lemma_digits_value_step(s: Seq<char>, i: int)
    requires
        0 <= i < s.len(),
    ensures
        digits_value(s.subrange(0, i + 1)) == digits_value(s.subrange(0, i)) * 10 + digit_value(s[i]),
{
    assert(s.subrange(0, i + 1).drop_last() =~= s.subrange(0, i));
}

proof fn lemma_digits_value_monotone(s: Seq<char>, k: int)
    requires
        0 <= k <= s.len(),
    ensures
        digits_value(s.subrange(0, k)) <= digits_value(s),
    decreases s.len() - k,
{
    if k < s.len() {
        lemma_digits_value_step(s, k);
        lemma_digits_value_monotone(s, k + 1);
    } else {
        assert(s.subrange(0, k) =~= s);
    }
}

proof fn lemma_digit_char(k: int)
    requires
        0 <= k < 10,
    ensures
        is_digit(digit_char(k)),
        digit_value(digit_char(k)) == k,
{
    assert(digit_char(k) as int == 48 + k);
}

/// The decimal rendering of a number is a non-empty run of ASCII digits
/// whose value is the number.
pub proof fn lemma_decimal_digits(n: nat)
    ensures
        decimal(n).len() > 0,
        all_digits(decimal(n)),
        digits_value(decimal(n)) == n,
    decreases n,
{
    lemma_digit_char((n % 10) as int);
    if n < 10 {
        let d = decimal(n);
        assert(d.drop_last() =~= Seq::<char>::empty());
        assert(n % 10 == n);
        assert(digits_value(d) == digits_value(d.drop_last()) * 10 + digit_value(d.last()));
    } else {
        lemma_decimal_digits(n / 10);
        let d = decimal(n);
        assert(d.drop_last() =~= decimal(n / 10));
        assert(n == (n / 10) * 10 + n % 10) by (nonlinear_arith);
        assert(digits_value(d) == digits_value(decimal(n / 10)) * 10 + digit_value(d.last()));
        assert forall|i: int| 0 <= i < d.len() implies is_digit(#[trigger] d[i]) by {
            if i < d.len() - 1 {
                assert(d[i] == decimal(n / 10)[i]);
            }
        }
    }
}

/// Rendering a number in decimal and parsing it back gives the number:
/// `parse_u64(u64_to_string(n)) == Some(n)`.
pub proof fn lemma_parse_u64_of_decimal(n: u64)
    ensures
        spec_parse_u64(decimal(n as nat)) == Some(n),
{
    lemma_decimal_digits(n as nat);
    assert(is_digit(decimal(n as nat)[0]));
}

/// A nonzero id rendered in decimal parses back as the same id:
/// `parse_id(u64_to_string(n)) == Some(n)` for `n != 0`.
pub proof fn lemma_parse_id_of_decimal(n: u64)
    requires
        n != 0,
    ensures
        spec_parse_id(decimal(n as nat)) == Some(n),
{
    lemma_parse_u64_of_decimal(n);
}

/// Parses a `u64` the way `str::parse::<u64>` does.
pub fn parse_u64(s: &str) -> (r: Option<u64>)
    ensures
        r == spec_parse_u64(s@),
{
    let v = chars_of(s);
    let n = v.len();
    let start: usize = if n > 0 && v[0] == '+' { 1 } else { 0 };
    let ghost body = if s@.len() > 0 && s@[0] == '+' { s@.drop_first() } else { s@ };
    assert(body =~= v@.subrange(start as int, n as int));
    if start == n {
        return None;
    }
    let mut acc: u64 = 0;
    let mut i = start;
    while i < n
        invariant
            n == v.len(),
            v@ == s@,
            start <= i <= n,
            body =~= v@.subrange(start as int, n as int),
            body == (if s@.len() > 0 && s@[0] == '+' { s@.drop_first() } else { s@ }),
            all_digits(body.subrange(0, i - start)),
            acc as nat == digits_value(body.subrange(0, i - start)),
        decreases n - i,
    {
        let c = v[i];
        assert(body[i - start] == c);
        if !('0' <= c && c <= '9') {
            assert(!is_digit(body[i - start]));
            assert(!all_digits(body));
            return None;
        }
        let d = ((c as u32) - 48) as u64;
        assert(d == digit_value(c));
        proof {
            lemma_digits_value_step(body, i - start);
            assert(body.subrange(0, i + 1 - start) =~= body.subrange(0, i - start).push(c));
        }
        if acc > (u64::MAX - d) / 10 {
            proof {
                assert(acc * 10 + d > u64::MAX) by (nonlinear_arith)
                    requires acc > (u64::MAX - d) / 10, d <= 9;
                if all_digits(body) {
                    lemma_digits_value_monotone(body, i + 1 - start);
                    assert(digits_value(body.subrange(0, i + 1 - start)) == acc * 10 + d);
                    assert(digits_value(body) > u64::MAX);
                }
            }
            return None;
        }
        acc = acc * 10 + d;
        i = i + 1;
    }
    assert(body.subrange(0, n - start) =~= body);
    Some(acc)
}

/// Parses a Discord id: a nonzero `u64`.
pub fn parse_id(s: &str) -> (r: Option<u64>)
    ensures
        r == spec_parse_id(s@),
{
    match parse_u64(s) {
        Some(n) => if n != 0 { Some(n) } else { None },
        None => None,
    }
}

/// What `str::parse::<i64>` accepts: an optional `+` or `-`, then one or more
/// ASCII digits whose signed value fits in an `i64`.
pub open spec fn spec_parse_i64(s: Seq<char>) -> Option<i64> {
    let neg = s.len() > 0 && s[0] == '-';
    let body = if s.len() > 0 && (s[0] == '-' || s[0] == '+') { s.drop_first() } else { s };
    if body.len() > 0 && all_digits(body) {
        if neg {
            if digits_value(body) <= 0x8000_0000_0000_0000 {
                Some((0 - digits_value(body)) as i64)
            } else {
                None
            }
        } else if digits_value(body) <= i64::MAX {
            Some(digits_value(body) as i64)
        } else {
            None
        }
    } else {
        None
    }
}

/// Parses an `i64` the way `str::parse::<i64>` does.
pub fn parse_i64(s: &str) -> (r: Option<i64>)
    ensures
        r == spec_parse_i64(s@),
{
    let v = chars_of(s);
    let n = v.len();
    let neg = n > 0 && v[0] == '-';
    let start: usize = if n > 0 && (v[0] == '-' || v[0] == '+') { 1 } else { 0 };
    let ghost body = if s@.len() > 0 && (s@[0] == '-' || s@[0] == '+') { s@.drop_first() } else { s@ };
    assert(body =~= v@.subrange(start as int, n as int));
    if start == n {
        return None;
    }
    let c = v[start];
    if !('0' <= c && c <= '9') {
        assert(body[0] == c);
        assert(!is_digit(body[0]));
        return None;
    }
    let digits = slice_chars(&v, start, n);
    let text = string_of(&digits);
    assert(text@ =~= body);
    let m = match parse_u64(text.as_str()) {
        Some(m) => m,
        None => {
            assert(body[0] != '+');
            return None;
        },
    };
    assert(body[0] != '+');
    assert(m as nat == digits_value(body) && all_digits(body));
    if neg {
        if m <= 0x8000_0000_0000_0000 {
            if m == 0x8000_0000_0000_0000 {
                Some(i64::MIN)
            } else {
                let k = m as i64;
                Some(0 - k)
            }
        } else {
            None
        }
    } else if m <= 0x7fff_ffff_ffff_ffff {
        Some(m as i64)
    } else {
        None
    }
}

fn push_decimal(n: u64, v: &mut Vec<char>)
    ensures
        final(v)@ == old(v)@ + decimal(n as nat),
    decreases n,
{
    if n >= 10 {
        push_decimal(n / 10, v);
    }
    let d = (n % 10) as u8;
    let c = (48u8 + d) as char;
    v.push(c);
    proof {
        if n >= 10 {
            assert(old(v)@ + decimal(n as nat) =~= old(v)@ + decimal((n / 10) as nat) + seq![c]);
        } else {
            assert(old(v)@ + decimal(n as nat) =~= old(v)@ + seq![c]);
        }
    }
}

/// The decimal rendering of `n` (`u64::to_string`).
pub fn u64_to_string(n: u64) -> (s: String)
    ensures
        s@ == decimal(n as nat),
{
    let mut v: Vec<char> = Vec::new();
    push_decimal(n, &mut v);
    assert(v@ =~= decimal(n as nat));
    string_of(&v)
}

} // verus!
