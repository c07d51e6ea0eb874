//! Sentences of a text: splitting at `.`, `!` and `?`, trimming whitespace, and
//! counting UTF-8 bytes.

use vstd::prelude::*;
use crate::text::{char_is_whitespace, char_len_utf8, char_utf8_len, chars_of, is_whitespace, string_from_chars, string_views, utf8_len};

verus! {

/// The characters that end a sentence.
pub open spec fn is_terminator(c: char) -> bool {
    c == '.' || c == '!' || c == '?'
}

/// The pieces between sentence terminators, as std's `str::split` with a list of
/// characters yields them: empty pieces included.
pub open spec fn segments(t: Seq<char>) -> Seq<Seq<char>>
    decreases t.len(),
{
    if t.len() == 0 {
        seq![Seq::<char>::empty()]
    } else {
        let p = segments(t.drop_last());
        if is_terminator(t.last()) {
            p.push(Seq::<char>::empty())
        } else {
            p.update(p.len() - 1, p.last().push(t.last()))
        }
    }
}

/// A text without its leading whitespace.
pub open spec fn trim_start(s: Seq<char>) -> Seq<char>
    decreases s.len(),
{
    if s.len() > 0 && is_whitespace(s[0]) {
        trim_start(s.drop_first())
    } else {
        s
    }
}

/// A text without its trailing whitespace.
pub open spec fn trim_end(s: Seq<char>) -> Seq<char>
    decreases s.len(),
{
    if s.len() > 0 && is_whitespace(s.last()) {
        trim_end(s.drop_last())
    } else {
        s
    }
}

/// A text without leading and trailing whitespace, as std's `str::trim` gives it.
pub open spec fn trim_ws(s: Seq<char>) -> Seq<char> {
    trim_end(trim_start(s))
}

/// A piece that is more than whitespace.
pub open spec fn has_text() -> spec_fn(Seq<char>) -> bool {
    |s: Seq<char>| trim_ws(s).len() > 0
}

/// The sentences of a text: its segments that are more than whitespace, untrimmed.
pub open spec fn sentences(t: Seq<char>) -> Seq<Seq<char>> {
    segments(t).filter(has_text())
}

pub proof fn lemma_segments_nonempty(t: Seq<char>)
    ensures
        segments(t).len() >= 1,
    decreases t.len(),
{
    if t.len() > 0 {
        lemma_segments_nonempty(t.drop_last());
    }
}

/// Dropping `a` leading whitespace characters before a non-whitespace one (or the end).
pub proof fn lemma_trim_start(s: Seq<char>, a: int)
    requires
        0 <= a <= s.len(),
        forall|j: int| 0 <= j < a ==> is_whitespace(#[trigger] s[j]),
        a == s.len() || !is_whitespace(s[a]),
    ensures
        trim_start(s) == s.subrange(a, s.len() as int),
    decreases a,
{
    if a == 0 {
        assert(s.subrange(0, s.len() as int) =~= s);
    } else {
        let t = s.drop_first();
        assert forall|j: int| 0 <= j < a - 1 implies is_whitespace(#[trigger] t[j]) by {
            assert(t[j] == s[j + 1]);
        }
        if a - 1 < t.len() {
            assert(t[a - 1] == s[a]);
        }
        lemma_trim_start(t, a - 1);
        assert(t.subrange(a - 1, t.len() as int) =~= s.subrange(a, s.len() as int));
    }
}

/// Dropping the whitespace after position `b` (where the last non-whitespace character
/// ends).
pub proof fn lemma_trim_end(s: Seq<char>, b: int)
    requires
        0 <= b <= s.len(),
        forall|j: int| b <= j < s.len() ==> is_whitespace(#[trigger] s[j]),
        b == 0 || !is_whitespace(s[b - 1]),
    ensures
        trim_end(s) == s.subrange(0, b),
    decreases s.len() - b,
{
    if b == s.len() {
        assert(s.subrange(0, b) =~= s);
    } else {
        let t = s.drop_last();
        assert(is_whitespace(s[s.len() - 1]));
        assert forall|j: int| b <= j < t.len() implies is_whitespace(#[trigger] t[j]) by {
            assert(t[j] == s[j]);
        }
        if b > 0 {
            assert(t[b - 1] == s[b - 1]);
        }
        lemma_trim_end(t, b);
        assert(t.subrange(0, b) =~= s.subrange(0, b));
    }
}

/// The characters of `s` without leading and trailing whitespace.
pub fn trim_chars(s: &Vec<char>) -> (r: Vec<char>)
    ensures
        r@ == trim_ws(s@),
{
    let n = s.len();
    let mut a: usize = 0;
    while a < n && char_is_whitespace(s[a])
        invariant
            a <= n,
            n == s@.len(),
            forall|j: int| 0 <= j < a ==> is_whitespace(#[trigger] s@[j]),
        decreases n - a,
    {
        a = a + 1;
    }
    proof {
        lemma_trim_start(s@, a as int);
    }
    let ghost t = s@.subrange(a as int, n as int);
    let mut b: usize = n;
    while b > a && char_is_whitespace(s[b - 1])
        invariant
            a <= b <= n,
            n == s@.len(),
            t == s@.subrange(a as int, n as int),
            forall|j: int| b <= j < n ==> is_whitespace(#[trigger] s@[j]),
        decreases b - a,
    {
        b = b - 1;
    }
    proof {
        assert forall|j: int| b - a <= j < t.len() implies is_whitespace(#[trigger] t[j]) by {
            assert(t[j] == s@[a + j]);
        }
        if b > a {
            assert(t[b - a - 1] == s@[b - 1]);
        }
        lemma_trim_end(t, b - a);
    }
    let mut r: Vec<char> = Vec::new();
    let mut i: usize = a;
    while i < b
        invariant
            a <= i <= b,
            b <= n,
            n == s@.len(),
            r@ == s@.subrange(a as int, i as int),
        decreases b - i,
    {
        r.push(s[i]);
        i = i + 1;
        assert(r@ =~= s@.subrange(a as int, i as int));
    }
    assert(r@ =~= t.subrange(0, b - a));
    r
}

/// `s` without leading and trailing whitespace.
pub fn trim_str(s: &str) -> (r: String)
    ensures
        r@ == trim_ws(s@),
{
    let cs = chars_of(s);
    let t = trim_chars(&cs);
    string_from_chars(&t)
}

/// The number of UTF-8 bytes of `s`.
pub fn utf8_byte_len(s: &str) -> (n: u128)
    ensures
        n == utf8_len(s@),
        n <= 4 * (usize::MAX as int),
{
    let cs = chars_of(s);
    let mut n: u128 = 0;
    let mut i: usize = 0;
    while i < cs.len()
        invariant
            i <= cs@.len(),
            cs@ == s@,
            n == utf8_len(cs@.take(i as int)),
            n <= 4 * i,
        decreases cs.len() - i,
    {
        let ghost pre = cs@.take(i as int);
        assert(cs@.take(i + 1).drop_last() =~= pre);
        n = n + char_len_utf8(cs[i]) as u128;
        i = i + 1;
    }
    assert(cs@.take(cs@.len() as int) =~= cs@);
    n
}

/// The sentences of `t`, untrimmed, in order.
pub fn split_sentences(t: &str) -> (r: Vec<String>)
    ensures
        string_views(r@) == sentences(t@),
{
    broadcast use vstd::seq::Seq::lemma_filter_push, vstd::seq::Seq::lemma_push_map_commute;

    let cs = chars_of(t);
    let mut out: Vec<String> = Vec::new();
    let mut cur: Vec<char> = Vec::new();
    let mut i: usize = 0;
    proof {
        assert(cs@.subrange(0, 0) =~= Seq::<char>::empty());
        reveal(Seq::filter);
    }
    while i < cs.len()
        invariant
            i <= cs@.len(),
            cs@ == t@,
            segments(cs@.subrange(0, i as int)).len() >= 1,
            cur@ == segments(cs@.subrange(0, i as int)).last(),
            string_views(out@) == segments(cs@.subrange(0, i as int)).drop_last().filter(has_text()),
        decreases cs.len() - i,
    {
        let c = cs[i];
        let ghost prefix = cs@.subrange(0, i as int);
        let ghost p = segments(prefix);
        let ghost next = cs@.subrange(0, i + 1);
        assert(next.drop_last() =~= prefix);
        assert(next.last() == c);
        assert(p =~= p.drop_last().push(p.last()));
        if c == '.' || c == '!' || c == '?' {
            let trimmed = trim_chars(&cur);
            proof {
                let k = has_text();
                assert(p.filter(k) == p.drop_last().push(p.last()).filter(k));
                p.drop_last().lemma_filter_push(p.last(), k);
            }
            if trimmed.len() > 0 {
                let piece = string_from_chars(&cur);
                let ghost old_out = out@;
                out.push(piece);
                proof {
                    assert(string_views(out@) == string_views(old_out).push(piece@));
                }
            }
            proof {
                assert(string_views(out@) == p.filter(has_text()));
                assert(segments(next).drop_last() =~= p);
            }
            cur = Vec::new();
        } else {
            let ghost old_cur = cur@;
            cur.push(c);
            proof {
                assert(segments(next).drop_last() =~= p.drop_last());
            }
        }
        i = i + 1;
    }
    proof {
        assert(cs@.subrange(0, cs@.len() as int) =~= cs@);
        let p = segments(cs@);
        let k = has_text();
        assert(p =~= p.drop_last().push(p.last()));
        p.drop_last().lemma_filter_push(p.last(), k);
        assert(p.filter(k) == p.drop_last().push(p.last()).filter(k));
    }
    let trimmed = trim_chars(&cur);
    if trimmed.len() > 0 {
        let piece = string_from_chars(&cur);
        let ghost old_out = out@;
        out.push(piece);
        proof {
            assert(string_views(out@) == string_views(old_out).push(piece@));
        }
    }
    out
}

} // verus!
