//! Character and string primitives used by the text-processing parts of the library:
//! building strings, Unicode whitespace, ASCII punctuation, UTF-8 lengths, decimal
//! rendering and splitting text into pieces.

use vstd::prelude::*;

verus! {

/// Appends one character to a string (std's `String::push`).
#[verifier::external_body]
pub(crate) fn push_char(s: &mut String, c: char)
    ensures
        final(s)@ == old(s)@.push(c),
{
    s.push(c);
}

/// The lower-case form of a text, as std's `str::to_lowercase` computes it
/// (Unicode case mapping, which tables of many pages define).
pub uninterp spec fn lowercase(s: Seq<char>) -> Seq<char>;

/// The ASCII lower-case form of a character: `A` to `Z` become `a` to `z`; any other
/// character is kept.
pub open spec fn ascii_lower(c: char) -> char {
    if 'A' <= c && c <= 'Z' {
        ((c as u32) + 32) as char
    } else {
        c
    }
}

/// Whether every character of a text is ASCII.
pub open spec fn all_ascii(s: Seq<char>) -> bool {
    forall|i: int| 0 <= i < s.len() ==> (#[trigger] s[i] as u32) < 128
}

/// std's `str::to_lowercase`. Its result is named `lowercase` of the argument. Of an
/// ASCII text, std's documentation and Unicode's case tables give the ASCII lower-case
/// form, character by character (no ASCII character has a longer or context-dependent
/// mapping).
#[verifier::external_body]
pub(crate) fn to_lowercase(s: &str) -> (r: String)
    ensures
        r@ == lowercase(s@),
        all_ascii(s@) ==> r@ == s@.map_values(|c: char| ascii_lower(c)),
{
    s.to_lowercase()
}

/// A string holding exactly the given characters.
pub fn string_from_chars(v: &Vec<char>) -> (r: String)
    ensures
        r@ == v@,
{
    let mut r = String::new();
    let mut i: usize = 0;
    while i < v.len()
        invariant
            i <= v.len(),
            r@ == v@.subrange(0, i as int),
        decreases v.len() - i,
    {
        push_char(&mut r, v[i]);
        i = i + 1;
        assert(r@ =~= v@.subrange(0, i as int));
    }
    assert(v@.subrange(0, v.len() as int) =~= v@);
    r
}

/// The characters of a string, in order.
pub fn chars_of(s: &str) -> (r: Vec<char>)
    ensures
        r@ == s@,
{
    let mut r: Vec<char> = Vec::new();
    for c in it: s.chars()
        invariant
            r@ == it.seq().take(it.index()),
            it.seq() == s@,
    {
        r.push(c);
        assert(it.seq().take(it.index() + 1) =~= it.seq().take(it.index()).push(c));
    }
    assert(s@.take(s@.len() as int) =~= s@);
    r
}

/// Equality of string slices (std's `PartialEq` for `str`): equal when they hold the
/// same characters.
#[verifier::external_body]
pub(crate) fn str_eq(a: &str, b: &str) -> (r: bool)
    ensures
        r == (a@ == b@),
{
    a == b
}

/// A string made of a literal.
pub fn str_to_string(s: &str) -> (r: String)
    ensures
        r@ == s@,
{
    String::from_str(s)
}

/// The White_Space characters of Unicode, which std's `char::is_whitespace` recognizes.
pub open spec fn is_whitespace(c: char) -> bool {
    ||| ('\u{9}' <= c && c <= '\u{d}')
    ||| c == ' '
    ||| c == '\u{85}'
    ||| c == '\u{a0}'
    ||| c == '\u{1680}'
    ||| ('\u{2000}' <= c && c <= '\u{200a}')
    ||| c == '\u{2028}'
    ||| c == '\u{2029}'
    ||| c == '\u{202f}'
    ||| c == '\u{205f}'
    ||| c == '\u{3000}'
}

/// Whether `c` is a White_Space character.
pub fn char_is_whitespace(c: char) -> (b: bool)
    ensures
        b == is_whitespace(c),
{
    ('\u{9}' <= c && c <= '\u{d}') || c == ' ' || c == '\u{85}' || c == '\u{a0}' || c
        == '\u{1680}' || ('\u{2000}' <= c && c <= '\u{200a}') || c == '\u{2028}' || c
        == '\u{2029}' || c == '\u{202f}' || c == '\u{205f}' || c == '\u{3000}'
}

/// The ASCII punctuation characters: `!` to `/`, `:` to `@`, `[` to `` ` `` and `{` to `~`.
pub open spec fn is_ascii_punctuation(c: char) -> bool {
    ||| ('!' <= c && c <= '/')
    ||| (':' <= c && c <= '@')
    ||| ('[' <= c && c <= '`')
    ||| ('{' <= c && c <= '~')
}

/// Whether `c` is ASCII punctuation.
pub fn char_is_ascii_punctuation(c: char) -> (b: bool)
    ensures
        b == is_ascii_punctuation(c),
{
    ('!' <= c && c <= '/') || (':' <= c && c <= '@') || ('[' <= c && c <= '`') || ('{' <= c
        && c <= '~')
}

/// The number of bytes of the UTF-8 encoding of `c`.
pub open spec fn char_utf8_len(c: char) -> nat {
    if (c as u32) < 0x80 {
        1
    } else if (c as u32) < 0x800 {
        2
    } else if (c as u32) < 0x10000 {
        3
    } else {
        4
    }
}

/// The number of bytes of the UTF-8 encoding of a text (what `str::len` returns).
pub open spec fn utf8_len(s: Seq<char>) -> nat
    decreases s.len(),
{
    if s.len() == 0 {
        0
    } else {
        utf8_len(s.drop_last()) + char_utf8_len(s.last())
    }
}

/// The number of UTF-8 bytes of `c`.
pub fn char_len_utf8(c: char) -> (n: usize)
    ensures
        n == char_utf8_len(c),
{
    let u = c as u32;
    if u < 0x80 {
        1
    } else if u < 0x800 {
        2
    } else if u < 0x10000 {
        3
    } else {
        4
    }
}

/// The decimal digit character for `d`.
pub open spec fn digit_char(d: nat) -> char {
    if d == 0 {
        '0'
    } else if d == 1 {
        '1'
    } else if d == 2 {
        '2'
    } else if d == 3 {
        '3'
    } else if d == 4 {
        '4'
    } else if d == 5 {
        '5'
    } else if d == 6 {
        '6'
    } else if d == 7 {
        '7'
    } else if d == 8 {
        '8'
    } else {
        '9'
    }
}

/// The decimal notation of a natural number, without leading zeros.
pub open spec fn nat_decimal(n: nat) -> Seq<char>
    decreases n,
{
    if n < 10 {
        seq![digit_char(n)]
    } else {
        nat_decimal(n / 10).push(digit_char(n % 10))
    }
}

/// The decimal notation of an integer, with a leading `-` when negative.
pub open spec fn int_decimal(n: int) -> Seq<char> {
    if n < 0 {
        seq!['-'] + nat_decimal((-n) as nat)
    } else {
        nat_decimal(n as nat)
    }
}

fn digit(d: u64) -> (c: char)
    requires
        d < 10,
    ensures
        c == digit_char(d as nat),
{
    if d == 0 {
        '0'
    } else if d == 1 {
        '1'
    } else if d == 2 {
        '2'
    } else if d == 3 {
        '3'
    } else if d == 4 {
        '4'
    } else if d == 5 {
        '5'
    } else if d == 6 {
        '6'
    } else if d == 7 {
        '7'
    } else if d == 8 {
        '8'
    } else {
        '9'
    }
}

/// Appends the decimal notation of `n`.
pub fn push_u64_decimal(s: &mut String, n: u64)
    ensures
        final(s)@ == old(s)@ + nat_decimal(n as nat),
    decreases n,
{
    if n >= 10 {
        push_u64_decimal(s, n / 10);
    }
    push_char(s, digit(n % 10));
    assert(final(s)@ =~= old(s)@ + nat_decimal(n as nat));
}

/// Appends the decimal notation of `n`, as `{}` formats an `i64`.
pub fn push_i64_decimal(s: &mut String, n: i64)
    ensures
        final(s)@ == old(s)@ + int_decimal(n as int),
{
    if n < 0 {
        push_char(s, '-');
        let m: u64 = if n == i64::MIN {
            9223372036854775808u64
        } else {
            (-n) as u64
        };
        push_u64_decimal(s, m);
        assert(final(s)@ =~= old(s)@ + int_decimal(n as int));
    } else {
        push_u64_decimal(s, n as u64);
    }
}

/// Appends a string slice.
pub fn push_str(s: &mut String, t: &str)
    ensures
        final(s)@ == old(s)@ + t@,
{
    s.append(t);
}

/// Whether a text equals `k`.
pub open spec fn eq_to(k: Seq<char>) -> spec_fn(Seq<char>) -> bool {
    |x: Seq<char>| x == k
}

/// How many times each text occurs in `vs`.
pub open spec fn occurrences(vs: Seq<Seq<char>>) -> Map<Seq<char>, nat> {
    Map::new(|k: Seq<char>| vs.contains(k), |k: Seq<char>| vs.filter(eq_to(k)).len())
}

/// The pairs of a tally, as texts and counts.
pub open spec fn tally_entries(v: Seq<(String, usize)>) -> Seq<(Seq<char>, nat)> {
    v.map_values(|e: (String, usize)| (e.0@, e.1 as nat))
}

/// A text that does not occur is counted zero times.
pub proof fn lemma_filter_absent(s: Seq<Seq<char>>, x: Seq<char>)
    requires
        !s.contains(x),
    ensures
        s.filter(eq_to(x)).len() == 0,
    decreases s.len(),
{
    if s.len() == 0 {
        assert(s.filter(eq_to(x)) =~= Seq::<Seq<char>>::empty()) by {
            reveal(Seq::filter);
        }
    } else {
        let t = s.drop_last();
        assert(s =~= t.push(s.last()));
        assert(!t.contains(x)) by {
            if t.contains(x) {
                let a = choose|a: int| 0 <= a < t.len() && t[a] == x;
                assert(s[a] == x);
            }
        }
        assert(s.last() != x) by {
            assert(s[s.len() - 1] == s.last());
        }
        lemma_filter_absent(t, x);
        t.lemma_filter_push(s.last(), eq_to(x));
    }
}

/// A text counted at least once occurs.
pub proof fn lemma_filter_absent_converse(s: Seq<Seq<char>>, x: Seq<char>)
    ensures
        s.contains(x) <==> s.filter(eq_to(x)).len() > 0,
{
    if !s.contains(x) {
        lemma_filter_absent(s, x);
    } else {
        let i = choose|i: int| 0 <= i < s.len() && s[i] == x;
        s.lemma_filter_contains(eq_to(x), i);
    }
}

/// The position of the pair whose string is `k`, if any.
fn tally_position(out: &Vec<(String, usize)>, k: &str) -> (r: Option<usize>)
    ensures
        match r {
            Some(j) => j < out@.len() && out@[j as int].0@ == k@,
            None => forall|a: int| 0 <= a < out@.len() ==> #[trigger] out@[a].0@ != k@,
        },
{
    let mut j: usize = 0;
    while j < out.len()
        invariant
            j <= out@.len(),
            forall|a: int| 0 <= a < j ==> #[trigger] out@[a].0@ != k@,
        decreases out.len() - j,
    {
        if str_eq(out[j].0.as_str(), k) {
            return Some(j);
        }
        j = j + 1;
    }
    None
}

/// Counts the occurrences of each distinct string of `vs`, one pair per string.
pub fn count_occurrences(vs: &Vec<String>) -> (r: Vec<(String, usize)>)
    ensures
        crate::keyed::unique_keys(tally_entries(r@)),
        crate::keyed::map_of(tally_entries(r@)) == occurrences(string_views(vs@)),
{
    let ghost views = string_views(vs@);
    let mut out: Vec<(String, usize)> = Vec::new();
    let mut i: usize = 0;
    proof {
        crate::keyed::lemma_map_of_empty(tally_entries(out@));
        assert(occurrences(views.take(0)) =~= Map::<Seq<char>, nat>::empty());
    }
    while i < vs.len()
        invariant
            i <= vs@.len(),
            views == string_views(vs@),
            crate::keyed::unique_keys(tally_entries(out@)),
            crate::keyed::map_of(tally_entries(out@)) == occurrences(views.take(i as int)),
            forall|j: int| 0 <= j < out@.len() ==> #[trigger] out@[j].1 <= i,
        decreases vs.len() - i,
    {
        let ghost es = tally_entries(out@);
        let ghost pre = views.take(i as int);
        let ghost x = views[i as int];
        assert(views.take(i + 1) =~= pre.push(x));
        assert(vs@[i as int]@ == x);
        let ghost target = occurrences(pre.push(x));
        let pos = tally_position(&out, vs[i].as_str());
        proof {
            assert forall|k: Seq<char>| #[trigger] target.dom().contains(k) == (pre.contains(k) || k == x) by {
                if pre.push(x).contains(k) && k != x {
                    let a = choose|a: int| 0 <= a < pre.push(x).len() && pre.push(x)[a] == k;
                    assert(a < pre.len());
                    assert(pre[a] == k);
                }
                if pre.contains(k) {
                    let a = choose|a: int| 0 <= a < pre.len() && pre[a] == k;
                    assert(pre.push(x)[a] == k);
                }
                if k == x {
                    assert(pre.push(x)[pre.len() as int] == x);
                }
            }
            assert forall|k: Seq<char>| #[trigger] target.dom().contains(k) implies target[k] == pre.filter(eq_to(k)).len() + (if k == x { 1nat } else { 0nat }) by {
                pre.lemma_filter_push(x, eq_to(k));
            }
        }
        if let Some(j) = pos {
            let ghost before = out@;
            let c = out[j].1;
            let key = out[j].0.clone();
            out.set(j, (key, c + 1));
            proof {
                assert(es[j as int].0 == x);
                assert(tally_entries(out@) =~= es.update(j as int, (x, (c + 1) as nat)));
                crate::keyed::lemma_map_of_update(es, j as int, (c + 1) as nat);
                crate::keyed::lemma_map_of_index(es, j as int);
                let m0 = occurrences(pre);
                let m1 = crate::keyed::map_of(tally_entries(out@));
                assert(m0.dom().contains(x));
                assert(m0[x] == c);
                assert forall|k: Seq<char>| #[trigger] m1.dom().contains(k) == target.dom().contains(k) by {
                    assert(m1.dom().contains(k) == (m0.dom().contains(k) || k == x));
                    assert(m0.dom().contains(k) == pre.contains(k));
                }
                assert forall|k: Seq<char>| #[trigger] m1.dom().contains(k) implies m1[k] == target[k] by {
                    if k != x {
                        assert(m1[k] == m0[k]);
                        assert(m0[k] == pre.filter(eq_to(k)).len());
                    }
                }
                assert(m1 =~= target);
                assert forall|a: int| 0 <= a < out@.len() implies #[trigger] out@[a].1 <= i + 1 by {
                    if a != j {
                        assert(out@[a] == before[a]);
                    }
                }
            }
        } else {
            let key = vs[i].clone();
            out.push((key, 1));
            proof {
                assert(tally_entries(out@) =~= es.push((x, 1nat)));
                assert(!crate::keyed::has_key(es, x)) by {
                    if crate::keyed::has_key(es, x) {
                        let a = choose|a: int| 0 <= a < es.len() && es[a].0 == x;
                        assert(out@[a].0@ == es[a].0);
                    }
                }
                crate::keyed::lemma_map_of_push(es, x, 1nat);
                assert(!crate::keyed::map_of(es).dom().contains(x));
                assert(!pre.contains(x));
                lemma_filter_absent(pre, x);
                let m0 = occurrences(pre);
                let m1 = crate::keyed::map_of(tally_entries(out@));
                assert forall|k: Seq<char>| #[trigger] m1.dom().contains(k) == target.dom().contains(k) by {
                    assert(m1.dom().contains(k) == (m0.dom().contains(k) || k == x));
                    assert(m0.dom().contains(k) == pre.contains(k));
                }
                assert forall|k: Seq<char>| #[trigger] m1.dom().contains(k) implies m1[k] == target[k] by {
                    if k != x {
                        assert(m1[k] == m0[k]);
                        assert(m0[k] == pre.filter(eq_to(k)).len());
                    }
                }
                assert(m1 =~= target);
            }
        }
        i = i + 1;
    }
    proof {
        assert(views.take(vs@.len() as int) =~= views);
    }
    out
}

/// The distinct strings of `vs`, each once.
pub fn distinct_strings(vs: &Vec<String>) -> (r: Vec<String>)
    ensures
        string_views(r@).no_duplicates(),
        string_views(r@).to_set() == string_views(vs@).to_set(),
{
    let ghost views = string_views(vs@);
    let mut out: Vec<String> = Vec::new();
    let mut i: usize = 0;
    proof {
        assert(string_views(out@).to_set() =~= views.take(0).to_set());
    }
    while i < vs.len()
        invariant
            i <= vs@.len(),
            views == string_views(vs@),
            string_views(out@).no_duplicates(),
            string_views(out@).to_set() == views.take(i as int).to_set(),
        decreases vs.len() - i,
    {
        let ghost before = string_views(out@);
        let ghost x = views[i as int];
        assert(vs@[i as int]@ == x);
        proof {
            assert(views.take(i + 1) =~= views.take(i as int).push(x));
            views.take(i as int).lemma_push_to_set_commute(x);
        }
        if !strings_contain(&out, vs[i].as_str()) {
            let s = vs[i].clone();
            out.push(s);
            proof {
                assert(string_views(out@) =~= before.push(x));
                before.lemma_push_to_set_commute(x);
                assert(!before.contains(x));
                assert forall|a: int, b: int| 0 <= a < string_views(out@).len() && 0 <= b < string_views(out@).len() && a != b
                    implies string_views(out@)[a] != string_views(out@)[b] by {
                    if a < before.len() && b < before.len() {
                    } else if a < before.len() {
                        assert(before[a] != x) by { if before[a] == x { assert(before.contains(x)); } }
                    } else {
                        assert(before[b] != x) by { if before[b] == x { assert(before.contains(x)); } }
                    }
                }
            }
        } else {
            proof {
                assert(before.contains(x));
                assert(before.to_set().contains(x));
                assert(views.take(i + 1).to_set() =~= before.to_set());
            }
        }
        i = i + 1;
    }
    proof {
        assert(views.take(vs@.len() as int) =~= views);
    }
    out
}

/// Whether `c` is an ASCII decimal digit.
pub open spec fn is_digit(c: char) -> bool {
    '0' <= c && c <= '9'
}

/// The value of a string of decimal digits.
pub open spec fn digits_value(s: Seq<char>) -> int
    decreases s.len(),
{
    if s.len() == 0 {
        0
    } else {
        digits_value(s.drop_last()) * 10 + (s.last() as int - '0' as int)
    }
}

/// Whether every character of `d` is a decimal digit.
pub open spec fn all_digits(d: Seq<char>) -> bool {
    forall|i: int| 0 <= i < d.len() ==> is_digit(#[trigger] d[i])
}

/// `s` without its leading `+` or `-`, where it has one.
pub open spec fn unsigned_part(s: Seq<char>) -> Seq<char> {
    if s.len() > 0 && (s[0] == '-' || s[0] == '+') {
        s.drop_first()
    } else {
        s
    }
}

/// What std's `str::parse::<i64>` accepts: an optional `+` or `-`, then one or more
/// decimal digits, whose value fits in an `i64`.
pub open spec fn parse_i64_spec(s: Seq<char>) -> Option<i64> {
    let d = unsigned_part(s);
    let v = if s.len() > 0 && s[0] == '-' { -digits_value(d) } else { digits_value(d) };
    if d.len() == 0 || !all_digits(d) {
        None
    } else if i64::MIN <= v && v <= i64::MAX {
        Some(v as i64)
    } else {
        None
    }
}

proof fn lemma_digits_value_nonnegative(s: Seq<char>)
    requires
        forall|i: int| 0 <= i < s.len() ==> is_digit(#[trigger] s[i]),
    ensures
        digits_value(s) >= 0,
    decreases s.len(),
{
    if s.len() > 0 {
        lemma_digits_value_nonnegative(s.drop_last());
    }
}

proof fn lemma_digits_value_prefix(s: Seq<char>, k: int)
    requires
        0 <= k <= s.len(),
        forall|i: int| 0 <= i < s.len() ==> is_digit(#[trigger] s[i]),
    ensures
        digits_value(s.take(k)) <= digits_value(s),
    decreases s.len() - k,
{
    if k < s.len() {
        lemma_digits_value_prefix(s, k + 1);
        assert(s.take(k + 1).drop_last() =~= s.take(k));
        lemma_digits_value_nonnegative(s.take(k));
    } else {
        assert(s.take(k) =~= s);
    }
}

/// Reads a decimal `i64` the way std's `str::parse::<i64>` does: an optional `+` or `-`,
/// then one or more decimal digits whose value fits.
pub fn parse_i64(s: &str) -> (r: Option<i64>)
    ensures
        r == parse_i64_spec(s@),
{
    let cs = chars_of(s);
    let n = cs.len();
    let negative = n > 0 && cs[0] == '-';
    let start: usize = if n > 0 && (cs[0] == '-' || cs[0] == '+') { 1 } else { 0 };
    let ghost d = if start == 1 { s@.drop_first() } else { s@ };
    assert(d =~= s@.subrange(start as int, n as int));
    assert(d == unsigned_part(s@));
    assert(negative == (s@.len() > 0 && s@[0] == '-'));
    if start == n {
        return None;
    }
    let mut acc: u128 = 0;
    let mut i: usize = start;
    while i < n
        invariant
            cs@ == s@,
            n == cs@.len(),
            start <= i <= n,
            d == s@.subrange(start as int, n as int),
            d == unsigned_part(s@),
            negative == (s@.len() > 0 && s@[0] == '-'),
            forall|j: int| 0 <= j < i - start ==> is_digit(#[trigger] d[j]),
            acc == digits_value(d.take(i - start)),
            acc <= 0x8000_0000_0000_0000,
        decreases n - i,
    {
        let c = cs[i];
        if !('0' <= c && c <= '9') {
            assert(!is_digit(d[i - start]));
            assert(!all_digits(d));
            return None;
        }
        proof {
            assert(d.take(i - start + 1).drop_last() =~= d.take(i - start));
            assert(d.take(i - start + 1).last() == c);
        }
        acc = acc * 10 + ((c as u32) - ('0' as u32)) as u128;
        i = i + 1;
        if acc > 0x8000_0000_0000_0000 {
            proof {
                if all_digits(d) {
                    lemma_digits_value_prefix(d, i - start);
                }
            }
            return None;
        }
    }
    assert(d.take(n - start) =~= d);
    if negative {
        if acc == 0x8000_0000_0000_0000 {
            Some(i64::MIN)
        } else {
            let m: i64 = acc as i64;
            Some(-m)
        }
    } else if acc <= 0x7fff_ffff_ffff_ffff {
        Some(acc as i64)
    } else {
        None
    }
}

/// A copy of a list of string pairs.
pub fn clone_pairs(v: &Vec<(String, String)>) -> (r: Vec<(String, String)>)
    ensures
        r@.map_values(|e: (String, String)| (e.0@, e.1@)) == v@.map_values(|e: (String, String)| (e.0@, e.1@)),
{
    let mut out: Vec<(String, String)> = Vec::new();
    let mut i: usize = 0;
    while i < v.len()
        invariant
            i <= v@.len(),
            out@.map_values(|e: (String, String)| (e.0@, e.1@)) == v@.map_values(|e: (String, String)| (e.0@, e.1@)).take(i as int),
        decreases v.len() - i,
    {
        let ghost before = out@;
        out.push((v[i].0.clone(), v[i].1.clone()));
        proof {
            assert(out@.map_values(|e: (String, String)| (e.0@, e.1@)) =~= before.map_values(|e: (String, String)| (e.0@, e.1@)).push((v@[i as int].0@, v@[i as int].1@)));
            assert(v@.map_values(|e: (String, String)| (e.0@, e.1@)).take(i + 1) =~= v@.map_values(|e: (String, String)| (e.0@, e.1@)).take(i as int).push((v@[i as int].0@, v@[i as int].1@)));
        }
        i = i + 1;
    }
    assert(v@.map_values(|e: (String, String)| (e.0@, e.1@)).take(v@.len() as int) =~= v@.map_values(|e: (String, String)| (e.0@, e.1@)));
    out
}

/// The lower-case hexadecimal digit character for `d`.
pub open spec fn hex_digit_char(d: nat) -> char {
    if d < 10 {
        digit_char(d)
    } else if d == 10 {
        'a'
    } else if d == 11 {
        'b'
    } else if d == 12 {
        'c'
    } else if d == 13 {
        'd'
    } else if d == 14 {
        'e'
    } else {
        'f'
    }
}

/// The lower-case hexadecimal notation of a natural number, without leading zeros (as
/// `{:x}` formats it).
pub open spec fn nat_hex(n: nat) -> Seq<char>
    decreases n,
{
    if n < 16 {
        seq![hex_digit_char(n)]
    } else {
        nat_hex(n / 16).push(hex_digit_char(n % 16))
    }
}

fn hex_digit(d: u64) -> (c: char)
    requires
        d < 16,
    ensures
        c == hex_digit_char(d as nat),
{
    if d < 10 {
        digit(d)
    } else if d == 10 {
        'a'
    } else if d == 11 {
        'b'
    } else if d == 12 {
        'c'
    } else if d == 13 {
        'd'
    } else if d == 14 {
        'e'
    } else {
        'f'
    }
}

/// Appends the lower-case hexadecimal notation of `n`.
pub fn push_u64_hex(s: &mut String, n: u64)
    ensures
        final(s)@ == old(s)@ + nat_hex(n as nat),
    decreases n,
{
    if n >= 16 {
        push_u64_hex(s, n / 16);
    }
    push_char(s, hex_digit(n % 16));
    assert(final(s)@ =~= old(s)@ + nat_hex(n as nat));
}

/// A text with each `from` character replaced by `to`.
pub open spec fn replace_char(s: Seq<char>, from: char, to: char) -> Seq<char> {
    s.map_values(|c: char| if c == from { to } else { c })
}

/// `s` with each `from` character replaced by `to` (std's `str::replace` with
/// one-character pattern and replacement gives the same).
pub fn replace_chars(s: &str, from: char, to: char) -> (r: String)
    ensures
        r@ == replace_char(s@, from, to),
{
    let cs = chars_of(s);
    let mut out = String::new();
    let mut i: usize = 0;
    while i < cs.len()
        invariant
            i <= cs@.len(),
            cs@ == s@,
            out@ == replace_char(cs@.take(i as int), from, to),
        decreases cs.len() - i,
    {
        let c = cs[i];
        push_char(&mut out, if c == from { to } else { c });
        proof {
            assert(replace_char(cs@.take(i + 1), from, to) =~= replace_char(cs@.take(i as int), from, to).push(if c == from { to } else { c }));
        }
        i = i + 1;
    }
    assert(cs@.take(cs@.len() as int) =~= cs@);
    out
}

/// Lines joined with a newline between each two (`join("\n")`).
pub open spec fn join_lines(lines: Seq<Seq<char>>) -> Seq<char>
    decreases lines.len(),
{
    if lines.len() == 0 {
        Seq::empty()
    } else if lines.len() == 1 {
        lines[0]
    } else {
        join_lines(lines.drop_last()) + "\n"@ + lines.last()
    }
}

/// Lexicographic order of texts by code point, as `Ord` orders `String`s.
pub open spec fn seq_lt(a: Seq<char>, b: Seq<char>) -> bool
    decreases a.len(),
{
    if a.len() == 0 {
        b.len() > 0
    } else if b.len() == 0 {
        false
    } else if a[0] != b[0] {
        a[0] < b[0]
    } else {
        seq_lt(a.drop_first(), b.drop_first())
    }
}

/// The order is transitive.
pub proof fn lemma_seq_lt_transitive(a: Seq<char>, b: Seq<char>, c: Seq<char>)
    requires
        seq_lt(a, b),
        seq_lt(b, c),
    ensures
        seq_lt(a, c),
    decreases a.len(),
{
    if a.len() > 0 && b.len() > 0 && c.len() > 0 && a[0] == b[0] && b[0] == c[0] {
        lemma_seq_lt_transitive(a.drop_first(), b.drop_first(), c.drop_first());
    }
}

/// Of two different texts one comes first, and never both.
pub proof fn lemma_seq_lt_total(a: Seq<char>, b: Seq<char>)
    ensures
        a != b ==> (seq_lt(a, b) || seq_lt(b, a)),
        !(seq_lt(a, b) && seq_lt(b, a)),
        !seq_lt(a, a),
    decreases a.len(),
{
    if a.len() > 0 && b.len() > 0 && a[0] == b[0] {
        lemma_seq_lt_total(a.drop_first(), b.drop_first());
        if a != b {
            assert(a =~= seq![a[0]] + a.drop_first());
            assert(b =~= seq![b[0]] + b.drop_first());
        }
    }
    if a.len() > 0 {
        lemma_seq_lt_total(a.drop_first(), a.drop_first());
    }
    if a.len() == 0 && b.len() == 0 {
        assert(a =~= b);
    }
}

/// Comparing after an equal prefix of length `i`.
proof fn lemma_seq_lt_skip(a: Seq<char>, b: Seq<char>, i: int)
    requires
        0 <= i <= a.len(),
        i <= b.len(),
        a.take(i) == b.take(i),
    ensures
        seq_lt(a, b) == seq_lt(a.skip(i), b.skip(i)),
    decreases i,
{
    if i > 0 {
        assert(a[0] == a.take(i)[0]);
        assert(b[0] == b.take(i)[0]);
        assert(a.drop_first().take(i - 1) =~= a.take(i).drop_first());
        assert(b.drop_first().take(i - 1) =~= b.take(i).drop_first());
        lemma_seq_lt_skip(a.drop_first(), b.drop_first(), i - 1);
        assert(a.drop_first().skip(i - 1) =~= a.skip(i));
        assert(b.drop_first().skip(i - 1) =~= b.skip(i));
    } else {
        assert(a.skip(0) =~= a);
        assert(b.skip(0) =~= b);
    }
}

/// Whether `a` comes before `b` in `Ord` order.
pub fn str_lt(a: &str, b: &str) -> (r: bool)
    ensures
        r == seq_lt(a@, b@),
{
    let ca = chars_of(a);
    let cb = chars_of(b);
    let mut i: usize = 0;
    while i < ca.len() && i < cb.len() && ca[i] == cb[i]
        invariant
            i <= ca@.len(),
            i <= cb@.len(),
            ca@ == a@,
            cb@ == b@,
            ca@.take(i as int) == cb@.take(i as int),
        decreases ca.len() - i,
    {
        assert(ca@.take(i + 1) =~= ca@.take(i as int).push(ca@[i as int]));
        assert(cb@.take(i + 1) =~= cb@.take(i as int).push(cb@[i as int]));
        i = i + 1;
    }
    proof {
        lemma_seq_lt_skip(ca@, cb@, i as int);
        let sa = ca@.skip(i as int);
        let sb = cb@.skip(i as int);
        if sa.len() > 0 && sb.len() > 0 {
            assert(sa[0] == ca@[i as int]);
            assert(sb[0] == cb@[i as int]);
        }
    }
    if i == ca.len() {
        i < cb.len()
    } else if i == cb.len() {
        false
    } else {
        ca[i] < cb[i]
    }
}

/// Distinct strings in `Ord` order.
pub open spec fn strictly_sorted(v: Seq<Seq<char>>) -> bool {
    forall|a: int, b: int| 0 <= a < b < v.len() ==> seq_lt(#[trigger] v[a], #[trigger] v[b])
}

/// The distinct strings of `vs`, each once, in `Ord` order.
pub fn sorted_distinct(vs: &Vec<String>) -> (r: Vec<String>)
    ensures
        strictly_sorted(string_views(r@)),
        string_views(r@).to_set() == string_views(vs@).to_set(),
{
    let d = distinct_strings(vs);
    let mut out: Vec<String> = Vec::new();
    let mut i: usize = 0;
    proof {
        assert(string_views(out@).to_set() =~= string_views(d@).take(0).to_set());
    }
    while i < d.len()
        invariant
            i <= d@.len(),
            string_views(d@).no_duplicates(),
            strictly_sorted(string_views(out@)),
            string_views(out@).to_set() == string_views(d@).take(i as int).to_set(),
            string_views(out@).len() == i,
        decreases d.len() - i,
    {
        let ghost dv = string_views(d@);
        let ghost x = dv[i as int];
        let ghost ov = string_views(out@);
        assert(d@[i as int]@ == x);
        assert(!ov.contains(x)) by {
            if ov.contains(x) {
                assert(ov.to_set().contains(x));
                assert(dv.take(i as int).to_set().contains(x));
                let j = choose|j: int| 0 <= j < dv.take(i as int).len() && dv.take(i as int)[j] == x;
                assert(dv[j] == x);
            }
        }
        let mut p: usize = 0;
        while p < out.len() && str_lt(out[p].as_str(), d[i].as_str())
            invariant
                p <= out@.len(),
                i < d@.len(),
                ov == string_views(out@),
                x == d@[i as int]@,
                forall|k: int| 0 <= k < p ==> seq_lt(#[trigger] ov[k], x),
            decreases out.len() - p,
        {
            assert(ov[p as int] == out@[p as int]@);
            p = p + 1;
        }
        proof {
            assert forall|k: int| p <= k < ov.len() implies seq_lt(x, #[trigger] ov[k]) by {
                assert(ov[p as int] == out@[p as int]@);
                assert(!seq_lt(ov[p as int], x));
                lemma_seq_lt_total(ov[p as int], x);
                assert(ov[p as int] != x) by {
                    if ov[p as int] == x {
                        assert(ov.contains(x));
                    }
                }
                if k > p {
                    lemma_seq_lt_transitive(x, ov[p as int], ov[k]);
                }
            }
        }
        let s = d[i].clone();
        out.insert(p, s);
        proof {
            let nv = string_views(out@);
            assert(nv =~= ov.insert(p as int, x));
            assert forall|a: int, b: int| 0 <= a < b < nv.len() implies seq_lt(#[trigger] nv[a], #[trigger] nv[b]) by {
                if a < p && b < p {
                    assert(nv[a] == ov[a] && nv[b] == ov[b]);
                } else if a < p && b == p {
                    assert(nv[a] == ov[a]);
                } else if a < p {
                    assert(nv[a] == ov[a] && nv[b] == ov[b - 1]);
                } else if a == p {
                    assert(nv[b] == ov[b - 1]);
                } else {
                    assert(nv[a] == ov[a - 1] && nv[b] == ov[b - 1]);
                }
            }
            assert(dv.take(i + 1) =~= dv.take(i as int).push(x));
            dv.take(i as int).lemma_push_to_set_commute(x);
            assert(nv.to_set() =~= ov.to_set().insert(x)) by {
                assert forall|y: Seq<char>| nv.to_set().contains(y) <==> ov.to_set().insert(x).contains(y) by {
                    if nv.contains(y) {
                        let j = choose|j: int| 0 <= j < nv.len() && nv[j] == y;
                        if j < p {
                            assert(ov[j] == y);
                        } else if j > p {
                            assert(ov[j - 1] == y);
                        }
                    }
                    if ov.contains(y) {
                        let j = choose|j: int| 0 <= j < ov.len() && ov[j] == y;
                        if j < p {
                            assert(nv[j] == y);
                        } else {
                            assert(nv[j + 1] == y);
                        }
                    }
                    if y == x {
                        assert(nv[p as int] == x);
                    }
                }
            }
        }
        i = i + 1;
    }
    assert(string_views(d@).take(d@.len() as int) =~= string_views(d@));
    out
}

/// Whether `c` separates pieces of text: whitespace, and ASCII punctuation too when
/// `punct` holds.
pub open spec fn is_separator(c: char, punct: bool) -> bool {
    is_whitespace(c) || (punct && is_ascii_punctuation(c))
}

/// The pieces between separators, as std's `str::split` with a character predicate
/// yields them: empty pieces included, one more piece than there are separators.
pub open spec fn pieces(t: Seq<char>, punct: bool) -> Seq<Seq<char>>
    decreases t.len(),
{
    if t.len() == 0 {
        seq![Seq::<char>::empty()]
    } else {
        let p = pieces(t.drop_last(), punct);
        if is_separator(t.last(), punct) {
            p.push(Seq::<char>::empty())
        } else {
            p.update(p.len() - 1, p.last().push(t.last()))
        }
    }
}

/// A piece is kept when it is not empty and its UTF-8 encoding has at least `min_bytes` bytes.
pub open spec fn keep_piece(min_bytes: nat) -> spec_fn(Seq<char>) -> bool {
    |p: Seq<char>| p.len() > 0 && utf8_len(p) >= min_bytes
}

/// The kept pieces of `t`, in order.
pub open spec fn split_kept(t: Seq<char>, punct: bool, min_bytes: nat) -> Seq<Seq<char>> {
    pieces(t, punct).filter(keep_piece(min_bytes))
}

/// The views of a vector of strings.
pub open spec fn string_views(v: Seq<String>) -> Seq<Seq<char>> {
    v.map_values(|s: String| s@)
}

pub proof fn lemma_pieces_nonempty(t: Seq<char>, punct: bool)
    ensures
        pieces(t, punct).len() >= 1,
    decreases t.len(),
{
    if t.len() > 0 {
        lemma_pieces_nonempty(t.drop_last(), punct);
    }
}

/// Splits `t` at separators (whitespace, and ASCII punctuation when `punct` holds) and
/// keeps the non-empty pieces of at least `min_bytes` UTF-8 bytes.
pub fn split_text(t: &Vec<char>, punct: bool, min_bytes: usize) -> (r: Vec<String>)
    ensures
        string_views(r@) == split_kept(t@, punct, min_bytes as nat),
{
    broadcast use vstd::seq::Seq::lemma_filter_push, vstd::seq::Seq::lemma_push_map_commute;

    let mut out: Vec<String> = Vec::new();
    let mut cur: Vec<char> = Vec::new();
    let mut cur_bytes: usize = 0;
    let mut i: usize = 0;
    proof {
        assert(t@.subrange(0, 0) =~= Seq::<char>::empty());
    }
    while i < t.len()
        invariant
            i <= t.len(),
            pieces(t@.subrange(0, i as int), punct).len() >= 1,
            cur@ == pieces(t@.subrange(0, i as int), punct).last(),
            cur_bytes <= min_bytes,
            cur_bytes == min_bytes <==> utf8_len(cur@) >= min_bytes,
            cur_bytes < min_bytes ==> cur_bytes == utf8_len(cur@),
            string_views(out@) == pieces(t@.subrange(0, i as int), punct).drop_last().filter(
                keep_piece(min_bytes as nat),
            ),
        decreases t.len() - i,
    {
        let c = t[i];
        let ghost prefix = t@.subrange(0, i as int);
        let ghost p = pieces(prefix, punct);
        let ghost next = t@.subrange(0, i + 1);
        assert(next.drop_last() =~= prefix);
        assert(next.last() == c);
        assert(p =~= p.drop_last().push(p.last()));
        if char_is_whitespace(c) || (punct && char_is_ascii_punctuation(c)) {
            proof {
                let k = keep_piece(min_bytes as nat);
                assert(p.filter(k) == p.drop_last().push(p.last()).filter(k));
                assert(k(cur@) == (cur@.len() > 0 && utf8_len(cur@) >= min_bytes));
                assert(string_views(out@) == p.drop_last().filter(k));
                assert(cur@ == p.last());
                p.drop_last().lemma_filter_push(p.last(), k);
                if k(p.last()) {
                    assert(p.filter(k) == p.drop_last().filter(k).push(p.last()));
                } else {
                    assert(p.filter(k) == p.drop_last().filter(k));
                }
            }
            if cur.len() > 0 && cur_bytes == min_bytes {
                let piece = string_from_chars(&cur);
                let ghost old_out = out@;
                out.push(piece);
                proof {
                    assert(out@ == old_out.push(piece));
                    assert(string_views(out@) == string_views(old_out).push(piece@));
                }
            }
            proof {
                assert(string_views(out@) == p.filter(keep_piece(min_bytes as nat)));
                assert(pieces(next, punct).drop_last() =~= p);
            }
            cur = Vec::new();
            cur_bytes = 0;
            proof {
                assert(utf8_len(cur@) == 0);
            }
        } else {
            let clen = char_len_utf8(c);
            if clen >= min_bytes - cur_bytes {
                cur_bytes = min_bytes;
            } else {
                cur_bytes = cur_bytes + clen;
            }
            let ghost old_cur = cur@;
            cur.push(c);
            proof {
                assert(cur@.drop_last() =~= old_cur);
                assert(utf8_len(cur@) == utf8_len(old_cur) + char_utf8_len(c));
                assert(pieces(next, punct).drop_last() =~= p.drop_last());
            }
        }
        i = i + 1;
    }
    proof {
        assert(t@.subrange(0, t.len() as int) =~= t@);
        let p = pieces(t@, punct);
        let k = keep_piece(min_bytes as nat);
        assert(p =~= p.drop_last().push(p.last()));
        p.drop_last().lemma_filter_push(p.last(), k);
        assert(p.filter(k) == p.drop_last().push(p.last()).filter(k));
        assert(k(cur@) == (cur@.len() > 0 && utf8_len(cur@) >= min_bytes));
    }
    if cur.len() > 0 && cur_bytes == min_bytes {
        let piece = string_from_chars(&cur);
        let ghost old_out = out@;
        out.push(piece);
        proof {
            assert(out@ == old_out.push(piece));
            assert(string_views(out@) == string_views(old_out).push(piece@));
        }
    }
    out
}

/// A copy of a vector of strings.
pub fn clone_strings(v: &Vec<String>) -> (r: Vec<String>)
    ensures
        string_views(r@) == string_views(v@),
        r@.len() == v@.len(),
{
    let mut r: Vec<String> = Vec::new();
    let mut i: usize = 0;
    while i < v.len()
        invariant
            i <= v.len(),
            r@.len() == i,
            forall|j: int| 0 <= j < i ==> #[trigger] r@[j]@ == v@[j]@,
        decreases v.len() - i,
    {
        r.push(v[i].clone());
        i = i + 1;
    }
    assert(string_views(r@) =~= string_views(v@));
    r
}

/// Whether a vector of strings holds one equal to `s`.
pub fn strings_contain(v: &Vec<String>, s: &str) -> (r: bool)
    ensures
        r == string_views(v@).contains(s@),
{
    let mut i: usize = 0;
    while i < v.len()
        invariant
            i <= v.len(),
            forall|j: int| 0 <= j < i ==> #[trigger] v@[j]@ != s@,
        decreases v.len() - i,
    {
        if str_eq(v[i].as_str(), s) {
            assert(string_views(v@)[i as int] == s@);
            return true;
        }
        i = i + 1;
    }
    proof {
        if string_views(v@).contains(s@) {
            let j = choose|j: int| 0 <= j < v@.len() && string_views(v@)[j] == s@;
            assert(v@[j]@ == s@);
        }
    }
    false
}

/// The concatenation of three texts.
pub fn concat3(a: &str, b: &str, c: &str) -> (r: String)
    ensures
        r@ == a@ + b@ + c@,
{
    let mut r = str_to_string(a);
    push_str(&mut r, b);
    push_str(&mut r, c);
    r
}

/// Whether `needle` occurs in `hay` as a contiguous run (`str::contains`); the empty
/// text occurs everywhere.
pub open spec fn seq_contains(hay: Seq<char>, needle: Seq<char>) -> bool {
    exists|i: int| 0 <= i && i + needle.len() <= hay.len() && #[trigger] hay.subrange(i, i + needle.len()) == needle
}

/// Whether `hay` begins with `prefix` (`str::starts_with`).
pub open spec fn seq_starts_with(hay: Seq<char>, prefix: Seq<char>) -> bool {
    prefix.len() <= hay.len() && hay.subrange(0, prefix.len() as int) == prefix
}

fn matches_at(hay: &Vec<char>, needle: &Vec<char>, i: usize) -> (r: bool)
    requires
        i + needle@.len() <= hay@.len(),
    ensures
        r == (hay@.subrange(i as int, i + needle@.len()) == needle@),
{
    let hl = hay.len();
    let mut k: usize = 0;
    while k < needle.len()
        invariant
            k <= needle@.len(),
            hl == hay@.len(),
            i + needle@.len() <= hay@.len(),
            forall|j: int| 0 <= j < k ==> hay@[i + j] == needle@[j],
        decreases needle.len() - k,
    {
        assert(i + k < hay@.len());
        if hay[i + k] != needle[k] {
            assert(hay@.subrange(i as int, i + needle@.len())[k as int] != needle@[k as int]);
            return false;
        }
        k = k + 1;
    }
    assert(hay@.subrange(i as int, i + needle@.len()) =~= needle@);
    true
}

/// Whether `needle` occurs in `hay`.
pub fn chars_contain(hay: &Vec<char>, needle: &Vec<char>) -> (r: bool)
    ensures
        r == seq_contains(hay@, needle@),
{
    if needle.len() > hay.len() {
        return false;
    }
    if needle.len() == 0 {
        assert(hay@.subrange(0int, 0int + needle@.len()) =~= needle@);
        return true;
    }
    let hl = hay.len();
    let last = hl - needle.len();
    let mut i: usize = 0;
    while i <= last
        invariant
            hl == hay@.len(),
            last == hay@.len() - needle@.len(),
            0 < needle@.len() <= hay@.len(),
            i <= last + 1,
            forall|j: int| 0 <= j < i ==> #[trigger] hay@.subrange(j, j + needle@.len()) != needle@,
        decreases last + 1 - i,
    {
        if matches_at(hay, needle, i) {
            return true;
        }
        i = i + 1;
    }
    false
}

/// Whether the text `needle` occurs in the text `hay`.
pub fn str_contains(hay: &str, needle: &str) -> (r: bool)
    ensures
        r == seq_contains(hay@, needle@),
{
    chars_contain(&chars_of(hay), &chars_of(needle))
}

/// Whether the text `hay` begins with `prefix`.
pub fn str_starts_with(hay: &str, prefix: &str) -> (r: bool)
    ensures
        r == seq_starts_with(hay@, prefix@),
{
    let h = chars_of(hay);
    let p = chars_of(prefix);
    if p.len() > h.len() {
        return false;
    }
    matches_at(&h, &p, 0)
}

/// `s` without its trailing copies of `c` (`str::trim_end_matches` with a character).
pub open spec fn trim_end_char(s: Seq<char>, c: char) -> Seq<char>
    decreases s.len(),
{
    if s.len() > 0 && s.last() == c {
        trim_end_char(s.drop_last(), c)
    } else {
        s
    }
}

/// Removes the trailing copies of `c`.
pub fn trim_end_matches_char(s: &str, c: char) -> (r: String)
    ensures
        r@ == trim_end_char(s@, c),
{
    let v = chars_of(s);
    let mut n = v.len();
    assert(v@.subrange(0, n as int) =~= v@);
    while n > 0 && v[n - 1] == c
        invariant
            n <= v@.len(),
            trim_end_char(v@, c) == trim_end_char(v@.subrange(0, n as int), c),
        decreases n,
    {
        assert(v@.subrange(0, n as int).drop_last() =~= v@.subrange(0, n - 1));
        n = n - 1;
    }
    assert(v@.subrange(0, v@.len() as int) =~= v@);
    let mut out: Vec<char> = Vec::new();
    let mut i: usize = 0;
    while i < n
        invariant
            i <= n <= v@.len(),
            out@ == v@.subrange(0, i as int),
        decreases n - i,
    {
        out.push(v[i]);
        i = i + 1;
        assert(out@ =~= v@.subrange(0, i as int));
    }
    string_from_chars(&out)
}

/// The position of the first `c` in `s`, if any.
pub open spec fn first_index_of(s: Seq<char>, c: char) -> Option<int> {
    if exists|i: int| 0 <= i < s.len() && s[i] == c {
        Some(choose|i: int| 0 <= i < s.len() && s[i] == c && forall|j: int| 0 <= j < i ==> s[j] != c)
    } else {
        None
    }
}

/// The position of the first `c` in `v`.
pub fn find_char(v: &Vec<char>, c: char) -> (r: Option<usize>)
    ensures
        match r {
            Some(i) => i < v@.len() && v@[i as int] == c && forall|j: int| 0 <= j < i ==> v@[j] != c,
            None => forall|j: int| 0 <= j < v@.len() ==> v@[j] != c,
        },
        r matches Some(i) ==> first_index_of(v@, c) == Some(i as int),
        r is None ==> first_index_of(v@, c) is None,
{
    let mut i: usize = 0;
    while i < v.len()
        invariant
            i <= v@.len(),
            forall|j: int| 0 <= j < i ==> v@[j] != c,
        decreases v.len() - i,
    {
        if v[i] == c {
            proof {
                let k = choose|k: int| 0 <= k < v@.len() && v@[k] == c && forall|j: int| 0 <= j < k ==> v@[j] != c;
                if k < i {
                } else if k > i {
                    assert(v@[i as int] == c);
                }
                assert(k == i);
            }
            return Some(i);
        }
        i = i + 1;
    }
    None
}

/// The text without any occurrence of `c`.
pub open spec fn remove_char(s: Seq<char>, c: char) -> Seq<char> {
    s.filter(not_char(c))
}

/// Characters other than `c`.
pub open spec fn not_char(c: char) -> spec_fn(char) -> bool {
    |x: char| x != c
}

/// The text without any occurrence of `c` (`replace` of `c` by nothing).
pub fn without_char(s: &str, c: char) -> (r: String)
    ensures
        r@ == remove_char(s@, c),
{
    let cs = chars_of(s);
    let ghost p = not_char(c);
    let mut out = String::new();
    let mut i: usize = 0;
    proof {
        reveal(Seq::filter);
        assert(cs@.take(0).filter(p) =~= Seq::<char>::empty());
    }
    while i < cs.len()
        invariant
            i <= cs@.len(),
            cs@ == s@,
            p == not_char(c),
            out@ == cs@.take(i as int).filter(p),
        decreases cs.len() - i,
    {
        proof {
            assert(cs@.take(i + 1) =~= cs@.take(i as int).push(cs@[i as int]));
            cs@.take(i as int).lemma_filter_push(cs@[i as int], p);
        }
        if cs[i] != c {
            push_char(&mut out, cs[i]);
        }
        i = i + 1;
    }
    assert(cs@.take(cs@.len() as int) =~= cs@);
    out
}

/// Texts joined with `sep` between each two (`join(sep)`).
pub open spec fn joined(parts: Seq<Seq<char>>, sep: Seq<char>) -> Seq<char>
    decreases parts.len(),
{
    if parts.len() == 0 {
        Seq::empty()
    } else if parts.len() == 1 {
        parts[0]
    } else {
        joined(parts.drop_last(), sep) + sep + parts.last()
    }
}

/// The strings joined with `sep` between each two.
pub fn join_strings(parts: &Vec<String>, sep: &str) -> (r: String)
    ensures
        r@ == joined(string_views(parts@), sep@),
{
    let ghost pv = string_views(parts@);
    let mut out = String::new();
    let mut i: usize = 0;
    while i < parts.len()
        invariant
            i <= parts@.len(),
            pv == string_views(parts@),
            out@ == joined(pv.take(i as int), sep@),
        decreases parts.len() - i,
    {
        if i > 0 {
            push_str(&mut out, sep);
        }
        push_str(&mut out, parts[i].as_str());
        proof {
            let t = pv.take(i + 1);
            assert(t.drop_last() =~= pv.take(i as int));
            assert(t.last() == parts@[i as int]@);
            if i == 0 {
                assert(t.len() == 1);
                assert(pv.take(0) =~= Seq::<Seq<char>>::empty());
                assert(out@ =~= t[0]);
            }
        }
        i = i + 1;
    }
    assert(pv.take(pv.len() as int) =~= pv);
    out
}

} // verus!
