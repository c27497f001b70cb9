//! Text handling shared by the command line and the encoder: characters,
//! whitespace, prefixes, substrings and decimal numbers.
use vstd::prelude::*;

verus! {

/// The characters of a string.
pub fn chars_of(s: &str) -> (v: Vec<char>)
    ensures
        v@ == s@,
{
    let mut v: Vec<char> = Vec::new();
    for c in it: s.chars()
        invariant
            v@ == it.seq().take(it.index() as int),
    {
        v.push(c);
    }
    assert(v@ == s@);
    v
}

/// Unicode `White_Space`, the characters that trimming removes.
pub open spec fn is_white_space(c: char) -> bool {
    ||| ('\u{9}' <= c && c <= '\u{d}')
    ||| c == ' '
    ||| c == '\u{85}'
    ||| c == '\u{a0}'
    ||| c == '\u{1680}'
    ||| ('\u{2000}' <= c && c <= '\u{200a}')
    ||| c == '\u{2028}'
    ||| c == '\u{2029}'
    ||| c == '\u{202f}'
    ||| c == '\u{205f}'
    ||| c == '\u{3000}'
}

/// Whether `c` is Unicode whitespace.
pub fn white_space(c: char) -> (w: bool)
    ensures
        w == is_white_space(c),
{
    ('\u{9}' <= c && c <= '\u{d}') || c == ' ' || c == '\u{85}' || c == '\u{a0}' || c == '\u{1680}'
        || ('\u{2000}' <= c && c <= '\u{200a}') || c == '\u{2028}' || c == '\u{2029}' || c
        == '\u{202f}' || c == '\u{205f}' || c == '\u{3000}'
}

/// The text with leading whitespace removed.
pub open spec fn trim_start(s: Seq<char>) -> Seq<char>
    decreases s.len(),
{
    if s.len() > 0 && is_white_space(s[0]) {
        trim_start(s.drop_first())
    } else {
        s
    }
}

/// The text with trailing whitespace removed.
pub open spec fn trim_end(s: Seq<char>) -> Seq<char>
    decreases s.len(),
{
    if s.len() > 0 && is_white_space(s.last()) {
        trim_end(s.drop_last())
    } else {
        s
    }
}

/// The text with whitespace removed at both ends.
pub open spec fn trim(s: Seq<char>) -> Seq<char> {
    trim_end(trim_start(s))
}

proof fn lemma_trim_start_from(s: Seq<char>, a: int)
    requires
        0 <= a <= s.len(),
        forall|i: int| 0 <= i < a ==> is_white_space(#[trigger] s[i]),
    ensures
        trim_start(s) == trim_start(s.subrange(a, s.len() as int)),
    decreases a,
{
    if a > 0 {
        assert(s.drop_first().subrange(a - 1, s.drop_first().len() as int) =~= s.subrange(
            a,
            s.len() as int,
        ));
        lemma_trim_start_from(s.drop_first(), a - 1);
    } else {
        assert(s.subrange(0, s.len() as int) =~= s);
    }
}

proof fn lemma_trim_end_to(s: Seq<char>, b: int)
    requires
        0 <= b <= s.len(),
        forall|i: int| b <= i < s.len() ==> is_white_space(#[trigger] s[i]),
    ensures
        trim_end(s) == trim_end(s.subrange(0, b)),
    decreases s.len() - b,
{
    if b < s.len() {
        assert(s.drop_last().subrange(0, b) =~= s.subrange(0, b));
        lemma_trim_end_to(s.drop_last(), b);
    } else {
        assert(s.subrange(0, s.len() as int) =~= s);
    }
}

/// The bounds of the text left after trimming: `trim(s)` is `s[start..end]`.
pub fn trim_bounds(s: &Vec<char>) -> (r: (usize, usize))
    ensures
        r.0 <= r.1 <= s.len(),
        trim(s@) == s@.subrange(r.0 as int, r.1 as int),
{
    let mut a: usize = 0;
    while a < s.len() && white_space(s[a])
        invariant
            a <= s.len(),
            forall|i: int| 0 <= i < a ==> is_white_space(#[trigger] s@[i]),
        decreases s.len() - a,
    {
        a += 1;
    }
    let mut b: usize = s.len();
    while b > a && white_space(s[b - 1])
        invariant
            a <= b <= s.len(),
            forall|i: int| b <= i < s.len() ==> is_white_space(#[trigger] s@[i]),
        decreases b,
    {
        b -= 1;
    }
    proof {
        lemma_trim_start_from(s@, a as int);
        let t = s@.subrange(a as int, s@.len() as int);
        assert(a == s@.len() || !is_white_space(t[0]));
        assert(trim_start(t) == t);
        lemma_trim_end_to(t, b - a);
        let u = t.subrange(0, b - a);
        assert(u =~= s@.subrange(a as int, b as int));
        assert(u.len() == 0 || !is_white_space(u.last()));
        assert(trim_end(u) == u);
    }
    (a, b)
}

/// `s` starts with `prefix`.
pub open spec fn has_prefix(s: Seq<char>, prefix: Seq<char>) -> bool {
    prefix.len() <= s.len() && s.subrange(0, prefix.len() as int) == prefix
}

/// Whether `s` starts with `prefix`.
pub fn starts_with(s: &Vec<char>, prefix: &Vec<char>) -> (b: bool)
    ensures
        b == has_prefix(s@, prefix@),
{
    if prefix.len() > s.len() {
        return false;
    }
    let mut i: usize = 0;
    while i < prefix.len()
        invariant
            prefix.len() <= s.len(),
            i <= prefix.len(),
            forall|k: int| 0 <= k < i ==> s@[k] == prefix@[k],
        decreases prefix.len() - i,
    {
        if s[i] != prefix[i] {
            assert(s@.subrange(0, prefix@.len() as int)[i as int] != prefix@[i as int]);
            return false;
        }
        i += 1;
    }
    assert(s@.subrange(0, prefix@.len() as int) =~= prefix@);
    true
}

/// Whether two character sequences are equal.
pub fn same_chars(a: &Vec<char>, b: &Vec<char>) -> (e: bool)
    ensures
        e == (a@ == b@),
{
    if a.len() != b.len() {
        return false;
    }
    let r = starts_with(a, b);
    assert(a@.subrange(0, b@.len() as int) =~= a@);
    r
}

/// `needle` occurs in `hay` starting at `at`.
pub open spec fn occurs_at(hay: Seq<char>, needle: Seq<char>, at: int) -> bool {
    0 <= at && at + needle.len() <= hay.len() && hay.subrange(at, at + needle.len()) == needle
}

/// `needle` occurs somewhere in `hay`.
pub open spec fn occurs_in(hay: Seq<char>, needle: Seq<char>) -> bool {
    exists|at: int| occurs_at(hay, needle, at)
}

/// Whether `needle` occurs in `hay`.
pub fn contains_chars(hay: &Vec<char>, needle: &Vec<char>) -> (b: bool)
    ensures
        b == occurs_in(hay@, needle@),
{
    if needle.len() > hay.len() {
        return false;
    }
    let last = hay.len() - needle.len();
    let mut at: usize = 0;
    while at <= last
        invariant
            last == hay.len() - needle.len(),
            needle.len() <= hay.len(),
            at <= last,
            forall|p: int| 0 <= p < at ==> !occurs_at(hay@, needle@, p),
        decreases last - at,
    {
        let mut k: usize = 0;
        let mut matched = true;
        while k < needle.len()
            invariant
                at <= last,
                last == hay.len() - needle.len(),
                k <= needle.len(),
                matched ==> forall|j: int| 0 <= j < k ==> hay@[at + j] == needle@[j],
                !matched ==> !occurs_at(hay@, needle@, at as int),
            decreases needle.len() - k,
        {
            if hay[at + k] != needle[k] {
                assert(hay@.subrange(at as int, at + needle@.len())[k as int] != needle@[k as int]);
                matched = false;
            }
            k += 1;
        }
        if matched {
            assert(hay@.subrange(at as int, at + needle@.len()) =~= needle@);
            assert(occurs_at(hay@, needle@, at as int));
            return true;
        }
        if at == last {
            assert forall|p: int| !occurs_at(hay@, needle@, p) by {
                if 0 <= p <= at {
                }
            }
            return false;
        }
        at += 1;
    }
    false
}

/// A decimal digit.
pub open spec fn is_digit(c: char) -> bool {
    '0' <= c && c <= '9'
}

pub open spec fn digit_value(c: char) -> int {
    (c as int) - ('0' as int)
}

/// The value of a string of decimal digits.
pub open spec fn decimal_value(s: Seq<char>) -> int
    decreases s.len(),
{
    if s.len() == 0 {
        0
    } else {
        decimal_value(s.drop_last()) * 10 + digit_value(s.last())
    }
}

/// The text after an optional leading `+`.
pub open spec fn digits_part(s: Seq<char>) -> Seq<char> {
    if s.len() > 0 && s[0] == '+' {
        s.drop_first()
    } else {
        s
    }
}

/// The unsigned number a string spells in the form Rust's integer parsing
/// accepts: an optional `+`, then one or more decimal digits.
pub open spec fn unsigned_value(s: Seq<char>) -> Option<int> {
    let d = digits_part(s);
    if d.len() > 0 && (forall|i: int| 0 <= i < d.len() ==> is_digit(#[trigger] d[i])) {
        Some(decimal_value(d))
    } else {
        None
    }
}

proof fn lemma_decimal_prefix_grows(d: Seq<char>, k: int)
    requires
        0 <= k <= d.len(),
        forall|i: int| 0 <= i < d.len() ==> is_digit(#[trigger] d[i]),
    ensures
        decimal_value(d.take(k)) <= decimal_value(d),
        0 <= decimal_value(d.take(k)),
    decreases d.len(),
{
    if k < d.len() {
        lemma_decimal_prefix_grows(d.drop_last(), k);
        assert(d.drop_last().take(k) =~= d.take(k));
        lemma_decimal_prefix_grows(d.drop_last(), d.len() - 1);
        assert(d.drop_last().take(d.len() - 1) =~= d.drop_last());
    } else {
        assert(d.take(k) =~= d);
        if d.len() > 0 {
            lemma_decimal_prefix_grows(d.drop_last(), d.len() - 1);
            assert(d.drop_last().take(d.len() - 1) =~= d.drop_last());
        }
    }
}

/// Parses an unsigned decimal number that fits in a `u64`, as `str::parse::<u64>` does.
pub fn parse_u64(s: &Vec<char>) -> (r: Option<u64>)
    ensures
        r == (match unsigned_value(s@) {
            Some(v) => if v <= u64::MAX {
                Some(v as u64)
            } else {
                None
            },
            None => None,
        }),
{
    let start: usize = if s.len() > 0 && s[0] == '+' {
        1
    } else {
        0
    };
    let ghost d = digits_part(s@);
    assert(d =~= s@.subrange(start as int, s@.len() as int));
    if start >= s.len() {
        return None;
    }
    let mut acc: u64 = 0;
    let mut i: usize = start;
    while i < s.len()
        invariant
            start <= i <= s.len(),
            start < s.len(),
            d == digits_part(s@),
            d =~= s@.subrange(start as int, s@.len() as int),
            forall|j: int| 0 <= j < i - start ==> is_digit(#[trigger] d[j]),
            acc == decimal_value(d.take(i - start)),
        decreases s.len() - i,
    {
        let c = s[i];
        if !('0' <= c && c <= '9') {
            assert(d[i - start] == c);
            assert(!is_digit(d[i - start]));
            assert(!(forall|j: int| 0 <= j < d.len() ==> is_digit(#[trigger] d[j])));
            assert(unsigned_value(s@) is None);
            return None;
        }
        let digit = (c as u32 - '0' as u32) as u64;
        proof {
            assert(d[i - start] == c);
            assert(d.take(i - start + 1).drop_last() =~= d.take(i - start));
            assert(d.take(i - start + 1).last() == c);
            assert(digit == digit_value(c));
            assert(decimal_value(d.take(i - start + 1)) == acc * 10 + digit);
        }
        match acc.checked_mul(10) {
            Some(m) => match m.checked_add(digit) {
                Some(v) => {
                    acc = v;
                },
                None => {
                    proof {
                        lemma_overflow_stays(s@, d, start as int, i as int);
                    }
                    return None;
                },
            },
            None => {
                proof {
                    lemma_overflow_stays(s@, d, start as int, i as int);
                }
                return None;
            },
        }
        i += 1;
    }
    assert(d.take(s.len() - start) =~= d);
    Some(acc)
}

proof fn lemma_overflow_stays(s: Seq<char>, d: Seq<char>, start: int, i: int)
    requires
        start <= i < s.len(),
        d.len() == s.len() - start,
        forall|j: int| 0 <= j < i - start ==> is_digit(#[trigger] d[j]),
        is_digit(d[i - start]),
        decimal_value(d.take(i - start + 1)) > u64::MAX,
    ensures
        (forall|j: int| 0 <= j < d.len() ==> is_digit(#[trigger] d[j])) ==> decimal_value(d)
            > u64::MAX,
{
    if forall|j: int| 0 <= j < d.len() ==> is_digit(#[trigger] d[j]) {
        lemma_decimal_prefix_grows(d, i - start + 1);
    }
}

proof fn lemma_unsigned_nonneg(s: Seq<char>)
    ensures
        unsigned_value(s) matches Some(v) ==> v >= 0,
{
    let d = digits_part(s);
    if d.len() > 0 && (forall|i: int| 0 <= i < d.len() ==> is_digit(#[trigger] d[i])) {
        lemma_decimal_prefix_grows(d, 0);
    }
}

/// Parses an unsigned decimal number that fits in a `u32`, as `str::parse::<u32>` does.
pub fn parse_u32(s: &Vec<char>) -> (r: Option<u32>)
    ensures
        r == (match unsigned_value(s@) {
            Some(v) => if v <= u32::MAX {
                Some(v as u32)
            } else {
                None
            },
            None => None,
        }),
{
    let r = parse_u64(s);
    proof {
        lemma_unsigned_nonneg(s@);
    }
    match r {
        Some(v) => {
            if v <= 0xffff_ffffu64 {
                let w = v as u32;
                assert(unsigned_value(s@) == Some(v as int));
                Some(w)
            } else {
                None
            }
        },
        None => {
            assert(match unsigned_value(s@) {
                Some(v) => v > u64::MAX,
                None => true,
            });
            None
        },
    }
}

/// The code of a character, ASCII letters folded to lower case.
pub open spec fn ascii_lower(c: char) -> int {
    if 'A' <= c && c <= 'Z' {
        (c as int) + 32
    } else {
        c as int
    }
}

/// `s` ends with `suffix`, ASCII letters compared without regard to case.
pub open spec fn ends_with_ignoring_case(s: Seq<char>, suffix: Seq<char>) -> bool {
    &&& suffix.len() <= s.len()
    &&& forall|k: int|
        0 <= k < suffix.len() ==> ascii_lower(#[trigger] s[s.len() - suffix.len() + k])
            == ascii_lower(suffix[k])
}

/// Whether `s` ends with `suffix`, ASCII letters compared without regard to case.
pub fn ends_with_ignore_case(s: &Vec<char>, suffix: &Vec<char>) -> (b: bool)
    ensures
        b == ends_with_ignoring_case(s@, suffix@),
{
    if suffix.len() > s.len() {
        return false;
    }
    let off = s.len() - suffix.len();
    let mut k: usize = 0;
    while k < suffix.len()
        invariant
            suffix.len() <= s.len(),
            off == s.len() - suffix.len(),
            k <= suffix.len(),
            forall|j: int| 0 <= j < k ==> ascii_lower(#[trigger] s@[off + j]) == ascii_lower(suffix@[j]),
        decreases suffix.len() - k,
    {
        if lower_ascii(s[off + k]) != lower_ascii(suffix[k]) {
            return false;
        }
        k += 1;
    }
    true
}

/// The code of a character, an ASCII letter folded to lower case.
pub fn lower_ascii(c: char) -> (l: u32)
    ensures
        l == ascii_lower(c),
{
    if 'A' <= c && c <= 'Z' {
        (c as u32) + 32
    } else {
        c as u32
    }
}

} // verus!
