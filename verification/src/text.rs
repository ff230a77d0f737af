//! Character-level building blocks shared by the textual grammars of the
//! scanner: decimal numerals, Unicode white space, and splitting a text into
//! fields at a separator.
//!
//! Every executable function works on a window `[from, to)` of a character
//! vector and is specified over the corresponding `Seq<char>`.

use vstd::prelude::*;

verus! {

/// `c` is one of the ASCII digits `0` to `9`.
pub open spec fn is_digit(c: char) -> bool {
    '0' <= c && c <= '9'
}

/// The number that the ASCII digit `c` stands for.
pub open spec fn digit_value(c: char) -> nat {
    (c as u32 - '0' as u32) as nat
}

/// Every character of `s` is an ASCII digit.
pub open spec fn all_digits(s: Seq<char>) -> bool {
    forall|i: int| 0 <= i < s.len() ==> is_digit(#[trigger] s[i])
}

/// The natural number written by the digits of `s`, read in base ten.
/// Leading zeros do not change it, and the empty text stands for zero.
pub open spec fn decimal_value(s: Seq<char>) -> nat
    decreases s.len(),
{
    if s.len() == 0 {
        0
    } else {
        decimal_value(s.drop_last()) * 10 + digit_value(s.last())
    }
}

/// `s` read as an unsigned decimal numeral that is at most `max`: one or more
/// ASCII digits and nothing else.
pub open spec fn numeral(s: Seq<char>, max: nat) -> Option<nat> {
    if s.len() > 0 && all_digits(s) && decimal_value(s) <= max {
        Some(decimal_value(s))
    } else {
        None
    }
}

/// `s` read as a decimal numeral that may carry a `+` in front and is at
/// most `max`. Leading zeros are accepted; a `-` is not.
pub open spec fn signed_numeral(s: Seq<char>, max: nat) -> Option<nat> {
    if s.len() > 0 && s.first() == '+' {
        numeral(s.drop_first(), max)
    } else {
        numeral(s, max)
    }
}

/// `c` has the Unicode property `White_Space`.
pub open spec fn is_space(c: char) -> bool {
    let n = c as u32;
    ||| 0x09 <= n <= 0x0d
    ||| n == 0x20
    ||| n == 0x85
    ||| n == 0xa0
    ||| n == 0x1680
    ||| 0x2000 <= n <= 0x200a
    ||| n == 0x2028
    ||| n == 0x2029
    ||| n == 0x202f
    ||| n == 0x205f
    ||| n == 0x3000
}

/// `s` without its leading white space.
pub open spec fn trim_start(s: Seq<char>) -> Seq<char>
    decreases s.len(),
{
    if s.len() > 0 && is_space(s.first()) {
        trim_start(s.drop_first())
    } else {
        s
    }
}

/// `s` without its trailing white space.
pub open spec fn trim_end(s: Seq<char>) -> Seq<char>
    decreases s.len(),
{
    if s.len() > 0 && is_space(s.last()) {
        trim_end(s.drop_last())
    } else {
        s
    }
}

/// `s` without leading and trailing white space.
pub open spec fn trimmed(s: Seq<char>) -> Seq<char> {
    trim_end(trim_start(s))
}

/// Number of characters of `s` before its first `sep`, or the whole length
/// where `s` holds no `sep`.
pub open spec fn field_len(s: Seq<char>, sep: char) -> nat
    decreases s.len(),
{
    if s.len() == 0 || s.first() == sep {
        0
    } else {
        1 + field_len(s.drop_first(), sep)
    }
}

/// Number of characters of `s` behind its last `sep`, or the whole length
/// where `s` holds no `sep`.
pub open spec fn tail_len(s: Seq<char>, sep: char) -> nat
    decreases s.len(),
{
    if s.len() == 0 || s.last() == sep {
        0
    } else {
        1 + tail_len(s.drop_last(), sep)
    }
}

/// The fields of `s` between occurrences of `sep`. A text with `n`
/// separators has `n + 1` fields, some of which may be empty.
pub open spec fn split(s: Seq<char>, sep: char) -> Seq<Seq<char>>
    decreases s.len(),
{
    let k = field_len(s, sep) as int;
    if k >= s.len() {
        seq![s]
    } else {
        seq![s.take(k)] + split(s.skip(k + 1), sep)
    }
}

/// The texts that the windows `ranges` cut out of `text`.
pub open spec fn windows(text: Seq<char>, ranges: Seq<(usize, usize)>) -> Seq<Seq<char>> {
    Seq::new(ranges.len(), |i: int| text.subrange(ranges[i].0 as int, ranges[i].1 as int))
}

/// Every window of `ranges` lies inside `[from, to)`.
pub open spec fn windows_within(ranges: Seq<(usize, usize)>, from: int, to: int) -> bool {
    forall|i: int|
        0 <= i < ranges.len() ==> from <= (#[trigger] ranges[i]).0 <= ranges[i].1 <= to
}

/// Where the first `k` characters of `s` are no separators and a separator,
/// or the end, follows, the first field has length `k`.
pub proof fn lemma_field_len(s: Seq<char>, sep: char, k: int)
    requires
        0 <= k <= s.len(),
        forall|j: int| 0 <= j < k ==> s[j] != sep,
        k == s.len() || s[k] == sep,
    ensures
        field_len(s, sep) == k,
    decreases k,
{
    if k > 0 {
        let rest = s.drop_first();
        assert forall|j: int| 0 <= j < k - 1 implies rest[j] != sep by {
            assert(rest[j] == s[j + 1]);
        }
        lemma_field_len(rest, sep, k - 1);
    }
}

/// The characters of `s`, in order.
pub fn chars_of(s: &str) -> (chars: Vec<char>)
    ensures
        chars@ == s@,
{
    let mut chars: Vec<char> = Vec::new();
    let mut it = s.chars();
    for c in iter: it
        invariant
            chars@ == iter.seq().take(iter.index()),
    {
        chars.push(c);
    }
    chars
}

/// Whether `c` is an ASCII digit.
pub fn is_ascii_digit(c: char) -> (b: bool)
    ensures
        b == is_digit(c),
{
    '0' <= c && c <= '9'
}

/// Whether `c` is Unicode white space.
pub fn is_whitespace(c: char) -> (b: bool)
    ensures
        b == is_space(c),
{
    let n: u32 = c as u32;
    (0x09 <= n && n <= 0x0d) || n == 0x20 || n == 0x85 || n == 0xa0 || n == 0x1680 || (0x2000 <= n
        && n <= 0x200a) || n == 0x2028 || n == 0x2029 || n == 0x202f || n == 0x205f || n == 0x3000
}

/// Whether the window `[from, to)` of `text` holds the character `c`.
pub fn window_contains(text: &Vec<char>, from: usize, to: usize, c: char) -> (found: bool)
    requires
        from <= to <= text.len(),
    ensures
        found == text@.subrange(from as int, to as int).contains(c),
{
    let ghost window = text@.subrange(from as int, to as int);
    let mut i: usize = from;
    while i < to
        invariant
            from <= i <= to <= text.len(),
            window == text@.subrange(from as int, to as int),
            forall|j: int| 0 <= j < i - from ==> window[j] != c,
        decreases to - i,
    {
        if text[i] == c {
            assert(window[i - from] == c);
            return true;
        }
        i += 1;
    }
    false
}

/// Reads the window `[from, to)` of `text` as an unsigned decimal numeral
/// that is at most `max`.
pub fn parse_numeral(text: &Vec<char>, from: usize, to: usize, max: u32) -> (value: Option<u32>)
    requires
        from <= to <= text.len(),
    ensures
        match numeral(text@.subrange(from as int, to as int), max as nat) {
            Some(n) => value == Some(n as u32),
            None => value is None,
        },
{
    let ghost window = text@.subrange(from as int, to as int);
    if from == to {
        return None;
    }
    let mut value: u64 = 0;
    let mut exceeded = false;
    let mut i: usize = from;
    while i < to
        invariant
            from <= i <= to <= text.len(),
            window == text@.subrange(from as int, to as int),
            all_digits(window.take(i - from)),
            !exceeded ==> value == decimal_value(window.take(i - from)) && value <= max,
            exceeded ==> decimal_value(window.take(i - from)) > max,
        decreases to - i,
    {
        let c = text[i];
        if !is_ascii_digit(c) {
            assert(!is_digit(window[i - from]));
            return None;
        }
        proof {
            let next = window.take(i - from + 1);
            assert(next.drop_last() =~= window.take(i - from));
            assert(next.last() == c);
            assert forall|j: int| 0 <= j < next.len() implies is_digit(#[trigger] next[j]) by {
                if j < i - from {
                    assert(next[j] == window.take(i - from)[j]);
                }
            }
        }
        if !exceeded {
            let digit: u64 = (c as u32 - '0' as u32) as u64;
            let next: u64 = value * 10 + digit;
            if next > max as u64 {
                exceeded = true;
            } else {
                value = next;
            }
        }
        i += 1;
    }
    assert(window.take(to - from) =~= window);
    if exceeded {
        None
    } else {
        Some(value as u32)
    }
}

/// Narrows the window `[from, to)` of `text` to what is left of it once
/// leading and trailing white space is gone.
pub fn trim_window(text: &Vec<char>, from: usize, to: usize) -> (inner: (usize, usize))
    requires
        from <= to <= text.len(),
    ensures
        from <= inner.0 <= inner.1 <= to,
        text@.subrange(inner.0 as int, inner.1 as int) == trimmed(
            text@.subrange(from as int, to as int),
        ),
{
    let mut a: usize = from;
    while a < to && is_whitespace(text[a])
        invariant
            from <= a <= to <= text.len(),
            trim_start(text@.subrange(from as int, to as int)) == trim_start(
                text@.subrange(a as int, to as int),
            ),
        decreases to - a,
    {
        assert(text@.subrange(a as int, to as int).drop_first() =~= text@.subrange(
            a + 1,
            to as int,
        ));
        a += 1;
    }
    let mut b: usize = to;
    while a < b && is_whitespace(text[b - 1])
        invariant
            a <= b <= to <= text.len(),
            trim_end(text@.subrange(a as int, to as int)) == trim_end(
                text@.subrange(a as int, b as int),
            ),
        decreases b - a,
    {
        assert(text@.subrange(a as int, b as int).drop_last() =~= text@.subrange(
            a as int,
            b - 1,
        ));
        b -= 1;
    }
    (a, b)
}

/// Cuts the window `[from, to)` of `text` into its fields between
/// occurrences of `sep`, each given as a window of `text`.
pub fn split_fields(text: &Vec<char>, from: usize, to: usize, sep: char) -> (fields: Vec<
    (usize, usize),
>)
    requires
        from <= to <= text.len(),
    ensures
        windows(text@, fields@) == split(text@.subrange(from as int, to as int), sep),
        windows_within(fields@, from as int, to as int),
{
    let ghost whole = text@.subrange(from as int, to as int);
    let mut fields: Vec<(usize, usize)> = Vec::new();
    let mut start: usize = from;
    let mut i: usize = from;
    assert(windows(text@, fields@) + split(text@.subrange(start as int, to as int), sep) =~= split(
        whole,
        sep,
    ));
    while i < to
        invariant
            from <= start <= i <= to <= text.len(),
            whole == text@.subrange(from as int, to as int),
            windows_within(fields@, from as int, to as int),
            forall|j: int| start <= j < i ==> text@[j] != sep,
            windows(text@, fields@) + split(text@.subrange(start as int, to as int), sep) == split(
                whole,
                sep,
            ),
        decreases to - i,
    {
        if text[i] == sep {
            proof {
                let rest = text@.subrange(start as int, to as int);
                lemma_field_len(rest, sep, i - start);
                assert(rest.take(i - start) =~= text@.subrange(start as int, i as int));
                assert(rest.skip(i - start + 1) =~= text@.subrange(i + 1, to as int));
                let before = windows(text@, fields@);
                let after = windows(text@, fields@.push((start, i)));
                assert(after =~= before + seq![text@.subrange(start as int, i as int)]);
            }
            fields.push((start, i));
            start = i + 1;
        }
        i += 1;
    }
    proof {
        let rest = text@.subrange(start as int, to as int);
        lemma_field_len(rest, sep, to - start);
        let before = windows(text@, fields@);
        let after = windows(text@, fields@.push((start, to)));
        assert(after =~= before + seq![rest]);
    }
    fields.push((start, to));
    fields
}

} // verus!
