//! What a line of input says: its characters, the text left when the
//! surrounding whitespace is gone, the quit token, and a decimal number.
//!
//! The models are sequences of characters; the functions work on slices of
//! `char` and are proved to compute the models.

use vstd::prelude::*;
use vstd::slice::slice_subrange;

verus! {

/// Whether `c` is whitespace: one of the code points that Unicode marks
/// `White_Space`. Line feed and carriage return are among them.
pub open spec fn whitespace(c: char) -> bool {
    ||| '\u{0009}' <= c <= '\u{000D}'
    ||| c == ' '
    ||| c == '\u{0085}'
    ||| c == '\u{00A0}'
    ||| c == '\u{1680}'
    ||| '\u{2000}' <= c <= '\u{200A}'
    ||| c == '\u{2028}'
    ||| c == '\u{2029}'
    ||| c == '\u{202F}'
    ||| c == '\u{205F}'
    ||| c == '\u{3000}'
}

/// `s` without the whitespace at its start.
pub open spec fn trimmed_start(s: Seq<char>) -> Seq<char>
    decreases s.len(),
{
    if s.len() > 0 && whitespace(s[0]) {
        trimmed_start(s.drop_first())
    } else {
        s
    }
}

/// `s` without the whitespace at its end.
pub open spec fn trimmed_end(s: Seq<char>) -> Seq<char>
    decreases s.len(),
{
    if s.len() > 0 && whitespace(s.last()) {
        trimmed_end(s.drop_last())
    } else {
        s
    }
}

/// `s` without the whitespace around it. Whitespace between other
/// characters stays.
pub open spec fn trimmed(s: Seq<char>) -> Seq<char> {
    trimmed_end(trimmed_start(s))
}

/// Whether `s` is the word `quit`, each letter in either case.
pub open spec fn is_quit_token(s: Seq<char>) -> bool {
    &&& s.len() == 4
    &&& (s[0] == 'q' || s[0] == 'Q')
    &&& (s[1] == 'u' || s[1] == 'U')
    &&& (s[2] == 'i' || s[2] == 'I')
    &&& (s[3] == 't' || s[3] == 'T')
}

/// Whether `c` is one of the ten decimal digits `0` to `9`.
pub open spec fn is_digit(c: char) -> bool {
    '0' <= c <= '9'
}

/// The number that the digit `c` stands for; 0 for any other character.
pub open spec fn digit_value(c: char) -> nat {
    if is_digit(c) {
        (c as int - '0' as int) as nat
    } else {
        0
    }
}

/// Whether every character of `s` is a decimal digit.
pub open spec fn all_digits(s: Seq<char>) -> bool {
    forall|i: int| 0 <= i < s.len() ==> is_digit(#[trigger] s[i])
}

/// The number that the digits of `s` write in base ten, most significant
/// digit first. The empty sequence writes 0.
pub open spec fn decimal_value(s: Seq<char>) -> nat
    decreases s.len(),
{
    if s.len() == 0 {
        0
    } else {
        10 * decimal_value(s.drop_last()) + digit_value(s.last())
    }
}

/// `s` without one plus sign at its start, if it has one.
pub open spec fn unsigned_digits(s: Seq<char>) -> Seq<char> {
    if s.len() > 0 && s[0] == '+' {
        s.drop_first()
    } else {
        s
    }
}

/// The guess that `s` writes: a number that fits in a `u32`, written as
/// one or more decimal digits, which one plus sign may precede. Any other
/// text (no digit at all, another character anywhere, a number too large)
/// writes no guess.
pub open spec fn parsed_guess(s: Seq<char>) -> Option<u32> {
    let digits = unsigned_digits(s);
    if digits.len() > 0 && all_digits(digits) && decimal_value(digits) <= u32::MAX {
        Some(decimal_value(digits) as u32)
    } else {
        None
    }
}

/// The character that writes the digit `d`, for `d` below ten.
pub open spec fn digit_char(d: nat) -> char {
    ('0' as int + d) as char
}

/// The decimal digits that write `n`, most significant first, with no
/// zero in front; the number 0 is written `0`.
pub open spec fn decimal_text(n: nat) -> Seq<char>
    decreases n,
{
    if n < 10 {
        seq![digit_char(n)]
    } else {
        decimal_text(n / 10).push(digit_char(n % 10))
    }
}

/// The last `count` characters of `s`, or all of `s` where it has no more
/// than that.
pub open spec fn last_of(s: Seq<char>, count: nat) -> Seq<char> {
    if s.len() > count {
        s.subrange(s.len() - count, s.len() as int)
    } else {
        s
    }
}

/// The decimal digits of a number are digits, and write that number.
pub proof fn law_decimal_text_reads_back(n: nat)
    ensures
        decimal_text(n).len() > 0,
        all_digits(decimal_text(n)),
        decimal_value(decimal_text(n)) == n,
    decreases n,
{
    if n < 10 {
        let text = decimal_text(n);
        assert(text.drop_last() =~= Seq::<char>::empty());
        assert(decimal_value(text.drop_last()) == 0);
    } else {
        let front = decimal_text(n / 10);
        let text = front.push(digit_char(n % 10));
        law_decimal_text_reads_back(n / 10);
        assert(text.drop_last() =~= front);
        assert(text.last() == digit_char(n % 10));
        assert forall|i: int| 0 <= i < text.len() implies is_digit(#[trigger] text[i]) by {
            if i < front.len() {
                assert(text[i] == front[i]);
            }
        }
    }
}

/// Trimming the start drops exactly the first `k` characters, when those
/// are whitespace and the next one, if there is one, is not.
proof fn lemma_trimmed_start(s: Seq<char>, k: int)
    requires
        0 <= k <= s.len(),
        forall|i: int| 0 <= i < k ==> whitespace(#[trigger] s[i]),
        k < s.len() ==> !whitespace(s[k]),
    ensures
        trimmed_start(s) == s.subrange(k, s.len() as int),
    decreases k,
{
    if k == 0 {
        assert(s.subrange(0, s.len() as int) =~= s);
    } else {
        let rest = s.drop_first();
        assert forall|i: int| 0 <= i < k - 1 implies whitespace(#[trigger] rest[i]) by {
            assert(rest[i] == s[i + 1]);
        }
        lemma_trimmed_start(rest, k - 1);
        assert(rest.subrange(k - 1, rest.len() as int) =~= s.subrange(k, s.len() as int));
    }
}

/// Trimming the end keeps exactly the first `k` characters, when all after
/// them are whitespace and the last one kept, if there is one, is not.
proof fn lemma_trimmed_end(s: Seq<char>, k: int)
    requires
        0 <= k <= s.len(),
        forall|i: int| k <= i < s.len() ==> whitespace(#[trigger] s[i]),
        k > 0 ==> !whitespace(s[k - 1]),
    ensures
        trimmed_end(s) == s.subrange(0, k),
    decreases s.len() - k,
{
    if k == s.len() {
        assert(s.subrange(0, k) =~= s);
    } else {
        let rest = s.drop_last();
        assert forall|i: int| k <= i < rest.len() implies whitespace(#[trigger] rest[i]) by {
            assert(rest[i] == s[i]);
        }
        lemma_trimmed_end(rest, k);
        assert(rest.subrange(0, k) =~= s.subrange(0, k));
    }
}

/// A longer run of digits writes a number at least as large as any of
/// its prefixes.
proof fn lemma_decimal_value_grows(s: Seq<char>, k: int)
    requires
        0 <= k <= s.len(),
    ensures
        decimal_value(s.take(k)) <= decimal_value(s),
    decreases s.len() - k,
{
    if k == s.len() {
        assert(s.take(k) =~= s);
    } else {
        lemma_decimal_value_grows(s.drop_last(), k);
        assert(s.drop_last().take(k) =~= s.take(k));
    }
}

/// The characters of `text`, in order.
pub fn chars_of(text: &str) -> (chars: Vec<char>)
    ensures
        chars@ == text@,
{
    let mut chars: Vec<char> = Vec::new();
    for c in it: text.chars()
        invariant
            it.seq() == text@,
            chars@ == it.seq().take(it.index()),
    {
        chars.push(c);
    }
    chars
}

/// Whether `c` is whitespace.
pub fn is_whitespace(c: char) -> (yes: bool)
    ensures
        yes == whitespace(c),
{
    ('\u{0009}' <= c && c <= '\u{000D}') || c == ' ' || c == '\u{0085}' || c == '\u{00A0}' || c
        == '\u{1680}' || ('\u{2000}' <= c && c <= '\u{200A}') || c == '\u{2028}' || c
        == '\u{2029}' || c == '\u{202F}' || c == '\u{205F}' || c == '\u{3000}'
}

/// The part of `chars` that is left when the whitespace around it is gone.
pub fn trim(chars: &[char]) -> (kept: &[char])
    ensures
        kept@ == trimmed(chars@),
{
    let len: usize = chars.len();
    let mut start: usize = 0;
    while start < len && is_whitespace(chars[start])
        invariant
            len == chars@.len(),
            start <= len,
            forall|i: int| 0 <= i < start ==> whitespace(#[trigger] chars@[i]),
        decreases len - start,
    {
        start = start + 1;
    }
    let mut end: usize = len;
    while end > start && is_whitespace(chars[end - 1])
        invariant
            len == chars@.len(),
            start <= end <= len,
            forall|i: int| end <= i < len ==> whitespace(#[trigger] chars@[i]),
        decreases end - start,
    {
        end = end - 1;
    }
    proof {
        let s = chars@;
        let tail = s.subrange(start as int, len as int);
        let k: int = end - start;
        lemma_trimmed_start(s, start as int);
        assert forall|i: int| k <= i < tail.len() implies whitespace(#[trigger] tail[i]) by {
            assert(tail[i] == s[start + i]);
        }
        lemma_trimmed_end(tail, k);
        assert(tail.subrange(0, k) =~= s.subrange(start as int, end as int));
    }
    slice_subrange(chars, start, end)
}

/// Whether `chars` is the quit token.
pub fn quits(chars: &[char]) -> (yes: bool)
    ensures
        yes == is_quit_token(chars@),
{
    chars.len() == 4 && (chars[0] == 'q' || chars[0] == 'Q') && (chars[1] == 'u' || chars[1]
        == 'U') && (chars[2] == 'i' || chars[2] == 'I') && (chars[3] == 't' || chars[3] == 'T')
}

/// The guess that `chars` writes, if it writes one.
pub fn parse_guess(chars: &[char]) -> (guess: Option<u32>)
    ensures
        guess == parsed_guess(chars@),
{
    let len: usize = chars.len();
    let first: usize = if len > 0 && chars[0] == '+' {
        1
    } else {
        0
    };
    if first == len {
        return None;
    }
    let ghost digits = unsigned_digits(chars@);
    assert(digits =~= chars@.subrange(first as int, len as int));
    let mut value: u32 = 0;
    let mut i: usize = first;
    while i < len
        invariant
            len == chars@.len(),
            first <= i <= len,
            digits == unsigned_digits(chars@),
            digits == chars@.subrange(first as int, len as int),
            all_digits(digits.take(i - first)),
            value == decimal_value(digits.take(i - first)),
        decreases len - i,
    {
        let c = chars[i];
        let ghost seen = digits.take(i - first + 1);
        assert(seen.drop_last() =~= digits.take(i - first));
        assert(seen.last() == c);
        if !('0' <= c && c <= '9') {
            assert(!is_digit(digits[i - first]));
            return None;
        }
        let digit: u64 = (c as u32 - '0' as u32) as u64;
        let wide: u64 = value as u64 * 10 + digit;
        if wide > u32::MAX as u64 {
            proof {
                lemma_decimal_value_grows(digits, i - first + 1);
            }
            return None;
        }
        assert forall|j: int| 0 <= j < seen.len() implies is_digit(#[trigger] seen[j]) by {
            if j < i - first {
                assert(seen[j] == digits.take(i - first)[j]);
            }
        }
        value = wide as u32;
        i = i + 1;
    }
    assert(digits.take(len - first) =~= digits);
    Some(value)
}

/// The last `count` characters of `text`, or all of it where it has no
/// more than that.
pub fn last_chars(text: &str, count: usize) -> (tail: &str)
    ensures
        tail@ == last_of(text@, count as nat),
{
    let len: usize = text.unicode_len();
    if len > count {
        text.substring_char(len - count, len)
    } else {
        text
    }
}

} // verus!
