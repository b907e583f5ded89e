//! Byte patterns: their written form, and what it means for one to match.
//!
//! A pattern is written as tokens parted by white space. A token is either `?`,
//! which stands for any byte, or one byte in hexadecimal.

use vstd::prelude::*;

verus! {

/// Whether `c` is white space: a character with the Unicode property
/// `White_Space`.
pub open spec fn spec_is_whitespace(c: char) -> bool {
    ||| '\u{9}' <= c <= '\u{d}'
    ||| c == ' '
    ||| c == '\u{85}'
    ||| c == '\u{a0}'
    ||| c == '\u{1680}'
    ||| '\u{2000}' <= c <= '\u{200a}'
    ||| c == '\u{2028}'
    ||| c == '\u{2029}'
    ||| c == '\u{202f}'
    ||| c == '\u{205f}'
    ||| c == '\u{3000}'
}

/// Whether `c` is white space.
#[verifier::when_used_as_spec(spec_is_whitespace)]
pub fn is_whitespace(c: char) -> (b: bool)
    ensures
        b == spec_is_whitespace(c),
{
    ('\u{9}' <= c && c <= '\u{d}') || c == ' ' || c == '\u{85}' || c == '\u{a0}' || c
        == '\u{1680}' || ('\u{2000}' <= c && c <= '\u{200a}') || c == '\u{2028}' || c
        == '\u{2029}' || c == '\u{202f}' || c == '\u{205f}' || c == '\u{3000}'
}

/// The number of characters before the first white space of `s`, or the length
/// of `s` where it holds none.
pub open spec fn token_len(s: Seq<char>) -> nat
    decreases s.len(),
{
    if s.len() == 0 || is_whitespace(s[0]) {
        0
    } else {
        1 + token_len(s.drop_first())
    }
}

/// The tokens of `s`: its maximal runs of characters that are not white space,
/// in order.
pub open spec fn split_whitespace(s: Seq<char>) -> Seq<Seq<char>>
    decreases s.len(),
    via split_whitespace_decreases
{
    if s.len() == 0 {
        Seq::empty()
    } else if is_whitespace(s[0]) {
        split_whitespace(s.drop_first())
    } else {
        seq![s.take(token_len(s) as int)] + split_whitespace(s.skip(token_len(s) as int))
    }
}

#[via_fn]
proof fn split_whitespace_decreases(s: Seq<char>) {
    if s.len() > 0 && !is_whitespace(s[0]) {
        lemma_token_len_bounds(s);
    }
}

/// A token is no longer than the text it starts, and not empty where the text
/// starts with a character that is not white space.
pub proof fn lemma_token_len_bounds(s: Seq<char>)
    ensures
        token_len(s) <= s.len(),
        s.len() > 0 && !is_whitespace(s[0]) ==> token_len(s) > 0,
    decreases s.len(),
{
    if s.len() > 0 && !is_whitespace(s[0]) {
        lemma_token_len_bounds(s.drop_first());
    }
}

/// The token at the start of `s` has `len` characters where the first `len`
/// characters of `s` are not white space and the text ends or goes on with white
/// space behind them.
pub proof fn lemma_token_len_is(s: Seq<char>, len: int)
    requires
        0 <= len <= s.len(),
        forall|k: int| 0 <= k < len ==> !is_whitespace(#[trigger] s[k]),
        len == s.len() || is_whitespace(s[len]),
    ensures
        token_len(s) == len,
    decreases len,
{
    if len > 0 {
        lemma_token_len_is(s.drop_first(), len - 1);
    }
}

/// The value of the hexadecimal digit `c`, upper or lower case, and nothing
/// where `c` is no such digit.
pub open spec fn hex_digit(c: char) -> Option<u8> {
    if '0' <= c <= '9' {
        Some((c as u32 - '0' as u32) as u8)
    } else if 'a' <= c <= 'f' {
        Some((c as u32 - 'a' as u32 + 10) as u8)
    } else if 'A' <= c <= 'F' {
        Some((c as u32 - 'A' as u32 + 10) as u8)
    } else {
        None
    }
}

/// The number that the hexadecimal digits `digits` write, most significant
/// digit first. A character that is no digit counts as zero.
pub open spec fn hex_value(digits: Seq<char>) -> nat
    decreases digits.len(),
{
    if digits.len() == 0 {
        0
    } else {
        let low: nat = match hex_digit(digits.last()) {
            Some(value) => value as nat,
            None => 0,
        };
        hex_value(digits.drop_last()) * 16 + low
    }
}

/// The digits of a token: what follows its plus sign where it has one in front
/// of something, else the whole token.
pub open spec fn hex_digits_of(token: Seq<char>) -> Seq<char> {
    if token.len() > 1 && token[0] == '+' {
        token.drop_first()
    } else {
        token
    }
}

/// The byte that `token` writes in hexadecimal: an optional plus sign, then one
/// or more hexadecimal digits whose value fits a byte. Nothing for any other
/// token.
pub open spec fn hex_byte(token: Seq<char>) -> Option<u8> {
    let digits = hex_digits_of(token);
    if digits.len() > 0 && (forall|i: int| 0 <= i < digits.len() ==> hex_digit(#[trigger] digits[i])
        is Some) && hex_value(digits) <= 0xff {
        Some(hex_value(digits) as u8)
    } else {
        None
    }
}

/// What one token of a pattern stands for: `?` for any byte (`Some(None)`), a
/// hexadecimal byte for that byte (`Some(Some(b))`), anything else for nothing
/// (`None`).
pub open spec fn pattern_byte(token: Seq<char>) -> Option<Option<u8>> {
    if token == seq!['?'] {
        Some(None)
    } else {
        match hex_byte(token) {
            Some(byte) => Some(Some(byte)),
            None => None,
        }
    }
}

/// What the tokens `tokens` stand for, one pattern byte for each, where every one
/// of them stands for something.
pub open spec fn pattern_of_tokens(tokens: Seq<Seq<char>>) -> Option<Seq<Option<u8>>> {
    if forall|i: int| 0 <= i < tokens.len() ==> pattern_byte(#[trigger] tokens[i]) is Some {
        Some(Seq::new(tokens.len(), |i: int| pattern_byte(tokens[i])->Some_0))
    } else {
        None
    }
}

/// The byte pattern that the text `pattern` writes: one pattern byte for each of
/// its tokens, or nothing where a token is neither `?` nor a hexadecimal byte.
pub open spec fn pattern_bytes(pattern: Seq<char>) -> Option<Seq<Option<u8>>> {
    pattern_of_tokens(split_whitespace(pattern))
}

/// Whether `pattern` matches `data` at offset `at`: the pattern lies within the
/// data there, and each of its bytes is either a wildcard or the byte of the data
/// at its place.
pub open spec fn matches_at(data: Seq<u8>, pattern: Seq<Option<u8>>, at: int) -> bool {
    &&& 0 <= at
    &&& at + pattern.len() <= data.len()
    &&& forall|j: int|
        0 <= j < pattern.len() ==> (#[trigger] pattern[j]) is None || pattern[j] == Some(
            data[at + j],
        )
}

/// Whether `at` is the first offset at which `pattern` matches `data`.
pub open spec fn first_match(data: Seq<u8>, pattern: Seq<Option<u8>>, at: int) -> bool {
    &&& matches_at(data, pattern, at)
    &&& forall|k: int| 0 <= k < at ==> !matches_at(data, pattern, k)
}

/// Whether `pattern` matches `data` nowhere.
pub open spec fn no_match(data: Seq<u8>, pattern: Seq<Option<u8>>) -> bool {
    forall|k: int| !matches_at(data, pattern, k)
}

/// A pattern has at most one first match.
pub proof fn lemma_first_match_is_unique(
    data: Seq<u8>,
    pattern: Seq<Option<u8>>,
    at: int,
    other: int,
)
    requires
        first_match(data, pattern, at),
        first_match(data, pattern, other),
    ensures
        at == other,
{
}

/// The digits written so far never exceed the number they are a prefix of.
pub proof fn lemma_hex_value_prefix(digits: Seq<char>, len: int)
    requires
        0 <= len <= digits.len(),
    ensures
        hex_value(digits.take(len)) <= hex_value(digits),
    decreases digits.len(),
{
    if len == digits.len() {
        assert(digits.take(len) =~= digits);
    } else {
        lemma_hex_value_prefix(digits.drop_last(), len);
        assert(digits.drop_last().take(len) =~= digits.take(len));
    }
}

/// The characters of `text`, one by one.
pub(crate) fn chars_of(text: &str) -> (chars: Vec<char>)
    ensures
        chars@ == text@,
{
    let mut chars: Vec<char> = Vec::new();
    for c in it: text.chars()
        invariant
            chars@ == it.seq().take(it.index() as int),
    {
        chars.push(c);
    }
    chars
}

/// The value of the hexadecimal digit `c`.
fn parse_hex_digit(c: char) -> (value: Option<u8>)
    ensures
        value == hex_digit(c),
{
    if '0' <= c && c <= '9' {
        Some((c as u32 - '0' as u32) as u8)
    } else if 'a' <= c && c <= 'f' {
        Some((c as u32 - 'a' as u32 + 10) as u8)
    } else if 'A' <= c && c <= 'F' {
        Some((c as u32 - 'A' as u32 + 10) as u8)
    } else {
        None
    }
}

/// The byte that the token `chars[start..end]` writes in hexadecimal.
fn parse_hex_byte(chars: &Vec<char>, start: usize, end: usize) -> (byte: Option<u8>)
    requires
        start <= end <= chars.len(),
    ensures
        byte == hex_byte(chars@.subrange(start as int, end as int)),
{
    let ghost token = chars@.subrange(start as int, end as int);
    let first: usize = if end - start > 1 && chars[start] == '+' {
        start + 1
    } else {
        start
    };
    let ghost digits = chars@.subrange(first as int, end as int);
    assert(digits =~= hex_digits_of(token));
    if first == end {
        return None;
    }
    let mut value: u32 = 0;
    let mut k: usize = first;
    while k < end
        invariant
            first <= k <= end <= chars.len(),
            first < end,
            digits == chars@.subrange(first as int, end as int),
            digits == hex_digits_of(chars@.subrange(start as int, end as int)),
            forall|i: int| 0 <= i < k - first ==> hex_digit(#[trigger] digits[i]) is Some,
            value == hex_value(digits.take(k - first)),
            value <= 0xff,
        decreases end - k,
    {
        let digit = match parse_hex_digit(chars[k]) {
            Some(digit) => digit,
            None => {
                assert(hex_digit(digits[k - first]) is None);
                return None;
            },
        };
        proof {
            let longer = digits.take(k - first + 1);
            assert(longer.drop_last() =~= digits.take(k - first));
            assert(longer.last() == digits[k - first]);
        }
        value = value * 16 + digit as u32;
        k = k + 1;
        if value > 0xff {
            proof {
                lemma_hex_value_prefix(digits, k - first);
            }
            return None;
        }
    }
    assert(digits.take(k - first) =~= digits);
    Some(value as u8)
}

/// What the token `chars[start..end]` stands for in a pattern.
pub(crate) fn parse_pattern_byte(chars: &Vec<char>, start: usize, end: usize) -> (byte: Option<Option<u8>>)
    requires
        start <= end <= chars.len(),
    ensures
        byte == pattern_byte(chars@.subrange(start as int, end as int)),
{
    let ghost token = chars@.subrange(start as int, end as int);
    if end - start == 1 && chars[start] == '?' {
        assert(token =~= seq!['?']);
        return Some(None);
    }
    assert(token != seq!['?']) by {
        if token == seq!['?'] {
            assert(token.len() == 1);
            assert(token[0] == '?');
        }
    }
    match parse_hex_byte(chars, start, end) {
        Some(byte) => Some(Some(byte)),
        None => None,
    }
}

/// Whether `pattern` matches `data` at offset `at`.
pub(crate) fn matches_window(data: &[u8], pattern: &Vec<Option<u8>>, at: usize) -> (matches: bool)
    requires
        at + pattern.len() <= data.len(),
    ensures
        matches == matches_at(data@, pattern@, at as int),
{
    let mut j: usize = 0;
    while j < pattern.len()
        invariant
            j <= pattern.len(),
            at + pattern.len() <= data.len(),
            forall|i: int|
                0 <= i < j ==> (#[trigger] pattern@[i]) is None || pattern@[i] == Some(
                    data@[at + i],
                ),
        decreases pattern.len() - j,
    {
        match pattern[j] {
            Some(byte) => {
                if data[at + j] != byte {
                    return false;
                }
            },
            None => {},
        }
        j = j + 1;
    }
    true
}

} // verus!
