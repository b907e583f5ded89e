//! Locating the system service descriptor tables in a kernel image by the byte
//! signature of the code that refers to them.

use crate::error::HypervisorError;
use crate::pattern::{
    chars_of, first_match, hex_digit, hex_digits_of, hex_value, is_whitespace,
    lemma_first_match_is_unique, lemma_token_len_is, matches_at, matches_window, no_match,
    parse_pattern_byte, pattern_byte, pattern_bytes, pattern_of_tokens, split_whitespace,
};
use vstd::prelude::*;

verus! {

/// The code that the tables are found by: the instructions that follow the
/// first one of the system call entry point, up to the two that load the
/// addresses of the descriptor tables.
pub const KI_SYSTEM_SERVICE_START_PATTERN: &'static str = "8B F8 C1 EF 07 83 E7 20 25 FF 0F 00 00";

/// The number of bytes of the signature.
pub const SIGNATURE_SIZE: usize = 13;

/// The number of bytes of each of the two `lea` instructions behind the
/// signature.
pub const LEA_SIZE: usize = 7;

/// The offset, within a `lea` instruction, of its 32-bit displacement.
pub const LEA_DISPLACEMENT: usize = 3;

/// The bytes of the signature: what `KI_SYSTEM_SERVICE_START_PATTERN` writes.
pub open spec fn signature() -> Seq<Option<u8>> {
    seq![
        Some(0x8Bu8),
        Some(0xF8u8),
        Some(0xC1u8),
        Some(0xEFu8),
        Some(0x07u8),
        Some(0x83u8),
        Some(0xE7u8),
        Some(0x20u8),
        Some(0x25u8),
        Some(0xFFu8),
        Some(0x0Fu8),
        Some(0x00u8),
        Some(0x00u8),
    ]
}

/// The signed 32-bit number that the four bytes of `data` from `at` on hold,
/// least significant byte first.
pub open spec fn relative_offset(data: Seq<u8>, at: int) -> int {
    let raw = data[at] + data[at + 1] * 0x100 + data[at + 2] * 0x1_0000 + data[at + 3]
        * 0x100_0000;
    if raw >= 0x8000_0000 {
        raw - 0x1_0000_0000
    } else {
        raw
    }
}

/// `address` as a 64-bit address: addresses wrap around at 2^64.
pub open spec fn wrap_address(address: int) -> u64 {
    (address % 0x1_0000_0000_0000_0000) as u64
}

/// The tables that a match of the signature at offset `at` of an image loaded at
/// `kernel_base` leads to.
///
/// Two `lea` instructions follow the signature. The second one loads the
/// address of the shadow descriptor table, as a displacement from its own end.
/// The shadow table starts with the descriptor of the kernel's services; that of
/// the window manager's follows 0x20 bytes further on.
pub open spec fn tables_at(kernel_base: u64, data: Seq<u8>, at: int) -> SsdtFind {
    let lea_r11 = at + SIGNATURE_SIZE + LEA_SIZE;
    let shadow = wrap_address(
        kernel_base + lea_r11 + LEA_SIZE + relative_offset(data, lea_r11 + LEA_DISPLACEMENT),
    );
    SsdtFind { nt_table: shadow, win32k_table: wrap_address(shadow + 0x20) }
}

/// The signed 32-bit number at `data[at..at + 4]`, least significant byte first.
fn read_relative_offset(data: &[u8], at: usize) -> (value: i32)
    requires
        at + 4 <= data.len(),
    ensures
        value == relative_offset(data@, at as int),
{
    let raw: u64 = data[at] as u64 + (data[at + 1] as u64) * 0x100 + (data[at + 2] as u64)
        * 0x1_0000 + (data[at + 3] as u64) * 0x100_0000;
    if raw >= 0x8000_0000 {
        (raw as i64 - 0x1_0000_0000) as i32
    } else {
        raw as i32
    }
}

/// The address `offset + displacement` bytes from `base`.
fn offset_address(base: u64, offset: usize, displacement: i32) -> (address: u64)
    ensures
        address == wrap_address(base + offset + displacement),
{
    let modulus: u128 = 0x1_0000_0000_0000_0000;
    let lifted: u128 = base as u128 + offset as u128 + modulus;
    let moved: u128 = if displacement >= 0 {
        lifted + displacement as u128
    } else {
        lifted - (-(displacement as i64)) as u128
    };
    proof {
        let target = base + offset + displacement;
        assert(moved == target + 0x1_0000_0000_0000_0000);
        assert((target + 0x1_0000_0000_0000_0000) % 0x1_0000_0000_0000_0000 == target
            % 0x1_0000_0000_0000_0000);
    }
    (moved % modulus) as u64
}

/// The addresses of the two system service tables.
#[derive(Debug, Clone, Copy, PartialEq, Eq, Structural)]
pub struct SsdtFind {
    /// The address of the table of the kernel's own services.
    pub nt_table: u64,
    /// The address of the table of the window manager's services.
    pub win32k_table: u64,
}

impl SsdtFind {
    /// Reads a byte pattern: tokens parted by white space, each either `?`, for
    /// any byte, or one byte in hexadecimal.
    ///
    /// Fails with `HexParseError` where a token is neither.
    pub fn get_bytes_as_hex(pattern: &str) -> (bytes: Result<Vec<Option<u8>>, HypervisorError>)
        ensures
            match bytes {
                Ok(bytes) => pattern_bytes(pattern@) == Some(bytes@),
                Err(error) => error == HypervisorError::HexParseError && pattern_bytes(pattern@)
                    is None,
            },
    {
        let chars = chars_of(pattern);
        let mut bytes: Vec<Option<u8>> = Vec::new();
        let ghost mut tokens: Seq<Seq<char>> = Seq::empty();
        let mut i: usize = 0;
        assert(split_whitespace(chars@) =~= tokens + split_whitespace(chars@.skip(0))) by {
            assert(chars@.skip(0) =~= chars@);
        }
        while i < chars.len()
            invariant
                i <= chars.len(),
                chars@ == pattern@,
                split_whitespace(chars@) == tokens + split_whitespace(chars@.skip(i as int)),
                tokens.len() == bytes.len(),
                forall|t: int|
                    0 <= t < tokens.len() ==> pattern_byte(#[trigger] tokens[t]) == Some(
                        bytes@[t],
                    ),
            decreases chars.len() - i,
        {
            let ghost rest = chars@.skip(i as int);
            if is_whitespace(chars[i]) {
                assert(rest.drop_first() =~= chars@.skip(i + 1));
                i = i + 1;
            } else {
                let start = i;
                let mut end = i + 1;
                while end < chars.len() && !is_whitespace(chars[end])
                    invariant
                        start < end <= chars.len(),
                        forall|k: int| start <= k < end ==> !is_whitespace(#[trigger] chars@[k]),
                    decreases chars.len() - end,
                {
                    end = end + 1;
                }
                let ghost token = chars@.subrange(start as int, end as int);
                proof {
                    lemma_token_len_is(rest, end - start);
                    assert(rest.take(end - start) =~= token);
                    assert(rest.skip(end - start) =~= chars@.skip(end as int));
                    assert(split_whitespace(chars@) =~= tokens.push(token) + split_whitespace(
                        chars@.skip(end as int),
                    ));
                }
                match parse_pattern_byte(&chars, start, end) {
                    Some(byte) => {
                        bytes.push(byte);
                    },
                    None => {
                        assert(split_whitespace(chars@)[tokens.len() as int] == token);
                        return Err(HypervisorError::HexParseError);
                    },
                }
                proof {
                    tokens = tokens.push(token);
                }
                i = end;
            }
        }
        proof {
            assert(chars@.skip(i as int).len() == 0);
            assert(split_whitespace(chars@) =~= tokens);
            assert(pattern_bytes(pattern@)->Some_0 =~= bytes@);
        }
        Ok(bytes)
    }

    /// Looks for the first place in `data` where `pattern` matches.
    ///
    /// The pattern is read as `get_bytes_as_hex` reads it. A pattern without
    /// tokens matches at offset 0.
    pub fn pattern_scan(data: &[u8], pattern: &str) -> (found: Result<
        Option<usize>,
        HypervisorError,
    >)
        ensures
            match found {
                Ok(Some(at)) => pattern_bytes(pattern@) is Some && first_match(
                    data@,
                    pattern_bytes(pattern@)->Some_0,
                    at as int,
                ),
                Ok(None) => pattern_bytes(pattern@) is Some && no_match(
                    data@,
                    pattern_bytes(pattern@)->Some_0,
                ),
                Err(error) => error == HypervisorError::HexParseError && pattern_bytes(pattern@)
                    is None,
            },
    {
        let bytes = match Self::get_bytes_as_hex(pattern) {
            Ok(bytes) => bytes,
            Err(error) => {
                return Err(error);
            },
        };
        if bytes.len() > data.len() {
            return Ok(None);
        }
        let last = data.len() - bytes.len();
        let mut at: usize = 0;
        while at <= last
            invariant
                last == data.len() - bytes.len(),
                pattern_bytes(pattern@) == Some(bytes@),
                at <= last + 1,
                forall|k: int| 0 <= k < at ==> !matches_at(data@, bytes@, k),
            decreases last + 1 - at,
        {
            if matches_window(data, &bytes, at) {
                return Ok(Some(at));
            }
            at = at + 1;
        }
        Ok(None)
    }

    /// Finds the two system service tables of the kernel image `ntoskrnl_data`,
    /// which is loaded at the address `kernel_base`.
    ///
    /// The tables are taken from the first match of the signature. The result is
    /// `PatternNotFound` where the signature does not occur, and also where it
    /// occurs so close to the end of the image that the two instructions behind
    /// it do not lie within the image.
    pub fn find_ssdt(kernel_base: u64, ntoskrnl_data: &[u8]) -> (found: Result<
        SsdtFind,
        HypervisorError,
    >)
        ensures
            match found {
                Ok(tables) => exists|at: int|
                    {
                        &&& #[trigger] first_match(ntoskrnl_data@, signature(), at)
                        &&& at + SIGNATURE_SIZE + 2 * LEA_SIZE <= ntoskrnl_data@.len()
                        &&& tables == tables_at(kernel_base, ntoskrnl_data@, at)
                    },
                Err(error) => error == HypervisorError::PatternNotFound && forall|at: int|
                    #[trigger] first_match(ntoskrnl_data@, signature(), at) ==> at + SIGNATURE_SIZE
                        + 2 * LEA_SIZE > ntoskrnl_data@.len(),
            },
    {
        proof {
            lemma_signature_pattern();
        }
        let offset = match Self::pattern_scan(ntoskrnl_data, KI_SYSTEM_SERVICE_START_PATTERN) {
            Ok(Some(offset)) => offset,
            Ok(None) => {
                return Err(HypervisorError::PatternNotFound);
            },
            // The pattern is well formed, so this arm is never taken.
            Err(error) => {
                return Err(error);
            },
        };
        assert forall|at: int| #[trigger]
            first_match(ntoskrnl_data@, signature(), at) implies at == offset by {
            lemma_first_match_is_unique(ntoskrnl_data@, signature(), at, offset as int);
        }
        if ntoskrnl_data.len() - offset < SIGNATURE_SIZE + 2 * LEA_SIZE {
            return Err(HypervisorError::PatternNotFound);
        }
        // The `lea` that loads the descriptor table into r10 follows the
        // signature; the one that loads the shadow table into r11 follows that.
        let lea_r10 = offset + SIGNATURE_SIZE;
        let lea_r11 = lea_r10 + LEA_SIZE;
        let relative_offset = read_relative_offset(ntoskrnl_data, lea_r11 + LEA_DISPLACEMENT);
        let shadow = offset_address(kernel_base, lea_r11 + LEA_SIZE, relative_offset);
        let nt_table = shadow;
        let win32k_table = offset_address(shadow, 0x20, 0);
        Ok(SsdtFind { nt_table, win32k_table })
    }
}

/// What a token of two hexadecimal digits stands for.
proof fn lemma_pattern_byte_of_pair(token: Seq<char>, high: char, low: char)
    requires
        token == seq![high, low],
        hex_digit(high) is Some,
        hex_digit(low) is Some,
    ensures
        pattern_byte(token) == Some(
            Some((hex_digit(high)->Some_0 * 16 + hex_digit(low)->Some_0) as u8),
        ),
{
    assert(token.len() == 2 && token[0] == high && token[1] == low);
    assert(token != seq!['?']) by {
        if token == seq!['?'] {
            assert(seq!['?'].len() == 1);
        }
    }
    let digits = hex_digits_of(token);
    assert(digits == token);
    assert(digits.drop_last() =~= seq![high]);
    assert(digits.drop_last().drop_last() =~= Seq::<char>::empty());
    assert(hex_value(digits.drop_last().drop_last()) == 0);
    assert(hex_value(digits.drop_last()) == hex_digit(high)->Some_0);
    assert(hex_value(digits) == hex_digit(high)->Some_0 * 16 + hex_digit(low)->Some_0);
}

/// One step of reading a pattern of two-digit tokens from its end: the text
/// from `at` on starts with the token `high low`, which writes `byte`, and either
/// ends there or goes on with one space and a text that writes `rest`.
proof fn lemma_pattern_step(
    s: Seq<char>,
    at: int,
    high: char,
    low: char,
    byte: u8,
    rest: Seq<Option<u8>>,
)
    requires
        0 <= at,
        at + 2 <= s.len(),
        s[at] == high,
        s[at + 1] == low,
        hex_digit(high) is Some,
        hex_digit(low) is Some,
        byte == hex_digit(high)->Some_0 * 16 + hex_digit(low)->Some_0,
        at + 2 == s.len() ==> rest == Seq::<Option<u8>>::empty(),
        at + 2 < s.len() ==> s[at + 2] == ' ' && pattern_bytes(s.skip(at + 3)) == Some(rest),
    ensures
        pattern_bytes(s.skip(at)) == Some(seq![Some(byte)] + rest),
{
    let text = s.skip(at);
    let token = text.take(2);
    assert(token =~= seq![high, low]);
    lemma_pattern_byte_of_pair(token, high, low);
    lemma_token_len_is(text, 2);
    let behind = text.skip(2);
    let tail = split_whitespace(behind);
    assert(split_whitespace(text) == seq![token] + tail);
    if at + 2 == s.len() {
        assert(behind.len() == 0);
        assert(tail =~= Seq::<Seq<char>>::empty());
    } else {
        assert(is_whitespace(behind[0]));
        assert(behind.drop_first() =~= s.skip(at + 3));
        assert(tail == split_whitespace(s.skip(at + 3)));
    }
    let tokens = seq![token] + tail;
    assert(pattern_of_tokens(tail) == Some(rest));
    assert forall|i: int| 0 <= i < tokens.len() implies pattern_byte(#[trigger] tokens[i])
        is Some by {
        if i > 0 {
            assert(tokens[i] == tail[i - 1]);
        }
    }
    let bytes = seq![Some(byte)] + rest;
    assert forall|i: int| 0 <= i < tokens.len() implies pattern_byte(tokens[i])->Some_0
        == #[trigger] bytes[i] by {
        if i > 0 {
            assert(tokens[i] == tail[i - 1]);
            assert(rest[i - 1] == pattern_byte(tail[i - 1])->Some_0);
        }
    }
    assert(pattern_of_tokens(tokens)->Some_0 =~= bytes);
}

/// `KI_SYSTEM_SERVICE_START_PATTERN` writes the bytes of `signature()`.
pub proof fn lemma_signature_pattern()
    ensures
        pattern_bytes(KI_SYSTEM_SERVICE_START_PATTERN@) == Some(signature()),
{
    reveal_strlit("8B F8 C1 EF 07 83 E7 20 25 FF 0F 00 00");
    let s = KI_SYSTEM_SERVICE_START_PATTERN@;
    assert(s.len() == 38);
    let r13 = Seq::<Option<u8>>::empty();
    lemma_pattern_step(s, 36, '0', '0', 0x00, r13);
    let r12 = seq![Some(0x00u8)] + r13;
    lemma_pattern_step(s, 33, '0', '0', 0x00, r12);
    let r11 = seq![Some(0x00u8)] + r12;
    lemma_pattern_step(s, 30, '0', 'F', 0x0F, r11);
    let r10 = seq![Some(0x0Fu8)] + r11;
    lemma_pattern_step(s, 27, 'F', 'F', 0xFF, r10);
    let r9 = seq![Some(0xFFu8)] + r10;
    lemma_pattern_step(s, 24, '2', '5', 0x25, r9);
    let r8 = seq![Some(0x25u8)] + r9;
    lemma_pattern_step(s, 21, '2', '0', 0x20, r8);
    let r7 = seq![Some(0x20u8)] + r8;
    lemma_pattern_step(s, 18, 'E', '7', 0xE7, r7);
    let r6 = seq![Some(0xE7u8)] + r7;
    lemma_pattern_step(s, 15, '8', '3', 0x83, r6);
    let r5 = seq![Some(0x83u8)] + r6;
    lemma_pattern_step(s, 12, '0', '7', 0x07, r5);
    let r4 = seq![Some(0x07u8)] + r5;
    lemma_pattern_step(s, 9, 'E', 'F', 0xEF, r4);
    let r3 = seq![Some(0xEFu8)] + r4;
    lemma_pattern_step(s, 6, 'C', '1', 0xC1, r3);
    let r2 = seq![Some(0xC1u8)] + r3;
    lemma_pattern_step(s, 3, 'F', '8', 0xF8, r2);
    let r1 = seq![Some(0xF8u8)] + r2;
    lemma_pattern_step(s, 0, '8', 'B', 0x8B, r1);
    let r0 = seq![Some(0x8Bu8)] + r1;
    assert(s.skip(0) =~= s);
    assert(r0 =~= signature());
}

} // verus!
