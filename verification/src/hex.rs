//! The canonical text form of an identifier: sixty-four hexadecimal digits,
//! two per byte, most significant nibble first. Lower case is written;
//! either case is read.

use vstd::prelude::*;
use vstd::string::*;

use crate::hash::HASH_LEN;

verus! {

/// Number of characters in the text form of an identifier.
pub const HEX_LEN: usize = 64;

/// Why a text is not the text form of an identifier.
#[derive(Clone, Copy, Debug, PartialEq, Eq, Structural)]
pub enum ParseError {
    /// The text is not sixty-four bytes long; `len` is its length in bytes
    /// of UTF-8.
    InvalidLength { len: usize },
    /// The byte at `index` is the first that is no hexadecimal digit.
    InvalidDigit { index: usize, byte: u8 },
}

// ---------------------------------------------------------------------------
// Digits
// ---------------------------------------------------------------------------

/// The lower-case digit that stands for a nibble.
pub open spec fn hex_digit(nibble: int) -> char
    recommends
        0 <= nibble < 16,
{
    if nibble < 10 {
        (0x30 + nibble) as char
    } else {
        (0x61 + (nibble - 10)) as char
    }
}

/// A lower-case hexadecimal digit: `0` to `9` or `a` to `f`.
pub open spec fn is_lower_hex(c: char) -> bool {
    '0' <= c <= '9' || 'a' <= c <= 'f'
}

/// The value of a hexadecimal digit, of either case, given as an ASCII byte.
pub open spec fn digit_value(byte: u8) -> Option<u8> {
    if 0x30 <= byte <= 0x39 {
        Some((byte - 0x30) as u8)
    } else if 0x61 <= byte <= 0x66 {
        Some((byte - 0x61 + 10) as u8)
    } else if 0x41 <= byte <= 0x46 {
        Some((byte - 0x41 + 10) as u8)
    } else {
        None
    }
}

/// An ASCII letter in lower case; any other byte as it is.
pub open spec fn lower_case(byte: u8) -> u8 {
    if 0x41 <= byte <= 0x5a {
        (byte + 0x20) as u8
    } else {
        byte
    }
}

// ---------------------------------------------------------------------------
// What is written and what is read
// ---------------------------------------------------------------------------

/// The text form of a byte string: character `2k` is the digit of the high
/// nibble of byte `k`, character `2k + 1` the digit of its low nibble.
pub open spec fn hex_text(data: Seq<u8>) -> Seq<char> {
    Seq::new(
        2 * data.len(),
        |i: int|
            if i % 2 == 0 {
                hex_digit(data[i / 2] as int / 16)
            } else {
                hex_digit(data[i / 2] as int % 16)
            },
    )
}

/// Every byte of `text` is a hexadecimal digit.
pub open spec fn all_digits(text: Seq<u8>) -> bool {
    forall|j: int| 0 <= j < text.len() ==> digit_value(#[trigger] text[j]) is Some
}

/// `index` is the position of the first byte of `text` that is no digit.
pub open spec fn is_first_non_digit(text: Seq<u8>, index: int) -> bool {
    &&& 0 <= index < text.len()
    &&& digit_value(text[index]) is None
    &&& forall|j: int| 0 <= j < index ==> digit_value(#[trigger] text[j]) is Some
}

/// The bytes that a run of digit pairs stands for: byte `k` has the value of
/// digit `2k` as its high nibble and that of digit `2k + 1` as its low one.
pub open spec fn paired_bytes(text: Seq<u8>) -> Seq<u8> {
    Seq::new(
        text.len() / 2,
        |k: int| (16 * digit_value(text[2 * k])->0 + digit_value(text[2 * k + 1])->0) as u8,
    )
}

/// What parsing the bytes of a text yields: the thirty-two bytes it stands
/// for, or the reason why it stands for none. The length is looked at first,
/// then the digits from left to right.
pub open spec fn parse_hex(text: Seq<u8>) -> Result<Seq<u8>, ParseError> {
    if text.len() != HEX_LEN {
        Err(ParseError::InvalidLength { len: text.len() as usize })
    } else if all_digits(text) {
        Ok(paired_bytes(text))
    } else {
        let index = choose|i: int| is_first_non_digit(text, i);
        Err(ParseError::InvalidDigit { index: index as usize, byte: text[index] })
    }
}

/// What parsing a text yields, the text taken by its UTF-8 bytes.
pub open spec fn parse_text(text: Seq<char>) -> Result<Seq<u8>, ParseError> {
    parse_hex(vstd::utf8::encode_utf8(text))
}

/// At most one position is the first non-digit, and none is where all are
/// digits.
pub proof fn lemma_first_non_digit(text: Seq<u8>, index: int)
    requires
        is_first_non_digit(text, index),
    ensures
        !all_digits(text),
        (choose|i: int| is_first_non_digit(text, i)) == index,
{
    let chosen = choose|i: int| is_first_non_digit(text, i);
    assert(is_first_non_digit(text, chosen));
    if chosen < index {
        assert(digit_value(text[chosen]) is Some);
    } else if index < chosen {
        assert(digit_value(text[index]) is Some);
    }
}

// ---------------------------------------------------------------------------
// Writing
// ---------------------------------------------------------------------------

/// Appends the digit of one nibble.
fn push_digit(text: &mut String, nibble: u8)
    requires
        nibble < 16,
    ensures
        final(text)@ == old(text)@.push(hex_digit(nibble as int)),
{
    let digits = "0123456789abcdef";
    proof {
        reveal_strlit("0123456789abcdef");
    }
    let at: usize = nibble as usize;
    let digit = digits.substring_ascii(at, at + 1);
    assert(digit@ =~= seq![hex_digit(nibble as int)]);
    text.append(digit);
    assert(text@ =~= old(text)@.push(hex_digit(nibble as int)));
}

/// Renders an identifier as sixty-four lower-case hexadecimal digits.
pub fn hash_to_hex(hash: &crate::hash::Hash) -> (text: String)
    ensures
        text@ == hex_text(hash@),
        text@.len() == HEX_LEN,
{
    let bytes = hash.as_bytes();
    let mut text = String::new();
    let mut i: usize = 0;
    while i < HASH_LEN
        invariant
            i <= 32,
            bytes@ == hash@,
            bytes@.len() == 32,
            text@ == hex_text(hash@.take(i as int)),
        decreases 32 - i,
    {
        let byte: u8 = bytes[i];
        push_digit(&mut text, byte / 16);
        push_digit(&mut text, byte % 16);
        i += 1;
        assert(text@ =~= hex_text(hash@.take(i as int)));
    }
    assert(hash@.take(32) =~= hash@);
    text
}

// ---------------------------------------------------------------------------
// Reading
// ---------------------------------------------------------------------------

/// The value of one digit, or `None` for any other byte.
fn nibble(byte: u8) -> (value: Option<u8>)
    ensures
        value == digit_value(byte),
        value matches Some(v) ==> v < 16,
{
    if 0x30 <= byte && byte <= 0x39 {
        Some(byte - 0x30)
    } else if 0x61 <= byte && byte <= 0x66 {
        Some(byte - 0x61 + 10)
    } else if 0x41 <= byte && byte <= 0x46 {
        Some(byte - 0x41 + 10)
    } else {
        None
    }
}

/// Parses the text form of an identifier. Digits of either case are taken;
/// anything but sixty-four of them is refused, with the reason.
pub fn hex_to_hash(text: &str) -> (result: Result<crate::hash::Hash, ParseError>)
    ensures
        match result {
            Ok(hash) => parse_text(text@) == Ok::<Seq<u8>, ParseError>(hash@),
            Err(error) => parse_text(text@) == Err::<Seq<u8>, ParseError>(error),
        },
{
    let digits = text.as_bytes();
    if digits.len() != HEX_LEN {
        return Err(ParseError::InvalidLength { len: digits.len() });
    }
    let mut bytes: [u8; 32] = [0u8; 32];
    let mut k: usize = 0;
    while k < HASH_LEN
        invariant
            k <= 32,
            digits@ == vstd::utf8::encode_utf8(text@),
            digits@.len() == 64,
            forall|j: int| 0 <= j < 2 * k ==> digit_value(#[trigger] digits@[j]) is Some,
            forall|j: int| 0 <= j < k ==> #[trigger] bytes@[j] == paired_bytes(digits@)[j],
        decreases 32 - k,
    {
        let high = match nibble(digits[2 * k]) {
            Some(value) => value,
            None => {
                proof {
                    lemma_first_non_digit(digits@, (2 * k) as int);
                }
                return Err(ParseError::InvalidDigit { index: 2 * k, byte: digits[2 * k] });
            },
        };
        let low = match nibble(digits[2 * k + 1]) {
            Some(value) => value,
            None => {
                proof {
                    lemma_first_non_digit(digits@, (2 * k + 1) as int);
                }
                return Err(ParseError::InvalidDigit { index: 2 * k + 1, byte: digits[2 * k + 1] });
            },
        };
        bytes[k] = 16 * high + low;
        k += 1;
    }
    assert(all_digits(digits@));
    assert(bytes@ =~= paired_bytes(digits@));
    Ok(crate::hash::Hash::from_bytes(bytes))
}

// ---------------------------------------------------------------------------
// Describing a failure
// ---------------------------------------------------------------------------

/// A number in decimal, without sign or leading zeros.
pub open spec fn decimal_text(n: nat) -> Seq<char>
    decreases n,
{
    if n < 10 {
        seq![hex_digit(n as int)]
    } else {
        decimal_text(n / 10).push(hex_digit((n % 10) as int))
    }
}

/// Appends a number in decimal.
fn push_decimal(text: &mut String, n: usize)
    ensures
        final(text)@ == old(text)@ + decimal_text(n as nat),
    decreases n,
{
    if n >= 10 {
        push_decimal(text, n / 10);
    }
    push_digit(text, (n % 10) as u8);
    assert(text@ =~= old(text)@ + decimal_text(n as nat));
}

impl ParseError {
    /// The description of the failure: the length found, or the offending
    /// byte in hexadecimal and its position.
    pub open spec fn message_spec(self) -> Seq<char> {
        match self {
            ParseError::InvalidLength { len } => "expected 64 hexadecimal digits, found "@
                + decimal_text(len as nat) + " bytes"@,
            ParseError::InvalidDigit { index, byte } => "invalid hexadecimal digit 0x"@ + hex_text(
                seq![byte],
            ) + " at byte "@ + decimal_text(index as nat),
        }
    }

    /// Describes the failure in words.
    pub fn message(&self) -> (text: String)
        ensures
            text@ == self.message_spec(),
    {
        match *self {
            ParseError::InvalidLength { len } => {
                let mut text = "expected 64 hexadecimal digits, found ".to_owned();
                push_decimal(&mut text, len);
                text.append(" bytes");
                text
            },
            ParseError::InvalidDigit { index, byte } => {
                let mut text = "invalid hexadecimal digit 0x".to_owned();
                push_digit(&mut text, byte / 16);
                push_digit(&mut text, byte % 16);
                assert(text@ =~= "invalid hexadecimal digit 0x"@ + hex_text(seq![byte]));
                text.append(" at byte ");
                push_decimal(&mut text, index);
                text
            },
        }
    }
}

// ---------------------------------------------------------------------------
// Laws of the text form
// ---------------------------------------------------------------------------

/// The text form has two characters per byte, each a lower-case digit.
pub proof fn lemma_hex_text_shape(data: Seq<u8>)
    ensures
        hex_text(data).len() == 2 * data.len(),
        forall|i: int| 0 <= i < 2 * data.len() ==> is_lower_hex(#[trigger] hex_text(data)[i]),
{
}

/// The text form is plain ASCII: its UTF-8 bytes are its characters, one
/// for one.
pub proof fn lemma_hex_text_bytes(data: Seq<u8>)
    ensures
        vstd::utf8::encode_utf8(hex_text(data)).len() == 2 * data.len(),
        forall|i: int|
            0 <= i < 2 * data.len() ==> #[trigger] vstd::utf8::encode_utf8(hex_text(data))[i]
                == hex_text(data)[i] as u8,
{
    let text = hex_text(data);
    assert(vstd::utf8::is_ascii_chars(text)) by {
        assert forall|i: int| 0 <= i < text.len() implies '\0' <= #[trigger] text[i] <= '\u{7f}' by {
            assert(is_lower_hex(text[i]));
        }
    }
    vstd::utf8::is_ascii_chars_encode_utf8(text);
    assert forall|i: int| 0 <= i < 2 * data.len() implies #[trigger] vstd::utf8::encode_utf8(
        text,
    )[i] == text[i] as u8 by {
        assert(text[i] as u8 == vstd::utf8::encode_utf8(text)[i]);
    }
}

/// A written digit is read as the nibble that it was written for.
proof fn lemma_digit_value_of_hex_digit(nibble: int)
    requires
        0 <= nibble < 16,
    ensures
        digit_value(hex_digit(nibble) as u8) == Some(nibble as u8),
{
}

/// The two bytes written for byte `k` are read as its two nibbles.
proof fn lemma_written_pair(data: Seq<u8>, k: int)
    requires
        0 <= k < data.len(),
    ensures
        digit_value(vstd::utf8::encode_utf8(hex_text(data))[2 * k]) == Some(
            (data[k] / 16) as u8,
        ),
        digit_value(vstd::utf8::encode_utf8(hex_text(data))[2 * k + 1]) == Some(
            (data[k] % 16) as u8,
        ),
{
    let text = hex_text(data);
    let bytes = vstd::utf8::encode_utf8(text);
    lemma_hex_text_bytes(data);
    assert(bytes[2 * k] == text[2 * k] as u8);
    assert(bytes[2 * k + 1] == text[2 * k + 1] as u8);
    assert(text[2 * k] == hex_digit(data[k] as int / 16));
    assert(text[2 * k + 1] == hex_digit(data[k] as int % 16));
    lemma_digit_value_of_hex_digit(data[k] as int / 16);
    lemma_digit_value_of_hex_digit(data[k] as int % 16);
}

/// Parsing the text form of thirty-two bytes gives those bytes back.
pub proof fn lemma_parse_hex_text(data: Seq<u8>)
    requires
        data.len() == 32,
    ensures
        parse_text(hex_text(data)) == Ok::<Seq<u8>, ParseError>(data),
{
    let bytes = vstd::utf8::encode_utf8(hex_text(data));
    lemma_hex_text_bytes(data);
    assert forall|j: int| 0 <= j < bytes.len() implies digit_value(#[trigger] bytes[j])
        is Some by {
        let k = j / 2;
        assert(j == 2 * k || j == 2 * k + 1);
        lemma_written_pair(data, k);
    }
    assert forall|k: int| 0 <= k < 32 implies #[trigger] paired_bytes(bytes)[k] == data[k] by {
        lemma_written_pair(data, k);
        let high: u8 = (data[k] / 16) as u8;
        let low: u8 = (data[k] % 16) as u8;
        assert(16 * high + low == data[k]);
    }
    assert(paired_bytes(bytes) =~= data);
}

/// Whatever parses stands for exactly thirty-two bytes.
pub proof fn lemma_parsed_len(text: Seq<u8>)
    ensures
        parse_hex(text) matches Ok(data) ==> data.len() == 32,
{
}

/// The digit written for the value of a digit is that digit in lower case.
proof fn lemma_digit_lower_case(byte: u8)
    requires
        digit_value(byte) is Some,
    ensures
        digit_value(byte)->0 < 16,
        hex_digit(digit_value(byte)->0 as int) as u8 == lower_case(byte),
{
}

/// The digits written for a byte that was read from a pair of digits are
/// that pair in lower case.
proof fn lemma_lowered_pair(text: Seq<u8>, k: int)
    requires
        all_digits(text),
        0 <= k < text.len() / 2,
    ensures
        hex_digit(paired_bytes(text)[k] as int / 16) as u8 == lower_case(text[2 * k]),
        hex_digit(paired_bytes(text)[k] as int % 16) as u8 == lower_case(text[2 * k + 1]),
{
    let high = digit_value(text[2 * k])->0;
    let low = digit_value(text[2 * k + 1])->0;
    lemma_digit_lower_case(text[2 * k]);
    lemma_digit_lower_case(text[2 * k + 1]);
    assert(paired_bytes(text)[k] == 16 * high + low);
    assert((16 * high + low) / 16 == high && (16 * high + low) % 16 == low);
}

/// Writing what was parsed gives the text back in lower case, and that text
/// parses to the same bytes: reading and writing in turn changes nothing
/// after the first round.
pub proof fn lemma_write_parsed(text: Seq<u8>, data: Seq<u8>)
    requires
        parse_hex(text) == Ok::<Seq<u8>, ParseError>(data),
    ensures
        vstd::utf8::encode_utf8(hex_text(data)) == text.map_values(|byte: u8| lower_case(byte)),
        parse_text(hex_text(data)) == Ok::<Seq<u8>, ParseError>(data),
{
    assert(text.len() == 64 && all_digits(text) && data == paired_bytes(text));
    lemma_parse_hex_text(data);
    let written = hex_text(data);
    let bytes = vstd::utf8::encode_utf8(written);
    let lowered = text.map_values(|byte: u8| lower_case(byte));
    lemma_hex_text_bytes(data);
    assert forall|i: int| 0 <= i < 64 implies bytes[i] == lowered[i] by {
        let k = i / 2;
        assert(i == 2 * k || i == 2 * k + 1);
        lemma_lowered_pair(text, k);
        assert(bytes[i] == written[i] as u8);
        assert(written[2 * k] == hex_digit(data[k] as int / 16));
        assert(written[2 * k + 1] == hex_digit(data[k] as int % 16));
    }
    assert(bytes =~= lowered);
}

} // verus!
