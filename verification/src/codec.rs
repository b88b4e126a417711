//! The codec proper: one identifier, two representations, and a mode that
//! says which of the two a format reads and writes.

use vstd::prelude::*;

use crate::hex::{
    hash_to_hex, hex_text, hex_to_hash, is_lower_hex, lemma_hex_text_shape, lemma_parse_hex_text,
    parse_text, ParseError,
};

verus! {

/// The kind of format that a value is written to or read from.
#[derive(Clone, Copy, Debug, PartialEq, Eq, Structural)]
pub enum FormatMode {
    /// A text format meant for people, where values are printable.
    HumanReadable,
    /// A binary format, where a fixed-size value is its raw bytes.
    Compact,
}

impl FormatMode {
    /// The mode of a format that answers `human_readable` when asked whether
    /// it is meant for people.
    pub fn from_human_readable(human_readable: bool) -> (mode: FormatMode)
        ensures
            mode == (if human_readable {
                FormatMode::HumanReadable
            } else {
                FormatMode::Compact
            }),
    {
        if human_readable {
            FormatMode::HumanReadable
        } else {
            FormatMode::Compact
        }
    }

    /// Whether values are written as text in this mode.
    pub fn is_human_readable(self) -> (human_readable: bool)
        ensures
            human_readable == (self == FormatMode::HumanReadable),
    {
        match self {
            FormatMode::HumanReadable => true,
            FormatMode::Compact => false,
        }
    }

    /// How long an identifier is in this mode: sixty-four characters as
    /// text, thirty-two bytes raw.
    pub open spec fn encoded_len(self) -> nat {
        match self {
            FormatMode::HumanReadable => 64,
            FormatMode::Compact => 32,
        }
    }
}

/// An identifier as handed to, or taken from, a format.
#[derive(Debug, PartialEq, Eq)]
pub enum Encoded {
    /// A string value: sixty-four hexadecimal digits.
    Text(String),
    /// A fixed-size byte array, with no length prefix.
    Bytes([u8; 32]),
}

/// What an [`Encoded`] holds.
pub enum EncodedView {
    /// The characters of a string value.
    Text(Seq<char>),
    /// The bytes of a byte array.
    Bytes(Seq<u8>),
}

impl EncodedView {
    /// The number of characters of a text, or of bytes of a byte array.
    pub open spec fn len(self) -> nat {
        match self {
            EncodedView::Text(text) => text.len(),
            EncodedView::Bytes(bytes) => bytes.len(),
        }
    }
}

impl View for Encoded {
    type V = EncodedView;

    open spec fn view(&self) -> EncodedView {
        match self {
            Encoded::Text(text) => EncodedView::Text(text@),
            Encoded::Bytes(bytes) => EncodedView::Bytes(bytes@),
        }
    }
}

impl Clone for Encoded {
    fn clone(&self) -> (copy: Encoded)
        ensures
            copy@ == self@,
    {
        match self {
            Encoded::Text(text) => Encoded::Text(text.clone()),
            Encoded::Bytes(bytes) => Encoded::Bytes(*bytes),
        }
    }
}

/// Why a payload gave no identifier.
#[derive(Clone, Copy, Debug, PartialEq, Eq, Structural)]
pub enum DecodeError {
    /// The string read in human-readable mode is no text form of an
    /// identifier; the parser's own reason is kept as it is.
    Parse(ParseError),
    /// The payload is not of the shape that the mode reads: bytes where a
    /// string was asked for, or a string where bytes were.
    ShapeMismatch,
}

impl DecodeError {
    /// The description of the failure; that of a parse failure is the
    /// parser's own, unchanged.
    pub open spec fn message_spec(self) -> Seq<char> {
        match self {
            DecodeError::Parse(error) => error.message_spec(),
            DecodeError::ShapeMismatch => "payload is not of the shape that the format mode reads"@,
        }
    }

    /// Describes the failure.
    pub fn message(&self) -> (text: String)
        ensures
            text@ == self.message_spec(),
    {
        match self {
            DecodeError::Parse(error) => error.message(),
            DecodeError::ShapeMismatch => {
                "payload is not of the shape that the format mode reads".to_owned()
            },
        }
    }
}

/// The representation of the identifier with bytes `hash` in `mode`.
pub open spec fn encode_spec(hash: Seq<u8>, mode: FormatMode) -> EncodedView {
    match mode {
        FormatMode::HumanReadable => EncodedView::Text(hex_text(hash)),
        FormatMode::Compact => EncodedView::Bytes(hash),
    }
}

/// The bytes of the identifier that `payload` stands for when read in `mode`.
/// The mode alone decides how the payload is read.
pub open spec fn decode_spec(payload: EncodedView, mode: FormatMode) -> Result<
    Seq<u8>,
    DecodeError,
> {
    match (mode, payload) {
        (FormatMode::HumanReadable, EncodedView::Text(text)) => match parse_text(text) {
            Ok(bytes) => Ok(bytes),
            Err(error) => Err(DecodeError::Parse(error)),
        },
        (FormatMode::Compact, EncodedView::Bytes(bytes)) => Ok(bytes),
        _ => Err(DecodeError::ShapeMismatch),
    }
}

/// Writes an identifier for a format of the given mode: its hexadecimal text
/// for a human-readable one, its raw bytes for a compact one. Never fails.
pub fn encode(hash: &crate::hash::Hash, mode: FormatMode) -> (encoded: Encoded)
    ensures
        encoded@ == encode_spec(hash@, mode),
        encoded@.len() == mode.encoded_len(),
{
    proof {
        hash.lemma_len();
    }
    match mode {
        FormatMode::HumanReadable => Encoded::Text(hash_to_hex(hash)),
        FormatMode::Compact => Encoded::Bytes(*hash.as_bytes()),
    }
}

/// Reads an identifier back from what a format of the given mode supplied.
pub fn decode(payload: &Encoded, mode: FormatMode) -> (result: Result<
    crate::hash::Hash,
    DecodeError,
>)
    ensures
        match result {
            Ok(hash) => decode_spec(payload@, mode) == Ok::<Seq<u8>, DecodeError>(hash@),
            Err(error) => decode_spec(payload@, mode) == Err::<Seq<u8>, DecodeError>(error),
        },
{
    match (mode, payload) {
        (FormatMode::HumanReadable, Encoded::Text(text)) => match hex_to_hash(text.as_str()) {
            Ok(hash) => Ok(hash),
            Err(error) => Err(DecodeError::Parse(error)),
        },
        (FormatMode::Compact, Encoded::Bytes(bytes)) => Ok(crate::hash::Hash::from_bytes(*bytes)),
        _ => Err(DecodeError::ShapeMismatch),
    }
}

/// In compact mode, what is written for an identifier is read back as that
/// identifier.
pub proof fn lemma_round_trip_compact(hash: crate::hash::Hash)
    ensures
        decode_spec(encode_spec(hash@, FormatMode::Compact), FormatMode::Compact) == Ok::<
            Seq<u8>,
            DecodeError,
        >(hash@),
{
}

/// In human-readable mode, what is written for an identifier is read back as
/// that identifier.
pub proof fn lemma_round_trip_human_readable(hash: crate::hash::Hash)
    ensures
        decode_spec(
            encode_spec(hash@, FormatMode::HumanReadable),
            FormatMode::HumanReadable,
        ) == Ok::<Seq<u8>, DecodeError>(hash@),
{
    hash.lemma_len();
    lemma_parse_hex_text(hash@);
}

/// The length of what is written depends on the mode alone: thirty-two bytes
/// in compact mode, sixty-four lower-case hexadecimal digits otherwise.
pub proof fn lemma_fixed_length(hash: crate::hash::Hash)
    ensures
        encode_spec(hash@, FormatMode::Compact) matches EncodedView::Bytes(bytes) && bytes.len()
            == 32,
        encode_spec(hash@, FormatMode::HumanReadable) matches EncodedView::Text(text)
            && text.len() == 64 && forall|i: int|
            0 <= i < 64 ==> is_lower_hex(#[trigger] text[i]),
{
    hash.lemma_len();
    lemma_hex_text_shape(hash@);
}

/// Writing is a function of the identifier and the mode: two results for the
/// same identifier in the same mode hold the same.
pub proof fn lemma_encode_deterministic(
    first: crate::hash::Hash,
    second: crate::hash::Hash,
    mode: FormatMode,
    once: Encoded,
    again: Encoded,
)
    requires
        first == second,
        once@ == encode_spec(first@, mode),
        again@ == encode_spec(second@, mode),
    ensures
        once@ == again@,
{
}

/// The two representations of an identifier differ, and what was written in
/// one mode is refused when read in the other: the mode given to the reader
/// decides, never the look of the payload.
pub proof fn lemma_modes_do_not_collide(
    hash: crate::hash::Hash,
    written: FormatMode,
    read: FormatMode,
)
    ensures
        encode_spec(hash@, FormatMode::HumanReadable) != encode_spec(hash@, FormatMode::Compact),
        written != read ==> decode_spec(encode_spec(hash@, written), read) == Err::<
            Seq<u8>,
            DecodeError,
        >(DecodeError::ShapeMismatch),
        decode_spec(encode_spec(hash@, written), read) is Ok <==> written == read,
{
    lemma_round_trip_compact(hash);
    lemma_round_trip_human_readable(hash);
}

/// A payload is read only in the mode whose shape it has, whatever it holds.
pub proof fn lemma_shape_follows_mode(payload: EncodedView, mode: FormatMode)
    ensures
        decode_spec(payload, mode) is Ok ==> (mode == FormatMode::HumanReadable <==> payload
            is Text),
        decode_spec(payload, mode) == Err::<Seq<u8>, DecodeError>(DecodeError::ShapeMismatch)
            <==> (mode == FormatMode::HumanReadable <==> payload is Bytes),
{
}

} // verus!
