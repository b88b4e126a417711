//! The codec behind serde's two kinds of format: JSON, which is
//! human-readable, and postcard, which is not.

use hash_codec::codec::{decode, encode, Encoded, FormatMode};
use serde::{Deserialize, Deserializer, Serialize, Serializer};

/// The BLAKE3 digest of `b"hello"`.
const HELLO_DIGEST: [u8; 32] = [
    0xea, 0x8f, 0x16, 0x3d, 0xb3, 0x86, 0x82, 0x92, 0x5e, 0x44, 0x91, 0xc5, 0xe5, 0x8d, 0x4b, 0xb3,
    0x50, 0x6e, 0xf8, 0xc1, 0x4e, 0xb7, 0x8a, 0x86, 0xe9, 0x08, 0xc5, 0x62, 0x4a, 0x67, 0x20, 0x0f,
];

/// Stands in for a hash function: the identifier of the one input used here.
fn hash(input: &[u8]) -> Wire {
    assert_eq!(input, b"hello");
    Wire(hash_codec::hash::Hash::from(HELLO_DIGEST))
}

/// An identifier that serde can write and read.
#[derive(Debug, PartialEq)]
struct Wire(hash_codec::hash::Hash);

impl Serialize for Wire {
    fn serialize<S>(&self, serializer: S) -> Result<S::Ok, S::Error>
    where
        S: Serializer,
    {
        let mode = FormatMode::from_human_readable(serializer.is_human_readable());
        match encode(&self.0, mode) {
            Encoded::Text(text) => serializer.serialize_str(text.as_str()),
            Encoded::Bytes(bytes) => bytes.serialize(serializer),
        }
    }
}

impl<'de> Deserialize<'de> for Wire {
    fn deserialize<D>(deserializer: D) -> Result<Self, D::Error>
    where
        D: Deserializer<'de>,
    {
        let mode = FormatMode::from_human_readable(deserializer.is_human_readable());
        let payload = match mode {
            FormatMode::HumanReadable => Encoded::Text(String::deserialize(deserializer)?),
            FormatMode::Compact => Encoded::Bytes(<[u8; 32]>::deserialize(deserializer)?),
        };
        match decode(&payload, mode) {
            Ok(hash) => Ok(Wire(hash)),
            Err(error) => Err(serde::de::Error::custom(error.message())),
        }
    }
}

#[test]
fn test_hash_postcard() {
    let hash = hash(b"hello");
    let ser = postcard::to_stdvec(&hash).unwrap();
    let de: Wire = postcard::from_bytes(&ser).unwrap();
    assert_eq!(hash, de);

    assert_eq!(ser.len(), 32);
}

#[test]
fn test_hash_json() {
    let hash = hash(b"hello");
    let ser = serde_json::to_string(&hash).unwrap();
    let de: Wire = serde_json::from_str(&ser).unwrap();
    assert_eq!(hash, de);
    // 64 bytes of hex + 2 quotes
    assert_eq!(ser.len(), 66);
}

#[test]
fn postcard_bytes_are_the_raw_digest() {
    let ser = postcard::to_stdvec(&hash(b"hello")).unwrap();
    assert_eq!(ser, HELLO_DIGEST.to_vec());
}

#[test]
fn json_text_is_the_quoted_lower_case_hex() {
    let ser = serde_json::to_string(&hash(b"hello")).unwrap();
    assert_eq!(
        ser,
        "\"ea8f163db38682925e4491c5e58d4bb3506ef8c14eb78a86e908c5624a67200f\""
    );
}

#[test]
fn json_accepts_upper_case_digits() {
    let de: Wire = serde_json::from_str(
        "\"EA8F163DB38682925E4491C5E58D4BB3506EF8C14EB78A86E908C5624A67200F\"",
    )
    .unwrap();
    assert_eq!(de, hash(b"hello"));
}

#[test]
fn json_malformed_text_is_an_error_with_the_parser_reason() {
    let result: Result<Wire, serde_json::Error> = serde_json::from_str("\"not-valid-hex\"");
    let error = result.unwrap_err();
    assert!(error.is_data());
    assert!(error
        .to_string()
        .starts_with("expected 64 hexadecimal digits, found 13 bytes"));
}

#[test]
fn json_rejects_a_bad_digit_with_its_place() {
    let mut text = String::from("\"");
    text.push_str("ea8f163db38682925e4491c5e58d4bb3506ef8c14eb78a86e908c5624a67200");
    text.push_str("g\"");
    let result: Result<Wire, serde_json::Error> = serde_json::from_str(&text);
    assert!(result
        .unwrap_err()
        .to_string()
        .starts_with("invalid hexadecimal digit 0x67 at byte 63"));
}

#[test]
fn postcard_short_input_is_the_reader_error() {
    let result: Result<Wire, postcard::Error> = postcard::from_bytes(&HELLO_DIGEST[..31]);
    assert!(result.is_err());
}

#[test]
fn the_two_formats_differ_for_the_same_identifier() {
    let hash = hash(b"hello");
    let binary = postcard::to_stdvec(&hash).unwrap();
    let text = serde_json::to_string(&hash).unwrap();
    assert_ne!(binary, text.as_bytes().to_vec());
    let as_json: Result<Wire, serde_json::Error> = serde_json::from_slice(&binary);
    assert!(as_json.is_err());
}
