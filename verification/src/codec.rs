//! The two outside codecs of stored files: gzip from `flate2` and JSON from
//! `serde_json`.
//!
//! Nothing in this file is proved. Each result is a function of the argument
//! alone and gets a name; the contracts say no more than that, but for the
//! one fact that makes gzip a codec: what the encoder wrote, the decoder
//! reads back.

use std::io::{Read, Write};
use vstd::prelude::*;

verus! {

/// `serde_json::Value`, carried as it is.
#[verifier::external_type_specification]
#[verifier::external_body]
pub struct ExValue(serde_json::Value);

/// `serde_json::Error`, carried as it is.
#[verifier::external_type_specification]
#[verifier::external_body]
pub struct ExJsonError(serde_json::Error);

/// `std::io::Error`, carried as it is.
#[verifier::external_type_specification]
#[verifier::external_body]
pub struct ExIoError(std::io::Error);

/// The gzip stream that `flate2::write::GzEncoder` makes of the UTF-8 bytes
/// of `text` at the default level; `None` where it fails.
pub uninterp spec fn gzip(text: Seq<char>) -> Option<Seq<u8>>;

/// The text that `flate2::read::GzDecoder` reads out of `stored`; `None`
/// where `stored` is no gzip stream or what it holds is not UTF-8.
pub uninterp spec fn gunzip(stored: Seq<u8>) -> Option<Seq<char>>;

/// The JSON text that `serde_json::to_string` writes for `value`; `None`
/// where it fails.
pub uninterp spec fn json_text(value: serde_json::Value) -> Option<Seq<char>>;

/// The value that `serde_json::from_str` reads out of `text`; `None` where
/// `text` is not JSON.
pub uninterp spec fn json_value(text: Seq<char>) -> Option<serde_json::Value>;

/// Runs the UTF-8 bytes of `text` through a `GzEncoder` over a vector, at
/// `Compression::default()`. The stream is `gzip` of the text, and a
/// `GzDecoder` reads the same text back from it.
#[verifier::external_body]
pub(crate) fn compress(text: &str) -> (res: Result<Vec<u8>, std::io::Error>)
    ensures
        match res {
            Ok(stored) => gzip(text@) == Some(stored@) && gunzip(stored@) == Some(text@),
            Err(_) => gzip(text@) is None,
        },
{
    let mut encoder = flate2::write::GzEncoder::new(Vec::new(), flate2::Compression::default());
    encoder.write_all(text.as_bytes())?;
    encoder.finish()
}

/// Reads `stored` to its end through a `GzDecoder`, as text. The text is
/// `gunzip` of the bytes.
#[verifier::external_body]
pub(crate) fn decompress(stored: &[u8]) -> (res: Result<String, std::io::Error>)
    ensures
        match res {
            Ok(text) => gunzip(stored@) == Some(text@),
            Err(_) => gunzip(stored@) is None,
        },
{
    let mut decoder = flate2::read::GzDecoder::new(stored);
    let mut text = String::new();
    decoder.read_to_string(&mut text)?;
    Ok(text)
}

/// `serde_json::to_string` on a value. The text is `json_text` of the value.
/// The call walks the value recursively, as dropping it does.
#[verifier::external_body]
pub(crate) fn encode(value: &serde_json::Value) -> (res: Result<String, serde_json::Error>)
    ensures
        match res {
            Ok(text) => json_text(*value) == Some(text@),
            Err(_) => json_text(*value) is None,
        },
{
    serde_json::to_string(value)
}

/// `serde_json::from_str` into a value. The value is `json_value` of the text.
#[verifier::external_body]
pub(crate) fn parse(text: &str) -> (res: Result<serde_json::Value, serde_json::Error>)
    ensures
        match res {
            Ok(value) => json_value(text@) == Some(value),
            Err(_) => json_value(text@) is None,
        },
{
    serde_json::from_str(text)
}

} // verus!
