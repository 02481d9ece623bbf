//! The writer of stored files: guard, JSON, gzip.

use crate::codec::{compress, encode, gunzip, gzip, json_text, json_value};
use crate::guard::{admitted, check_path, Limits, StoreError};
use crate::read::{read_outcome, text_outcome};
use vstd::prelude::*;

verus! {

/// The bytes to store for a JSON text at `path`, or why there are none.
pub open spec fn text_written(text: Seq<char>, path: Seq<char>) -> Result<Seq<u8>, StoreError> {
    if !admitted(path) {
        Err(StoreError::InvalidInput)
    } else {
        match gzip(text) {
            Some(stored) => Ok(stored),
            None => Err(StoreError::CompressionError),
        }
    }
}

/// The bytes to store for a value at `path`, or why there are none: the path
/// is checked first, then the value is written as JSON, then compressed.
pub open spec fn sync_outcome(value: serde_json::Value, path: Seq<char>) -> Result<
    Seq<u8>,
    StoreError,
> {
    if !admitted(path) {
        Err(StoreError::InvalidInput)
    } else {
        match json_text(value) {
            Some(text) => text_written(text, path),
            None => Err(StoreError::EncodingError),
        }
    }
}

/// A value survives storing when its JSON text reads back as the value itself.
pub open spec fn representable(value: serde_json::Value) -> bool {
    json_text(value) matches Some(text) && json_value(text) == Some(value)
}

/// The bytes to store for the JSON text `text` at `path`: one gzip stream
/// that decompresses to the text. Reading them back at the same path, under
/// any cap that admits them, gives the same text.
pub fn sync_text(text: &str, path: &str) -> (res: Result<Vec<u8>, StoreError>)
    ensures
        match res {
            Ok(stored) => text_written(text@, path@) == Ok::<_, StoreError>(stored@),
            Err(e) => text_written(text@, path@) == Err::<Seq<u8>, _>(e),
        },
        res matches Ok(stored) ==> gunzip(stored@) == Some(text@),
        res matches Ok(stored) ==> forall|limits: Limits|
            limits.admits(stored@.len()) ==> #[trigger] text_outcome(path@, stored@, limits) == Ok::<
                _,
                StoreError,
            >(text@),
{
    match check_path(path) {
        Ok(()) => {},
        Err(e) => {
            return Err(e);
        },
    }
    match compress(text) {
        Ok(stored) => Ok(stored),
        Err(_) => Err(StoreError::CompressionError),
    }
}

/// The bytes to store for `json` at `path`: one gzip stream that
/// decompresses to the JSON text of `json`. A path without the designated
/// extension is rejected with `InvalidInput` before anything else is done.
/// Reading the bytes back at the same path, under any cap that admits them,
/// gives what the JSON text of `json` parses to: `json` itself where it is
/// representable.
pub fn sync(json: &serde_json::Value, path: &str) -> (res: Result<Vec<u8>, StoreError>)
    ensures
        match res {
            Ok(stored) => sync_outcome(*json, path@) == Ok::<_, StoreError>(stored@),
            Err(e) => sync_outcome(*json, path@) == Err::<Seq<u8>, _>(e),
        },
        !admitted(path@) ==> res == Err::<Vec<u8>, _>(StoreError::InvalidInput),
        res matches Ok(stored) ==> gunzip(stored@) == json_text(*json),
        res matches Ok(stored) ==> forall|limits: Limits|
            limits.admits(stored@.len()) && representable(*json) ==> #[trigger] read_outcome(
                path@,
                stored@,
                limits,
            ) == Ok::<_, StoreError>(*json),
{
    match check_path(path) {
        Ok(()) => {},
        Err(e) => {
            return Err(e);
        },
    }
    match encode(json) {
        Ok(text) => sync_text(text.as_str(), path),
        Err(_) => Err(StoreError::EncodingError),
    }
}

} // verus!
