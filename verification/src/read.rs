//! The reader of stored files: guard, size cap, gunzip, JSON.

use crate::codec::{decompress, gunzip, json_value, parse};
use crate::guard::{admitted, check_path, check_size, Limits, StoreError};
use vstd::prelude::*;

verus! {

/// The text of a stored file, or why it cannot be had: the path is checked
/// first, then the size, then the bytes are decompressed.
pub open spec fn text_outcome(path: Seq<char>, stored: Seq<u8>, limits: Limits) -> Result<
    Seq<char>,
    StoreError,
> {
    if !admitted(path) {
        Err(StoreError::InvalidInput)
    } else if !limits.admits(stored.len()) {
        Err(StoreError::TooLarge)
    } else {
        match gunzip(stored) {
            Some(text) => Ok(text),
            None => Err(StoreError::CorruptData),
        }
    }
}

/// The value of a stored file, or why it cannot be had: its text, parsed.
pub open spec fn read_outcome(path: Seq<char>, stored: Seq<u8>, limits: Limits) -> Result<
    serde_json::Value,
    StoreError,
> {
    match text_outcome(path, stored, limits) {
        Ok(text) => match json_value(text) {
            Some(value) => Ok(value),
            None => Err(StoreError::MalformedContent),
        },
        Err(e) => Err(e),
    }
}

/// The JSON text held by the stored file at `path` whose bytes are `stored`.
pub fn read_text(path: &str, stored: &[u8], limits: &Limits) -> (res: Result<String, StoreError>)
    ensures
        match res {
            Ok(text) => text_outcome(path@, stored@, *limits) == Ok::<_, StoreError>(text@),
            Err(e) => text_outcome(path@, stored@, *limits) == Err::<Seq<char>, _>(e),
        },
{
    match check_path(path) {
        Ok(()) => {},
        Err(e) => {
            return Err(e);
        },
    }
    match check_size(stored.len() as u64, limits) {
        Ok(()) => {},
        Err(e) => {
            return Err(e);
        },
    }
    match decompress(stored) {
        Ok(text) => Ok(text),
        Err(_) => Err(StoreError::CorruptData),
    }
}

/// The value held by the stored file at `path` whose bytes are `stored`. A
/// path without the designated extension is rejected with `InvalidInput`,
/// whatever the bytes; bytes beyond the cap with `TooLarge`, before they are
/// looked at.
pub fn read_file(path: &str, stored: &[u8], limits: &Limits) -> (res: Result<
    serde_json::Value,
    StoreError,
>)
    ensures
        res == read_outcome(path@, stored@, *limits),
        !admitted(path@) ==> res == Err::<serde_json::Value, _>(StoreError::InvalidInput),
        admitted(path@) && !limits.admits(stored@.len()) ==> res == Err::<serde_json::Value, _>(
            StoreError::TooLarge,
        ),
{
    match read_text(path, stored, limits) {
        Ok(text) => match parse(text.as_str()) {
            Ok(value) => Ok(value),
            Err(_) => Err(StoreError::MalformedContent),
        },
        Err(e) => Err(e),
    }
}

} // verus!
