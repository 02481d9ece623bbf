//! File-name slugs: a title reduced to lowercase letters and digits joined by
//! single hyphens.

use crate::text::{strip, stripped, Margin};
use vstd::prelude::*;
use vstd::string::StringExecFns;

verus! {

/// Matches every maximal run of characters that are neither letters nor
/// numbers, in the Unicode sense of both.
pub const SEPARATOR_RUNS: &'static str = "[^\\p{L}\\p{N}]+";

/// What takes the place of each such run.
pub const HYPHEN: &'static str = "-";

/// The slug of a title that holds no letter and no number.
pub const FALLBACK: &'static str = "page";

/// `regex::Error`, carried as it is.
#[verifier::external_type_specification]
#[verifier::external_body]
pub struct ExRegexError(regex::Error);

/// What `regex::Regex::replace_all` returns for the regex compiled from
/// `pattern`, applied to `text` with `replacement`; `None` where
/// `regex::Regex::new` rejects the pattern.
pub uninterp spec fn regex_replace_all(
    pattern: Seq<char>,
    text: Seq<char>,
    replacement: Seq<char>,
) -> Option<Seq<char>>;

/// What `str::to_lowercase` returns for `s`.
pub uninterp spec fn lowercase(s: Seq<char>) -> Seq<char>;

/// `str::to_lowercase` is a function of the text alone; its result is `lowercase`.
pub assume_specification[ str::to_lowercase ](s: &str) -> (res: String)
    ensures
        res@ == lowercase(s@),
;

/// Compiles `pattern` with `regex::Regex::new` and replaces every match in
/// `text` with `regex::Regex::replace_all`. The result is a function of the
/// three texts alone, named `regex_replace_all`; the error is the one
/// `Regex::new` gave for the pattern.
#[verifier::external_body]
fn replace_all(pattern: &str, text: &str, replacement: &str) -> (res: Result<String, regex::Error>)
    ensures
        match res {
            Ok(out) => regex_replace_all(pattern@, text@, replacement@) == Some(out@),
            Err(_) => regex_replace_all(pattern@, text@, replacement@) is None,
        },
{
    let re = regex::Regex::new(pattern)?;
    Ok(re.replace_all(text, replacement).into_owned())
}

/// `title` with every separator run replaced by one hyphen, where the regex
/// engine accepts the pattern.
pub open spec fn hyphenated(title: Seq<char>) -> Option<Seq<char>> {
    regex_replace_all(SEPARATOR_RUNS@, title, HYPHEN@)
}

/// The slug of a title whose separator runs are already hyphens: the hyphens
/// at both ends go, what is left is lowercased, and an empty rest gives the
/// fallback.
pub open spec fn slug_of_hyphenated(text: Seq<char>) -> Seq<char> {
    let core = stripped(text, Margin::Char('-'));
    if core.len() == 0 {
        FALLBACK@
    } else {
        lowercase(core)
    }
}

/// The slug of `title`.
pub open spec fn slug_of(title: Seq<char>) -> Option<Seq<char>> {
    match hyphenated(title) {
        Some(text) => Some(slug_of_hyphenated(text)),
        None => None,
    }
}

/// Finishes a slug from a title whose separator runs are already hyphens.
pub fn slug_from_hyphenated(text: &str) -> (res: String)
    ensures
        res@ == slug_of_hyphenated(text@),
{
    let core = strip(text, Margin::Char('-'));
    if core.as_str().is_empty() {
        String::from_str(FALLBACK)
    } else {
        core.as_str().to_lowercase()
    }
}

/// The slug of `s`: separator runs become single hyphens, hyphens at the ends
/// go, the rest is lowercased; `page` where nothing is left. Fails only where
/// the regex engine rejects the separator pattern.
pub fn slug(s: &str) -> (res: Result<String, regex::Error>)
    ensures
        match res {
            Ok(name) => slug_of(s@) == Some(name@),
            Err(_) => slug_of(s@) is None,
        },
{
    match replace_all(SEPARATOR_RUNS, s, HYPHEN) {
        Ok(text) => Ok(slug_from_hyphenated(text.as_str())),
        Err(e) => Err(e),
    }
}

} // verus!
