//! The guard that both the reader and the writer of stored files apply: the
//! path must carry the designated extension, and a file to read must not be
//! larger than the configured cap.

use crate::text::{chars_of, string_of};
use vstd::prelude::*;
use vstd::string::StringExecFns;

verus! {

/// The extension of stored files, without the dot.
pub const EXTENSION: &'static str = "ketabi";

/// Why a stored file could not be read or written.
#[derive(Debug, Clone, Copy, PartialEq, Eq, Structural)]
pub enum StoreError {
    /// The path does not carry the designated extension.
    InvalidInput,
    /// The file is larger than the configured cap.
    TooLarge,
    /// The bytes are not a gzip stream of UTF-8 text.
    CorruptData,
    /// The text is not JSON.
    MalformedContent,
    /// The value could not be written as JSON.
    EncodingError,
    /// The text could not be compressed.
    CompressionError,
}

impl StoreError {
    /// The message of each error.
    pub open spec fn message_text(self) -> Seq<char> {
        match self {
            StoreError::InvalidInput => "Invalid file type. Only .ketabi files are allowed."@,
            StoreError::TooLarge => "File is too large"@,
            StoreError::CorruptData => "Failed to decompress or read file"@,
            StoreError::MalformedContent => "Failed to parse JSON"@,
            StoreError::EncodingError => "Failed to serialize JSON"@,
            StoreError::CompressionError => "Compression failed"@,
        }
    }

    /// A message for the user.
    pub fn message(&self) -> (res: String)
        ensures
            res@ == self.message_text(),
    {
        match self {
            StoreError::InvalidInput => String::from_str(
                "Invalid file type. Only .ketabi files are allowed.",
            ),
            StoreError::TooLarge => String::from_str("File is too large"),
            StoreError::CorruptData => String::from_str("Failed to decompress or read file"),
            StoreError::MalformedContent => String::from_str("Failed to parse JSON"),
            StoreError::EncodingError => String::from_str("Failed to serialize JSON"),
            StoreError::CompressionError => String::from_str("Compression failed"),
        }
    }
}

/// How large a file the reader accepts.
#[derive(Debug, Clone, Copy)]
pub struct Limits {
    /// The largest size in bytes that is read; `None` for no cap.
    pub max_size: Option<u64>,
}

impl Limits {
    /// Whether a file of `size` bytes is within the cap.
    pub open spec fn admits(self, size: nat) -> bool {
        match self.max_size {
            Some(cap) => size <= cap,
            None => true,
        }
    }

    /// No cap.
    pub fn unlimited() -> (res: Limits)
        ensures
            res.max_size is None,
    {
        Limits { max_size: None }
    }

    /// A cap of `max_size` bytes.
    pub fn at_most(max_size: u64) -> (res: Limits)
        ensures
            res.max_size == Some(max_size),
    {
        Limits { max_size: Some(max_size) }
    }
}

/// What follows the last `separator` in `s`; all of `s` where it has none.
pub open spec fn tail_after(s: Seq<char>, separator: char) -> Seq<char>
    decreases s.len(),
{
    if s.len() == 0 || s.last() == separator {
        Seq::empty()
    } else {
        tail_after(s.drop_last(), separator).push(s.last())
    }
}

/// The file name of a path whose components are separated by `/`: its last
/// component, where empty components and `.` do not count. A path without
/// such a component, or whose last one is `..`, has no file name.
pub open spec fn file_name(path: Seq<char>) -> Option<Seq<char>>
    decreases path.len(),
{
    if path.len() == 0 {
        None
    } else if path.last() == '/' {
        file_name(path.drop_last())
    } else {
        let component = tail_after(path, '/');
        if component == seq!['.'] {
            file_name(path.drop_last())
        } else if component == seq!['.', '.'] {
            None
        } else {
            Some(component)
        }
    }
}

/// The extension of a file name: what follows its last dot, provided that
/// something stands before that dot.
pub open spec fn name_extension(name: Seq<char>) -> Option<Seq<char>> {
    let after = tail_after(name, '.');
    if after.len() + 1 < name.len() {
        Some(after)
    } else {
        None
    }
}

/// The extension of a path: that of its file name.
pub open spec fn extension(path: Seq<char>) -> Option<Seq<char>> {
    match file_name(path) {
        Some(name) => name_extension(name),
        None => None,
    }
}

/// Whether the guard lets a path through: its extension is the designated one.
pub open spec fn admitted(path: Seq<char>) -> bool {
    extension(path) == Some(EXTENSION@)
}

/// What follows the last separator of `s` starts at `k`, where `k` is the
/// first position after which no separator stands.
pub proof fn lemma_tail_after(s: Seq<char>, separator: char, k: int)
    requires
        0 <= k <= s.len(),
        forall|i: int| k <= i < s.len() ==> #[trigger] s[i] != separator,
        k > 0 ==> s[k - 1] == separator,
    ensures
        tail_after(s, separator) == s.skip(k),
    decreases s.len() - k,
{
    if k == s.len() {
        assert(s.skip(k) =~= Seq::<char>::empty());
    } else {
        let rest = s.drop_last();
        lemma_tail_after(rest, separator, k);
        assert(rest.skip(k).push(s.last()) =~= s.skip(k));
    }
}

/// What follows the last separator of `s` is an end of `s` that holds no
/// separator; where it is not all of `s`, a separator stands right before it.
pub proof fn lemma_tail_is_suffix(s: Seq<char>, separator: char)
    ensures
        tail_after(s, separator).len() <= s.len(),
        tail_after(s, separator) == s.skip(s.len() - tail_after(s, separator).len()),
        forall|i: int|
            0 <= i < tail_after(s, separator).len() ==> #[trigger] tail_after(s, separator)[i]
                != separator,
        tail_after(s, separator).len() < s.len() ==> s[s.len() - tail_after(s, separator).len()
            - 1] == separator,
    decreases s.len(),
{
    let tail = tail_after(s, separator);
    if s.len() == 0 || s.last() == separator {
        assert(s.skip(s.len() as int) =~= tail);
    } else {
        let rest = s.drop_last();
        let shorter = tail_after(rest, separator);
        lemma_tail_is_suffix(rest, separator);
        assert(rest.skip(rest.len() - shorter.len()).push(s.last()) =~= s.skip(
            s.len() - tail.len(),
        ));
        assert forall|i: int| 0 <= i < tail.len() implies #[trigger] tail[i] != separator by {
            if i < shorter.len() {
                assert(tail[i] == shorter[i]);
            }
        }
    }
}

/// The guard lets through exactly the paths whose file name is something,
/// a dot and the designated extension.
pub proof fn lemma_admitted_names(path: Seq<char>)
    ensures
        admitted(path) <==> (file_name(path) matches Some(name) && exists|stem: Seq<char>|
            stem.len() > 0 && name == #[trigger] (stem.push('.') + EXTENSION@)),
{
    reveal_strlit("ketabi");
    let ext = EXTENSION@;
    assert(forall|i: int| 0 <= i < ext.len() ==> #[trigger] ext[i] != '.');
    match file_name(path) {
        Some(name) => {
            let after = tail_after(name, '.');
            lemma_tail_is_suffix(name, '.');
            if admitted(path) {
                let stem = name.take(name.len() - ext.len() - 1);
                assert(name =~= stem.push('.') + ext);
            }
            if exists|stem: Seq<char>|
                stem.len() > 0 && name == #[trigger] (stem.push('.') + ext) {
                let stem = choose|stem: Seq<char>|
                    stem.len() > 0 && name == #[trigger] (stem.push('.') + ext);
                assert forall|i: int| stem.len() + 1 <= i < name.len() implies #[trigger] name[i]
                    != '.' by {
                    assert(name[i] == ext[i - stem.len() - 1]);
                }
                assert(name[stem.len() as int] == '.');
                lemma_tail_after(name, '.', (stem.len() + 1) as int);
                assert(name.skip((stem.len() + 1) as int) =~= ext);
            }
        },
        None => {},
    }
}

/// Where the last stretch without a separator begins in `cs[from..end]`: the
/// position after the last separator there, or `from`.
fn stretch_start(cs: &Vec<char>, from: usize, end: usize, separator: char) -> (start: usize)
    requires
        from <= end <= cs.len(),
    ensures
        from <= start <= end,
        cs@.subrange(start as int, end as int) == tail_after(
            cs@.subrange(from as int, end as int),
            separator,
        ),
{
    let mut start: usize = end;
    while start > from && cs[start - 1] != separator
        invariant
            from <= start <= end <= cs.len(),
            forall|i: int| start <= i < end ==> #[trigger] cs@[i] != separator,
        decreases start,
    {
        start -= 1;
    }
    proof {
        let s = cs@.subrange(from as int, end as int);
        assert forall|i: int| start - from <= i < s.len() implies #[trigger] s[i]
            != separator by {
            assert(s[i] == cs@[i + from]);
        }
        lemma_tail_after(s, separator, start - from);
        assert(s.skip(start - from) =~= cs@.subrange(start as int, end as int));
    }
    start
}

/// Where the file name of the path `cs` begins and ends.
fn name_bounds(cs: &Vec<char>) -> (res: Option<(usize, usize)>)
    ensures
        match res {
            Some((start, end)) => start <= end <= cs.len() && file_name(cs@) == Some(
                cs@.subrange(start as int, end as int),
            ),
            None => file_name(cs@) is None,
        },
{
    let mut end: usize = cs.len();
    assert(cs@.take(end as int) =~= cs@);
    while end > 0
        invariant
            end <= cs.len(),
            file_name(cs@) == file_name(cs@.take(end as int)),
        decreases end,
    {
        let ghost path = cs@.take(end as int);
        assert(path.drop_last() =~= cs@.take(end - 1));
        assert(path.last() == cs@[end - 1]);
        if cs[end - 1] == '/' {
            end -= 1;
        } else {
            assert(cs@.subrange(0, end as int) =~= path);
            let start = stretch_start(cs, 0, end, '/');
            let ghost component = cs@.subrange(start as int, end as int);
            assert(component.len() > 0);
            if end - start == 1 && cs[start] == '.' {
                assert(component =~= seq!['.']);
                end -= 1;
            } else if end - start == 2 && cs[start] == '.' && cs[start + 1] == '.' {
                assert(component =~= seq!['.', '.']);
                return None;
            } else {
                assert(component != seq!['.']) by {
                    if component == seq!['.'] {
                        assert(component.len() == 1);
                        assert(component[0] == '.');
                    }
                }
                assert(component != seq!['.', '.']) by {
                    if component == seq!['.', '.'] {
                        assert(component.len() == 2);
                        assert(component[0] == '.');
                        assert(component[1] == '.');
                    }
                }
                return Some((start, end));
            }
        }
    }
    None
}

/// Whether two texts hold the same characters.
pub fn same_text(a: &str, b: &str) -> (same: bool)
    ensures
        same == (a@ == b@),
{
    let xs = chars_of(a);
    let ys = chars_of(b);
    if xs.len() != ys.len() {
        return false;
    }
    let mut i: usize = 0;
    while i < xs.len()
        invariant
            i <= xs.len(),
            xs.len() == ys.len(),
            xs@ == a@,
            ys@ == b@,
            forall|j: int| 0 <= j < i ==> xs@[j] == ys@[j],
        decreases xs.len() - i,
    {
        if xs[i] != ys[i] {
            assert(a@[i as int] != b@[i as int]);
            return false;
        }
        i += 1;
    }
    assert(a@ =~= b@);
    true
}

/// The extension of a path, as `std::path::Path::extension` finds it on a
/// platform whose only separator is `/`.
pub fn extension_of(path: &str) -> (res: Option<String>)
    ensures
        match res {
            Some(found) => extension(path@) == Some(found@),
            None => extension(path@) is None,
        },
{
    let cs = chars_of(path);
    match name_bounds(&cs) {
        None => None,
        Some((start, end)) => {
            let dot = stretch_start(&cs, start, end, '.');
            if dot - start > 1 {
                Some(string_of(&cs, dot, end))
            } else {
                None
            }
        },
    }
}

/// Checks a path against the guard.
pub fn check_path(path: &str) -> (res: Result<(), StoreError>)
    ensures
        admitted(path@) ==> res is Ok,
        !admitted(path@) ==> res == Err::<(), _>(StoreError::InvalidInput),
{
    match extension_of(path) {
        Some(found) => {
            if same_text(found.as_str(), EXTENSION) {
                Ok(())
            } else {
                Err(StoreError::InvalidInput)
            }
        },
        None => Err(StoreError::InvalidInput),
    }
}

/// Checks the size of a file against the cap, before the file is read.
pub fn check_size(size: u64, limits: &Limits) -> (res: Result<(), StoreError>)
    ensures
        limits.admits(size as nat) ==> res is Ok,
        !limits.admits(size as nat) ==> res == Err::<(), _>(StoreError::TooLarge),
{
    match limits.max_size {
        Some(cap) => {
            if size > cap {
                Err(StoreError::TooLarge)
            } else {
                Ok(())
            }
        },
        None => Ok(()),
    }
}

} // verus!
