//! The book under construction: an `epub_builder::EpubBuilder` over the zip
//! library, seen through what it holds.
//!
//! Nothing in this file is proved. Each contract restates what the source of
//! `epub-builder` shows of one of its functions.

use crate::part::{Part, PartView};
use crate::text::is_digit;
use vstd::prelude::*;
use vstd::utf8::encode_utf8;

verus! {

/// `epub_builder::Error`, carried as it is.
#[verifier::external_type_specification]
#[verifier::external_body]
pub struct ExPackagingError(epub_builder::Error);

/// `uuid::Error`, carried as it is.
#[verifier::external_type_specification]
#[verifier::external_body]
pub struct ExIdentifierError(uuid::Error);

/// `chrono::ParseError`, carried as it is.
#[verifier::external_type_specification]
#[verifier::external_body]
pub struct ExTimestampError(chrono::ParseError);

/// `epub_builder::ZipLibrary`, carried as it is.
#[verifier::external_type_specification]
#[verifier::external_body]
pub struct ExZipLibrary(epub_builder::ZipLibrary);

/// An `epub_builder::EpubBuilder` that writes through the zip library. The
/// builder's own type has a parameter whose bound is private to its crate,
/// so it cannot be named apart from the zip library and is held here.
#[verifier::external_body]
pub struct Book {
    builder: epub_builder::EpubBuilder<epub_builder::ZipLibrary>,
}

/// The metadata that the builder holds: for each key the values kept under
/// it, oldest first. A key that keeps one value at most holds a list of one
/// or none.
pub uninterp spec fn book_metadata(book: Book) -> Map<Seq<char>, Seq<Seq<char>>>;

/// The content parts that were added to the builder as body text, in the
/// order in which they were added.
pub uninterp spec fn book_parts(book: Book) -> Seq<PartView>;

/// Where the inline table of contents stands that the builder was told to
/// add: the number of content parts that come before it; `None` where it was
/// not told to add one.
pub uninterp spec fn book_inline_toc(book: Book) -> Option<nat>;

/// The identifier that the builder was given, as the number of the UUID;
/// `None` where it will make one up.
pub uninterp spec fn book_identifier(book: Book) -> Option<u128>;

/// The `<meta>` elements that the builder was given for the package
/// document beyond its own, each as name and content, oldest first.
pub uninterp spec fn book_extras(book: Book) -> Seq<(Seq<char>, Seq<char>)>;

/// The UUID that `uuid::Uuid::parse_str` reads out of `text`, as the number
/// that `Uuid::as_u128` gives for it; `None` where `text` is no UUID.
pub uninterp spec fn uuid_value(text: Seq<char>) -> Option<u128>;

/// The instant that `chrono::DateTime::parse_from_rfc3339` reads out of
/// `text`, as `DateTime::to_rfc3339_opts` writes it in UTC, to the second
/// and with `Z` for the offset; `None` where `text` is no RFC 3339 date and
/// time.
pub uninterp spec fn rfc3339_utc(text: Seq<char>) -> Option<Seq<char>>;

/// The longest name, in bytes, that an entry of a zip archive can have.
pub const MAX_ENTRY_NAME: usize = 65535;

/// The folder that the builder puts every part in.
pub const FOLDER: &'static str = "OEBPS/";

/// The bytes of that folder's name.
pub const FOLDER_BYTES: usize = 6;

/// Whether a part with this file name can be stored: the name of its entry,
/// which is the folder and the file name in UTF-8, is within the longest
/// that the zip format holds. The zip writer panics on a longer one.
pub open spec fn storable(file_name: Seq<char>) -> bool {
    FOLDER_BYTES + encode_utf8(file_name).len() <= MAX_ENTRY_NAME
}

/// The name of the entry that every EPUB container begins with.
pub const MIMETYPE_ENTRY: &'static str = "mimetype";

/// What that entry holds: the media type of EPUB containers.
pub const MEDIA_TYPE: &'static str = "application/epub+zip";

/// The bytes of a text whose characters are all ASCII.
pub open spec fn ascii(text: Seq<char>) -> Seq<u8> {
    text.map_values(|c: char| c as u8)
}

/// Whether `bytes` begin as an EPUB container does: with the signature of a
/// zip entry, whose header takes thirty bytes, then the name `mimetype`, and
/// right after it the media type, uncompressed.
pub open spec fn begins_container(bytes: Seq<u8>) -> bool {
    &&& bytes.len() >= 58
    &&& bytes.subrange(0, 4) == seq![0x50u8, 0x4b, 0x03, 0x04]
    &&& bytes.subrange(30, 38) == ascii(MIMETYPE_ENTRY@)
    &&& bytes.subrange(38, 58) == ascii(MEDIA_TYPE@)
}

/// The name of the archive entry for a part with this file name.
pub open spec fn entry_name(file_name: Seq<char>) -> Seq<u8> {
    ascii(FOLDER@) + encode_utf8(file_name)
}

/// Whether the builder stores a part under the folder and its file name as
/// it is, on every platform: the name begins with a digit, so that it is a
/// path of its own below the folder, and holds no backslash, which a
/// platform that separates paths by it would turn into a slash.
pub open spec fn kept_as_named(file_name: Seq<char>) -> bool {
    &&& file_name.len() > 0
    &&& is_digit(file_name.first())
    &&& forall|i: int| 0 <= i < file_name.len() ==> #[trigger] file_name[i] != '\\'
}

/// Whether the archive `bytes` holds an entry of this name: somewhere in it
/// stands the signature of a zip entry, and thirty bytes on, after the
/// header, the name.
pub open spec fn holds_entry(bytes: Seq<u8>, name: Seq<u8>) -> bool {
    exists|at: int|
        0 <= at && at + 30 + name.len() <= bytes.len() && bytes.subrange(at, at + 4) == seq![
            0x50u8,
            0x4b,
            0x03,
            0x04,
        ] && #[trigger] bytes.subrange(at + 30, at + 30 + name.len()) == name
}

/// Whether the archive `bytes` holds an entry for each of `parts` whose file
/// name is kept as it is.
pub open spec fn holds_parts(bytes: Seq<u8>, parts: Seq<PartView>) -> bool {
    forall|i: int|
        0 <= i < parts.len() && kept_as_named((#[trigger] parts[i]).file_name) ==> holds_entry(
            bytes,
            entry_name(parts[i].file_name),
        )
}

/// The metadata of a builder that was just made: `Metadata::default()`.
pub open spec fn fresh_metadata() -> Map<Seq<char>, Seq<Seq<char>>> {
    Map::empty()
        .insert("title"@, seq![""@])
        .insert("author"@, Seq::empty())
        .insert("lang"@, Seq::empty())
        .insert("generator"@, seq!["Rust EPUB library"@])
        .insert("toc_name"@, seq!["Table Of Contents"@])
        .insert("description"@, Seq::empty())
        .insert("subject"@, Seq::empty())
        .insert("license"@, Seq::empty())
}

/// The keys under which `EpubBuilder::metadata` gathers values.
pub open spec fn gathers(key: Seq<char>) -> bool {
    key == "author"@ || key == "lang"@ || key == "description"@ || key == "subject"@
}

/// The keys under which `EpubBuilder::metadata` keeps the latest value only.
pub open spec fn replaces(key: Seq<char>) -> bool {
    key == "title"@ || key == "generator"@ || key == "toc_name"@ || key == "license"@
}

/// What `EpubBuilder::metadata` makes of the metadata for such a key: under
/// a gathering key an empty value clears the list and any other value joins
/// it; under a replacing key the value stands alone.
pub open spec fn metadata_after(
    held: Map<Seq<char>, Seq<Seq<char>>>,
    key: Seq<char>,
    value: Seq<char>,
) -> Map<Seq<char>, Seq<Seq<char>>> {
    if gathers(key) {
        if value.len() == 0 {
            held.insert(key, Seq::empty())
        } else {
            held.insert(key, held[key].push(value))
        }
    } else {
        held.insert(key, seq![value])
    }
}

/// `ZipLibrary::new` opens an archive in memory; nothing is claimed of it.
pub assume_specification[ epub_builder::ZipLibrary::new ]() -> (res: Result<
    epub_builder::ZipLibrary,
    epub_builder::Error,
>)
;

/// `DateTime::parse_from_rfc3339`, then `DateTime::to_rfc3339_opts` on what
/// it read, in UTC, to the second and with `Z`. The text is `rfc3339_utc` of
/// the one given; the call fails where that is no RFC 3339 date and time.
#[verifier::external_body]
pub(crate) fn utc_stamp(text: &str) -> (res: Result<String, chrono::ParseError>)
    ensures
        match res {
            Ok(stamp) => rfc3339_utc(text@) == Some(stamp@),
            Err(_) => rfc3339_utc(text@) is None,
        },
{
    let at = chrono::DateTime::parse_from_rfc3339(text)?;
    Ok(at.to_utc().to_rfc3339_opts(chrono::SecondsFormat::Secs, true))
}

/// `Utc::now`, written by `DateTime::to_rfc3339_opts` in the same way. It is
/// the time of the call, so nothing is claimed of it.
#[verifier::external_body]
pub(crate) fn now_stamp() -> String {
    chrono::Utc::now().to_rfc3339_opts(chrono::SecondsFormat::Secs, true)
}

impl Book {
    /// `EpubBuilder::new`: a builder with the default metadata, no
    /// identifier, no further `<meta>` element, no content part and no
    /// inline table of contents.
    #[verifier::external_body]
    pub(crate) fn open(zip: epub_builder::ZipLibrary) -> (res: Result<Book, epub_builder::Error>)
        ensures
            res matches Ok(book) ==> {
                &&& book_metadata(book) == fresh_metadata()
                &&& book_identifier(book) is None
                &&& book_extras(book) == Seq::<(Seq<char>, Seq<char>)>::empty()
                &&& book_parts(book) == Seq::<PartView>::empty()
                &&& book_inline_toc(book) is None
            },
    {
        Ok(Book { builder: epub_builder::EpubBuilder::new(zip)? })
    }

    /// `EpubBuilder::metadata`: under a gathering or replacing key the call
    /// succeeds and changes the metadata as `metadata_after` says, and
    /// nothing else.
    #[verifier::external_body]
    pub(crate) fn set_metadata(&mut self, key: &str, value: &str) -> (res: Result<
        (),
        epub_builder::Error,
    >)
        ensures
            gathers(key@) || replaces(key@) ==> {
                &&& res is Ok
                &&& book_metadata(*final(self)) == metadata_after(
                    book_metadata(*old(self)),
                    key@,
                    value@,
                )
                &&& book_identifier(*final(self)) == book_identifier(*old(self))
                &&& book_extras(*final(self)) == book_extras(*old(self))
                &&& book_parts(*final(self)) == book_parts(*old(self))
                &&& book_inline_toc(*final(self)) == book_inline_toc(*old(self))
            },
    {
        self.builder.metadata(key, value).map(|_| ())
    }

    /// `Uuid::parse_str`, then `EpubBuilder::set_uuid` with what it read:
    /// for a UUID the builder holds it as its identifier and nothing else
    /// has changed; for any other text the call fails.
    #[verifier::external_body]
    pub(crate) fn set_identifier(&mut self, text: &str) -> (res: Result<(), uuid::Error>)
        ensures
            match res {
                Ok(()) => {
                    &&& uuid_value(text@) is Some
                    &&& book_identifier(*final(self)) == uuid_value(text@)
                    &&& book_metadata(*final(self)) == book_metadata(*old(self))
                    &&& book_extras(*final(self)) == book_extras(*old(self))
                    &&& book_parts(*final(self)) == book_parts(*old(self))
                    &&& book_inline_toc(*final(self)) == book_inline_toc(*old(self))
                },
                Err(_) => uuid_value(text@) is None,
            },
    {
        let id = uuid::Uuid::parse_str(text)?;
        self.builder.set_uuid(id);
        Ok(())
    }

    /// `EpubBuilder::add_metadata_opf` with a `MetadataOpf` of this name and
    /// content: the element is the last of the further `<meta>` elements, and
    /// nothing else has changed.
    #[verifier::external_body]
    pub(crate) fn add_meta(&mut self, name: &str, content: &str)
        ensures
            book_extras(*final(self)) == book_extras(*old(self)).push((name@, content@)),
            book_metadata(*final(self)) == book_metadata(*old(self)),
            book_identifier(*final(self)) == book_identifier(*old(self)),
            book_parts(*final(self)) == book_parts(*old(self)),
            book_inline_toc(*final(self)) == book_inline_toc(*old(self)),
    {
        let meta = epub_builder::MetadataOpf { name: name.to_string(), content: content.to_string() };
        self.builder.add_metadata_opf(Box::new(meta));
    }

    /// `EpubBuilder::add_content` with an `EpubContent` of the part's file
    /// name, title and text, marked as body text: where it succeeds the part
    /// is the last of the content parts, and nothing else has changed. It is
    /// not called with a file name that cannot be stored.
    #[verifier::external_body]
    pub(crate) fn add_part(&mut self, part: Part) -> (res: Result<(), epub_builder::Error>)
        requires
            storable(part@.file_name),
        ensures
            res is Ok ==> {
                &&& book_parts(*final(self)) == book_parts(*old(self)).push(part@)
                &&& book_metadata(*final(self)) == book_metadata(*old(self))
                &&& book_identifier(*final(self)) == book_identifier(*old(self))
                &&& book_extras(*final(self)) == book_extras(*old(self))
                &&& book_inline_toc(*final(self)) == book_inline_toc(*old(self))
            },
    {
        let text = std::io::Cursor::new(part.xhtml.into_bytes());
        let content = epub_builder::EpubContent::new(part.file_name, text)
            .title(part.title)
            .reftype(epub_builder::ReferenceType::Text);
        self.builder.add_content(content).map(|_| ())
    }

    /// `EpubBuilder::inline_toc`: the builder will add an inline table of
    /// contents after the content parts that it holds by now; everything
    /// else stays as it is. It is called once at most.
    #[verifier::external_body]
    pub(crate) fn inline_toc(&mut self)
        requires
            book_inline_toc(*old(self)) is None,
        ensures
            book_inline_toc(*final(self)) == Some(book_parts(*old(self)).len()),
            book_metadata(*final(self)) == book_metadata(*old(self)),
            book_identifier(*final(self)) == book_identifier(*old(self)),
            book_extras(*final(self)) == book_extras(*old(self)),
            book_parts(*final(self)) == book_parts(*old(self)),
    {
        self.builder.inline_toc();
    }

    /// `EpubBuilder::generate` into a vector. The bytes hold the time of the
    /// call, and a fresh identifier where none was given, so what is claimed
    /// of them is what every outcome has. They begin as every container
    /// does: `ZipLibrary::new` makes `mimetype` the first entry of the
    /// archive and stores the media type in it as it is, without an extra
    /// field. And they hold an entry for each content part: `add_content`
    /// wrote it when the part was added, under the folder and the part's
    /// file name.
    #[verifier::external_body]
    pub(crate) fn render(self) -> (res: Result<Vec<u8>, epub_builder::Error>)
        ensures
            res matches Ok(bytes) ==> begins_container(bytes@) && holds_parts(
                bytes@,
                book_parts(self),
            ),
    {
        let mut out: Vec<u8> = Vec::new();
        self.builder.generate(&mut out)?;
        Ok(out)
    }
}

} // verus!
