//! The EPUB exporter: a document of metadata and pages becomes the bytes of
//! an EPUB container.

use crate::book::{
    begins_container, book_extras, book_identifier, book_inline_toc, book_metadata, book_parts,
    fresh_metadata, gathers, holds_parts, metadata_after, now_stamp, replaces, rfc3339_utc,
    storable, utc_stamp, uuid_value, Book, FOLDER_BYTES, MAX_ENTRY_NAME,
};
use crate::part::{
    lemma_effective_title_not_blank, lemma_file_name_begins_with_digit, lemma_file_names_differ,
    plan_page, planned_part, PartView,
};
use crate::slug::slug_of;
use crate::text::{blank, is_blank, is_digit};
use vstd::prelude::*;
use vstd::string::StringExecFns;

verus! {

/// The program that every exported book names as its generator.
pub const GENERATOR: &'static str = "Ketabak";

/// The name of the `<meta>` element that holds the time of the last change.
pub const MODIFIED: &'static str = "dcterms:modified";

/// What a book says of itself. Only the title is required.
#[derive(Debug)]
pub struct Meta {
    pub title: String,
    pub publisher: Option<String>,
    pub language: Option<String>,
    /// A UUID, in any of the usual spellings.
    pub identifier: Option<String>,
    pub description: Option<String>,
    /// The time of the last change, as an RFC 3339 date and time; the time
    /// of the export where it is missing.
    pub modified: Option<String>,
}

/// One page: a title, which may be blank, and a fragment of markup.
#[derive(Debug)]
pub struct Page {
    pub title: String,
    pub content: String,
}

/// A document to export: metadata and pages in reading order.
#[derive(Debug)]
pub struct Input {
    pub meta: Meta,
    pub pages: Vec<Page>,
}

/// Metadata as plain texts.
pub ghost struct MetaView {
    pub title: Seq<char>,
    pub publisher: Option<Seq<char>>,
    pub language: Option<Seq<char>>,
    pub identifier: Option<Seq<char>>,
    pub description: Option<Seq<char>>,
    pub modified: Option<Seq<char>>,
}

/// A page as plain texts.
pub ghost struct PageView {
    pub title: Seq<char>,
    pub content: Seq<char>,
}

/// A document as plain texts.
pub ghost struct InputView {
    pub meta: MetaView,
    pub pages: Seq<PageView>,
}

/// The text held by an optional string.
pub open spec fn optional_text(field: Option<String>) -> Option<Seq<char>> {
    match field {
        Some(text) => Some(text@),
        None => None,
    }
}

impl View for Meta {
    type V = MetaView;

    open spec fn view(&self) -> MetaView {
        MetaView {
            title: self.title@,
            publisher: optional_text(self.publisher),
            language: optional_text(self.language),
            identifier: optional_text(self.identifier),
            description: optional_text(self.description),
            modified: optional_text(self.modified),
        }
    }
}

impl View for Page {
    type V = PageView;

    open spec fn view(&self) -> PageView {
        PageView { title: self.title@, content: self.content@ }
    }
}

impl View for Input {
    type V = InputView;

    open spec fn view(&self) -> InputView {
        InputView { meta: self.meta@, pages: self.pages@.map_values(|page: Page| page@) }
    }
}

/// Whether the identifier of a document, where it has one, is a UUID.
pub open spec fn identified(meta: MetaView) -> bool {
    meta.identifier matches Some(text) ==> uuid_value(text) is Some
}

/// Whether the time of change of a document, where it has one, is an RFC 3339
/// date and time.
pub open spec fn dated(meta: MetaView) -> bool {
    meta.modified matches Some(text) ==> rfc3339_utc(text) is Some
}

impl InputView {
    /// A document can be exported when its title is not blank and it has a page.
    pub open spec fn valid(self) -> bool {
        !blank(self.meta.title) && self.pages.len() > 0
    }

    /// A valid document whose identifier and time of change can be read.
    pub open spec fn described(self) -> bool {
        self.valid() && identified(self.meta) && dated(self.meta)
    }
}

/// Why an export failed.
#[derive(Debug)]
pub enum ExportError {
    /// The document's title is blank.
    TitleRequired,
    /// The document has no page.
    PagesRequired,
    /// The document's identifier is not a UUID.
    InvalidIdentifier(uuid::Error),
    /// The document's time of change is not an RFC 3339 date and time.
    InvalidTimestamp(chrono::ParseError),
    /// The regex engine rejected the pattern that slugs are made with.
    Pattern(regex::Error),
    /// The file name of some page is longer than a zip archive can hold.
    FileNameTooLong,
    /// The packaging library failed; its own error is kept.
    Packaging(epub_builder::Error),
}

impl ExportError {
    /// Whether this error may come of exporting `data`. Each error that
    /// blames the document comes only of a document with that fault and
    /// without the faults that are looked for before it: the title, the
    /// pages, the identifier, the time of change, and then the pages one by
    /// one. A failure of the packaging library comes only of a valid
    /// document.
    pub open spec fn explains(self, data: InputView) -> bool {
        match self {
            ExportError::TitleRequired => blank(data.meta.title),
            ExportError::PagesRequired => !blank(data.meta.title) && data.pages.len() == 0,
            ExportError::InvalidIdentifier(_) => data.valid() && !identified(data.meta),
            ExportError::InvalidTimestamp(_) => data.valid() && identified(data.meta) && !dated(
                data.meta,
            ),
            ExportError::Pattern(_) => data.described() && planned_parts(data.pages) is None,
            ExportError::FileNameTooLong => data.described() && exists|i: int|
                0 <= i < data.pages.len() && unstorable(#[trigger] data.pages[i], (i + 1) as nat),
            ExportError::Packaging(_) => data.valid(),
        }
    }

    /// The message of each error; `None` for a failure of the packaging
    /// library, whose text has no name. It is a fixed text for a fault of
    /// the document that the library finds, and the outside library's own
    /// text for one that it finds.
    pub open spec fn message_text(self) -> Option<Seq<char>> {
        match self {
            ExportError::TitleRequired => Some("title required"@),
            ExportError::PagesRequired => Some("pages required"@),
            ExportError::FileNameTooLong => Some("page title too long"@),
            ExportError::InvalidIdentifier(cause) => Some(identifier_error_text(cause)),
            ExportError::InvalidTimestamp(cause) => Some(timestamp_error_text(cause)),
            ExportError::Pattern(cause) => Some(pattern_error_text(cause)),
            ExportError::Packaging(_) => None,
        }
    }

    /// A message for the user. For a failure of the packaging library it is
    /// that library's own description, which may hold what the operating
    /// system says of an error and so is not the same on every machine.
    pub fn message(&self) -> (res: String)
        ensures
            self.message_text() matches Some(text) ==> res@ == text,
    {
        match self {
            ExportError::TitleRequired => String::from_str("title required"),
            ExportError::PagesRequired => String::from_str("pages required"),
            ExportError::FileNameTooLong => String::from_str("page title too long"),
            ExportError::InvalidIdentifier(cause) => describe_identifier(cause),
            ExportError::InvalidTimestamp(cause) => describe_timestamp(cause),
            ExportError::Pattern(cause) => describe_pattern(cause),
            ExportError::Packaging(cause) => describe_packaging(cause),
        }
    }
}

/// What `uuid::Error` displays.
pub uninterp spec fn identifier_error_text(cause: uuid::Error) -> Seq<char>;

/// What `chrono::ParseError` displays.
pub uninterp spec fn timestamp_error_text(cause: chrono::ParseError) -> Seq<char>;

/// What `regex::Error` displays.
pub uninterp spec fn pattern_error_text(cause: regex::Error) -> Seq<char>;

/// The text that `uuid::Error` displays, which depends on the error alone.
#[verifier::external_body]
fn describe_identifier(cause: &uuid::Error) -> (res: String)
    ensures
        res@ == identifier_error_text(*cause),
{
    cause.to_string()
}

/// The text that `chrono::ParseError` displays, which depends on the error
/// alone.
#[verifier::external_body]
fn describe_timestamp(cause: &chrono::ParseError) -> (res: String)
    ensures
        res@ == timestamp_error_text(*cause),
{
    cause.to_string()
}

/// The text that `regex::Error` displays, which depends on the error alone.
#[verifier::external_body]
fn describe_pattern(cause: &regex::Error) -> (res: String)
    ensures
        res@ == pattern_error_text(*cause),
{
    cause.to_string()
}

/// The text that `epub_builder::Error` displays. For some of its variants
/// that is the debug form of an `std::io::Error`, which may hold the
/// operating system's words, so the text gets no name.
#[verifier::external_body]
fn describe_packaging(cause: &epub_builder::Error) -> String {
    cause.to_string()
}

/// What validation says of a document: the title is looked at first.
pub open spec fn validation(data: InputView) -> Result<(), ExportError> {
    if blank(data.meta.title) {
        Err(ExportError::TitleRequired)
    } else if data.pages.len() == 0 {
        Err(ExportError::PagesRequired)
    } else {
        Ok(())
    }
}

/// The metadata of the book made from `meta`: the title as given, the
/// generator, and then language, publisher (as author) and description, each
/// only where the document has it.
pub open spec fn metadata_for(meta: MetaView) -> Map<Seq<char>, Seq<Seq<char>>> {
    let titled = metadata_after(fresh_metadata(), "title"@, meta.title);
    let stamped = metadata_after(titled, "generator"@, GENERATOR@);
    let spoken = match meta.language {
        Some(language) => metadata_after(stamped, "lang"@, language),
        None => stamped,
    };
    let authored = match meta.publisher {
        Some(publisher) => metadata_after(spoken, "author"@, publisher),
        None => spoken,
    };
    match meta.description {
        Some(description) => metadata_after(authored, "description"@, description),
        None => authored,
    }
}

/// The identifier of the book made from `meta`: the UUID that the document
/// names, if it names one.
pub open spec fn identifier_for(meta: MetaView) -> Option<u128> {
    match meta.identifier {
        Some(text) => uuid_value(text),
        None => None,
    }
}

/// Whether `extras` are the further `<meta>` elements of the book made from
/// `meta`: one element, which holds the time of the last change. Where the
/// document names that time, the element holds it in UTC; where it does not,
/// the element holds the time of the export, of which nothing is said.
pub open spec fn stamped(extras: Seq<(Seq<char>, Seq<char>)>, meta: MetaView) -> bool {
    &&& extras.len() == 1
    &&& extras[0].0 == MODIFIED@
    &&& meta.modified matches Some(text) ==> rfc3339_utc(text) == Some(extras[0].1)
}

/// The content parts of the book made from `pages`: one for each page, in
/// order, numbered from one. `None` where the title of some page has no slug.
pub open spec fn planned_parts(pages: Seq<PageView>) -> Option<Seq<PartView>> {
    if forall|i: int|
        0 <= i < pages.len() ==> (#[trigger] planned_part(pages[i], (i + 1) as nat)) is Some {
        Some(Seq::new(pages.len(), |i: int| planned_part(pages[i], (i + 1) as nat).unwrap()))
    } else {
        None
    }
}

/// Whether the page with this number becomes a part that cannot be stored.
pub open spec fn unstorable(page: PageView, number: nat) -> bool {
    planned_part(page, number) matches Some(part) && !storable(part.file_name)
}

/// What the book holds under a key that gathers values, for a field that the
/// document may lack: the field's text, or nothing where the field is
/// missing or empty.
pub open spec fn gathered(field: Option<Seq<char>>) -> Seq<Seq<char>> {
    match field {
        Some(text) => if text.len() == 0 {
            Seq::empty()
        } else {
            seq![text]
        },
        None => Seq::empty(),
    }
}

/// The metadata keys differ from one another in length, but for the two
/// that the exporter never sets.
proof fn lemma_key_lengths()
    ensures
        "lang"@.len() == 4,
        "title"@.len() == 5,
        "author"@.len() == 6,
        "subject"@.len() == 7,
        "license"@.len() == 7,
        "toc_name"@.len() == 8,
        "generator"@.len() == 9,
        "description"@.len() == 11,
{
    reveal_strlit("lang");
    reveal_strlit("title");
    reveal_strlit("author");
    reveal_strlit("subject");
    reveal_strlit("license");
    reveal_strlit("toc_name");
    reveal_strlit("generator");
    reveal_strlit("description");
}

/// The metadata of an exported book, key by key: the document's title as it
/// was given, the generator, and language, publisher and description only
/// where the document has them; the remaining keys are as in a new book.
pub proof fn lemma_metadata_for(meta: MetaView)
    ensures
        metadata_for(meta).dom() == fresh_metadata().dom(),
        metadata_for(meta)["title"@] == seq![meta.title],
        metadata_for(meta)["generator"@] == seq![GENERATOR@],
        metadata_for(meta)["lang"@] == gathered(meta.language),
        metadata_for(meta)["author"@] == gathered(meta.publisher),
        metadata_for(meta)["description"@] == gathered(meta.description),
        metadata_for(meta)["subject"@] == fresh_metadata()["subject"@],
        metadata_for(meta)["license"@] == fresh_metadata()["license"@],
        metadata_for(meta)["toc_name"@] == fresh_metadata()["toc_name"@],
{
    lemma_key_lengths();
    let fresh = fresh_metadata();
    let titled = metadata_after(fresh, "title"@, meta.title);
    let stamped = metadata_after(titled, "generator"@, GENERATOR@);
    let spoken = match meta.language {
        Some(language) => metadata_after(stamped, "lang"@, language),
        None => stamped,
    };
    let authored = match meta.publisher {
        Some(publisher) => metadata_after(spoken, "author"@, publisher),
        None => spoken,
    };
    assert(titled.dom() =~= fresh.dom());
    assert(stamped.dom() =~= fresh.dom());
    assert(spoken.dom() =~= fresh.dom());
    assert(authored.dom() =~= fresh.dom());
    assert(metadata_for(meta).dom() =~= fresh.dom());
    assert(spoken["lang"@] =~= gathered(meta.language));
    assert(authored["author"@] =~= gathered(meta.publisher));
    assert(metadata_for(meta)["description"@] =~= gathered(meta.description));
}

/// The parts of an exported book stand one for each page, in the order of
/// the pages, under file names that differ from one another and begin with
/// a digit, and under titles that are not blank.
pub proof fn lemma_planned_parts(pages: Seq<PageView>)
    requires
        planned_parts(pages) is Some,
    ensures
        planned_parts(pages).unwrap().len() == pages.len(),
        forall|i: int|
            0 <= i < pages.len() ==> planned_part(pages[i], (i + 1) as nat) == Some(
                #[trigger] planned_parts(pages).unwrap()[i],
            ),
        forall|i: int|
            0 <= i < pages.len() ==> !blank(#[trigger] planned_parts(pages).unwrap()[i].title),
        forall|i: int|
            0 <= i < pages.len() ==> is_digit(
                (#[trigger] planned_parts(pages).unwrap()[i]).file_name.first(),
            ),
        forall|i: int, j: int|
            0 <= i < j < pages.len() ==> (#[trigger] planned_parts(pages).unwrap()[i]).file_name
                != (#[trigger] planned_parts(pages).unwrap()[j]).file_name,
{
    let parts = planned_parts(pages).unwrap();
    assert forall|i: int| 0 <= i < pages.len() implies planned_part(pages[i], (i + 1) as nat)
        == Some(#[trigger] parts[i]) && !blank(parts[i].title) && is_digit(
        parts[i].file_name.first(),
    ) by {
        assert(planned_part(pages[i], (i + 1) as nat) is Some);
        lemma_effective_title_not_blank(pages[i].title, (i + 1) as nat);
        lemma_file_name_begins_with_digit((i + 1) as nat, slug_of(pages[i].title).unwrap());
    }
    assert forall|i: int, j: int| 0 <= i < j < pages.len() implies (#[trigger] parts[i]).file_name
        != (#[trigger] parts[j]).file_name by {
        assert(planned_part(pages[i], (i + 1) as nat) is Some);
        assert(planned_part(pages[j], (j + 1) as nat) is Some);
        lemma_file_names_differ(
            (i + 1) as nat,
            (j + 1) as nat,
            slug_of(pages[i].title).unwrap(),
            slug_of(pages[j].title).unwrap(),
        );
    }
}

/// Checks that a document can be exported.
pub fn validate(data: &Input) -> (res: Result<(), ExportError>)
    ensures
        res == validation(data@),
{
    if is_blank(data.meta.title.as_str()) {
        Err(ExportError::TitleRequired)
    } else if data.pages.len() == 0 {
        Err(ExportError::PagesRequired)
    } else {
        Ok(())
    }
}

/// Whether two books differ in their metadata at most.
pub open spec fn same_but_metadata(before: Book, after: Book) -> bool {
    &&& book_identifier(after) == book_identifier(before)
    &&& book_extras(after) == book_extras(before)
    &&& book_parts(after) == book_parts(before)
    &&& book_inline_toc(after) == book_inline_toc(before)
}

/// Stores one metadata value in the book, under a key that the builder knows.
fn put(book: &mut Book, key: &str, value: &str) -> (res: Result<(), ExportError>)
    requires
        gathers(key@) || replaces(key@),
    ensures
        res is Ok,
        book_metadata(*final(book)) == metadata_after(book_metadata(*old(book)), key@, value@),
        same_but_metadata(*old(book), *final(book)),
{
    match book.set_metadata(key, value) {
        Ok(()) => Ok(()),
        Err(e) => Err(ExportError::Packaging(e)),
    }
}

/// Stores a metadata value that the document may lack; nothing is done for a
/// missing one.
fn put_optional(book: &mut Book, key: &str, field: &Option<String>) -> (res: Result<
    (),
    ExportError,
>)
    requires
        gathers(key@) || replaces(key@),
    ensures
        res is Ok,
        book_metadata(*final(book)) == match optional_text(*field) {
            Some(value) => metadata_after(book_metadata(*old(book)), key@, value),
            None => book_metadata(*old(book)),
        },
        same_but_metadata(*old(book), *final(book)),
{
    match field {
        Some(value) => put(book, key, value.as_str()),
        None => Ok(()),
    }
}

/// Validates a document and fills a new book with it: the metadata, the
/// identifier where the document has one, the time of the last change, one
/// content part for each page, and after them the inline table of contents.
pub fn assemble(data: &Input) -> (res: Result<Book, ExportError>)
    ensures
        match res {
            Ok(book) => {
                &&& data@.described()
                &&& book_metadata(book) == metadata_for(data@.meta)
                &&& book_identifier(book) == identifier_for(data@.meta)
                &&& stamped(book_extras(book), data@.meta)
                &&& planned_parts(data@.pages) == Some(book_parts(book))
                &&& forall|i: int|
                    0 <= i < data@.pages.len() ==> !unstorable(
                        #[trigger] data@.pages[i],
                        (i + 1) as nat,
                    )
                &&& book_inline_toc(book) == Some(data@.pages.len())
            },
            Err(e) => e.explains(data@),
        },
        blank(data@.meta.title) ==> res matches Err(ExportError::TitleRequired),
        !blank(data@.meta.title) && data@.pages.len() == 0 ==> res matches Err(
            ExportError::PagesRequired,
        ),
{
    match validate(data) {
        Ok(()) => {},
        Err(e) => {
            return Err(e);
        },
    }
    let zip = match epub_builder::ZipLibrary::new() {
        Ok(zip) => zip,
        Err(e) => {
            return Err(ExportError::Packaging(e));
        },
    };
    let mut book = match Book::open(zip) {
        Ok(book) => book,
        Err(e) => {
            return Err(ExportError::Packaging(e));
        },
    };
    put(&mut book, "title", data.meta.title.as_str())?;
    put(&mut book, "generator", GENERATOR)?;
    put_optional(&mut book, "lang", &data.meta.language)?;
    put_optional(&mut book, "author", &data.meta.publisher)?;
    put_optional(&mut book, "description", &data.meta.description)?;
    match &data.meta.identifier {
        Some(identifier) => {
            match book.set_identifier(identifier.as_str()) {
                Ok(()) => {},
                Err(e) => {
                    return Err(ExportError::InvalidIdentifier(e));
                },
            }
        },
        None => {},
    }
    let stamp = match &data.meta.modified {
        Some(modified) => match utc_stamp(modified.as_str()) {
            Ok(stamp) => stamp,
            Err(e) => {
                return Err(ExportError::InvalidTimestamp(e));
            },
        },
        None => now_stamp(),
    };
    book.add_meta(MODIFIED, stamp.as_str());
    let ghost pages = data@.pages;
    let mut i: usize = 0;
    while i < data.pages.len()
        invariant
            i <= data.pages.len(),
            pages == data@.pages,
            data@.described(),
            book_metadata(book) == metadata_for(data@.meta),
            book_identifier(book) == identifier_for(data@.meta),
            stamped(book_extras(book), data@.meta),
            book_inline_toc(book) is None,
            book_parts(book).len() == i,
            forall|j: int|
                0 <= j < i ==> (#[trigger] planned_part(pages[j], (j + 1) as nat)) == Some(
                    book_parts(book)[j],
                ),
            forall|j: int| 0 <= j < i ==> !unstorable(#[trigger] pages[j], (j + 1) as nat),
        decreases data.pages.len() - i,
    {
        assert(pages[i as int] == data.pages[i as int]@);
        let part = match plan_page(&data.pages[i], i + 1) {
            Ok(part) => part,
            Err(e) => {
                assert(planned_part(pages[i as int], (i + 1) as nat) is None);
                return Err(ExportError::Pattern(e));
            },
        };
        if part.file_name.as_str().as_bytes().len() > MAX_ENTRY_NAME - FOLDER_BYTES {
            assert(unstorable(pages[i as int], (i + 1) as nat));
            return Err(ExportError::FileNameTooLong);
        }
        match book.add_part(part) {
            Ok(()) => {},
            Err(e) => {
                return Err(ExportError::Packaging(e));
            },
        }
        i += 1;
    }
    book.inline_toc();
    proof {
        let planned = Seq::new(
            pages.len(),
            |j: int| planned_part(pages[j], (j + 1) as nat).unwrap(),
        );
        assert(planned =~= book_parts(book));
    }
    Ok(book)
}

/// Writes a filled book out as the bytes of an EPUB container: a zip archive
/// that begins with the entry `mimetype` and holds an entry for each content
/// part of the book. It fails only where the packaging library does.
pub fn package(book: Book) -> (res: Result<Vec<u8>, ExportError>)
    ensures
        res matches Ok(bytes) ==> begins_container(bytes@) && holds_parts(
            bytes@,
            book_parts(book),
        ),
        res matches Err(e) ==> e is Packaging,
{
    match book.render() {
        Ok(bytes) => Ok(bytes),
        Err(e) => Err(ExportError::Packaging(e)),
    }
}

/// Exports a document: validates it, fills a book with it and returns the
/// bytes of the EPUB container, which holds an entry for the part of each
/// page. A document that fails validation is rejected before anything is
/// built.
pub fn generate(data: &Input) -> (res: Result<Vec<u8>, ExportError>)
    ensures
        match res {
            Ok(bytes) => {
                &&& begins_container(bytes@)
                &&& holds_parts(bytes@, planned_parts(data@.pages).unwrap())
                &&& data@.described()
                &&& planned_parts(data@.pages) is Some
                &&& forall|i: int|
                    0 <= i < data@.pages.len() ==> !unstorable(
                        #[trigger] data@.pages[i],
                        (i + 1) as nat,
                    )
            },
            Err(e) => e.explains(data@),
        },
        blank(data@.meta.title) ==> res matches Err(ExportError::TitleRequired),
        !blank(data@.meta.title) && data@.pages.len() == 0 ==> res matches Err(
            ExportError::PagesRequired,
        ),
{
    match assemble(data) {
        Ok(book) => package(book),
        Err(e) => Err(e),
    }
}

} // verus!
