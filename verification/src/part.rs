//! Content parts: what one page of a document becomes inside the book.

use crate::epub::{Page, PageView};
use crate::slug::{slug, slug_of};
use crate::text::{
    blank, decimal, decimal_string, is_blank, is_digit, is_white_space, lemma_blank_iff_trimmed_empty,
    lemma_decimal_injective, lemma_decimal_shape, lemma_stripped_ends, trim, trimmed, Margin,
};
use crate::xhtml::{wrap_as_xhtml, xhtml_document};
use vstd::prelude::*;
use vstd::string::StringExecFns;

verus! {

/// The title of an untitled page is this word, a space and the page's number.
pub const CHAPTER: &'static str = "Chapter ";

/// Stands between the number and the slug in a part's file name.
pub const NAME_SEPARATOR: &'static str = "-";

/// The extension of a part's file name.
pub const NAME_EXTENSION: &'static str = ".xhtml";

/// One content part of a book: the file it is stored under, the title it is
/// listed under, and its XHTML document.
#[derive(Debug)]
pub struct Part {
    pub file_name: String,
    pub title: String,
    pub xhtml: String,
}

/// A part as plain texts.
pub ghost struct PartView {
    pub file_name: Seq<char>,
    pub title: Seq<char>,
    pub xhtml: Seq<char>,
}

impl View for Part {
    type V = PartView;

    open spec fn view(&self) -> PartView {
        PartView { file_name: self.file_name@, title: self.title@, xhtml: self.xhtml@ }
    }
}

/// The title a page is listed under: its own title trimmed, or `Chapter n`
/// for the page's number `n` where its own title is blank.
pub open spec fn effective_title(title: Seq<char>, number: nat) -> Seq<char> {
    if blank(title) {
        CHAPTER@ + decimal(number)
    } else {
        trimmed(title)
    }
}

/// The number of a part as it stands in its file name: at least two digits.
pub open spec fn sequence_number(number: nat) -> Seq<char> {
    if number < 10 {
        seq!['0'] + decimal(number)
    } else {
        decimal(number)
    }
}

/// The file name of the part with the given number and slug.
pub open spec fn part_file_name(number: nat, slug: Seq<char>) -> Seq<char> {
    sequence_number(number) + NAME_SEPARATOR@ + slug + NAME_EXTENSION@
}

/// The part that a page becomes, given its number and the slug of its title.
pub open spec fn part_of(page: PageView, number: nat, slug: Seq<char>) -> PartView {
    let title = effective_title(page.title, number);
    PartView {
        file_name: part_file_name(number, slug),
        title,
        xhtml: xhtml_document(title, page.content),
    }
}

/// The part that a page becomes; `None` where its title has no slug.
pub open spec fn planned_part(page: PageView, number: nat) -> Option<PartView> {
    match slug_of(page.title) {
        Some(slug) => Some(part_of(page, number, slug)),
        None => None,
    }
}

/// No page is listed under a blank title: a part's title begins with a
/// character that is not white space.
pub proof fn lemma_effective_title_not_blank(title: Seq<char>, number: nat)
    ensures
        effective_title(title, number).len() > 0,
        !is_white_space(effective_title(title, number).first()),
        !blank(effective_title(title, number)),
{
    if blank(title) {
        reveal_strlit("Chapter ");
        assert(effective_title(title, number).first() == 'C');
    } else {
        lemma_blank_iff_trimmed_empty(title);
        lemma_stripped_ends(title, Margin::WhiteSpace);
    }
}

/// Below a hundred the sequence number has exactly two digits.
pub proof fn lemma_sequence_number_two_digits(number: nat)
    requires
        number < 100,
    ensures
        sequence_number(number).len() == 2,
        is_digit(sequence_number(number)[0]),
        is_digit(sequence_number(number)[1]),
{
    lemma_decimal_shape(number);
    if number >= 10 {
        assert(decimal(number / 10).len() == 1);
    }
}

/// A part's file name begins with a digit of its number.
pub proof fn lemma_file_name_begins_with_digit(number: nat, slug: Seq<char>)
    ensures
        part_file_name(number, slug).len() > 0,
        is_digit(part_file_name(number, slug).first()),
{
    lemma_decimal_shape(number);
    let digits = sequence_number(number);
    assert(digits.len() > 0);
    assert(is_digit(digits.first())) by {
        if number >= 10 {
            assert(digits.first() == decimal(number)[0]);
        }
    }
    assert(part_file_name(number, slug).first() == digits.first());
}

/// Parts with different numbers have different file names, whatever their
/// slugs: the numbers are made of digits, and the separator is none.
pub proof fn lemma_file_names_differ(a: nat, b: nat, slug_a: Seq<char>, slug_b: Seq<char>)
    requires
        a != b,
    ensures
        part_file_name(a, slug_a) != part_file_name(b, slug_b),
{
    let x = sequence_number(a);
    let y = sequence_number(b);
    let name_a = part_file_name(a, slug_a);
    let name_b = part_file_name(b, slug_b);
    reveal_strlit("-");
    lemma_decimal_shape(a);
    lemma_decimal_shape(b);
    assert forall|i: int| 0 <= i < x.len() implies is_digit(#[trigger] x[i]) by {
        if a < 10 && i > 0 {
            assert(x[i] == decimal(a)[i - 1]);
        }
    }
    assert forall|i: int| 0 <= i < y.len() implies is_digit(#[trigger] y[i]) by {
        if b < 10 && i > 0 {
            assert(y[i] == decimal(b)[i - 1]);
        }
    }
    assert forall|i: int| 0 <= i < x.len() implies name_a[i] == x[i] by {}
    assert forall|i: int| 0 <= i < y.len() implies name_b[i] == y[i] by {}
    assert(name_a[x.len() as int] == '-');
    assert(name_b[y.len() as int] == '-');
    if name_a == name_b {
        if x.len() < y.len() {
            assert(is_digit(y[x.len() as int]));
        } else if y.len() < x.len() {
            assert(is_digit(x[y.len() as int]));
        } else {
            assert(x =~= y);
            if a < 10 && b < 10 {
                assert(decimal(a) =~= x.drop_first());
                assert(decimal(b) =~= y.drop_first());
                lemma_decimal_injective(a, b);
            } else if a >= 10 && b >= 10 {
                lemma_decimal_injective(a, b);
            } else if a < 10 {
                assert(x[0] == '0');
                assert(y.first() != '0');
            } else {
                assert(y[0] == '0');
                assert(x.first() != '0');
            }
        }
    }
}

/// The title that the page with this title and number is listed under.
pub fn chapter_title(title: &str, number: usize) -> (res: String)
    ensures
        res@ == effective_title(title@, number as nat),
{
    if is_blank(title) {
        let mut out = String::from_str(CHAPTER);
        let digits = decimal_string(number);
        out.append(digits.as_str());
        out
    } else {
        trim(title)
    }
}

/// The file name of the part with the given number and slug.
pub fn file_name(number: usize, slug: &str) -> (res: String)
    ensures
        res@ == part_file_name(number as nat, slug@),
{
    let mut out = String::new();
    if number < 10 {
        out.push('0');
    }
    let digits = decimal_string(number);
    out.append(digits.as_str());
    out.append(NAME_SEPARATOR);
    out.append(slug);
    out.append(NAME_EXTENSION);
    proof {
        assert(Seq::<char>::empty().push('0') =~= seq!['0']);
        assert(Seq::<char>::empty() + decimal(number as nat) =~= decimal(number as nat));
    }
    out
}

/// Builds the part for a page from its number and the slug of its title.
pub fn make_part(page: &Page, number: usize, slug: &str) -> (res: Part)
    ensures
        res@ == part_of(page@, number as nat, slug@),
{
    let title = chapter_title(page.title.as_str(), number);
    let xhtml = wrap_as_xhtml(title.as_str(), page.content.as_str());
    Part { file_name: file_name(number, slug), title, xhtml }
}

/// Builds the part for a page with the given number. Fails only where the
/// title has no slug.
pub fn plan_page(page: &Page, number: usize) -> (res: Result<Part, regex::Error>)
    ensures
        match res {
            Ok(part) => planned_part(page@, number as nat) == Some(part@),
            Err(_) => planned_part(page@, number as nat) is None,
        },
{
    match slug(page.title.as_str()) {
        Ok(name) => Ok(make_part(page, number, name.as_str())),
        Err(e) => Err(e),
    }
}

} // verus!
