//! Page markup: entity escaping and the standalone XHTML document that wraps
//! one page of a book.

use crate::text::{blank, chars_of, is_blank};
use vstd::prelude::*;
use vstd::string::StringExecFns;

verus! {

/// Everything of a page document that comes before the escaped title.
pub const DOCUMENT_HEAD: &'static str =
    "<?xml version=\"1.0\" encoding=\"utf-8\"?>\n<!DOCTYPE html>\n<html xmlns=\"http://www.w3.org/1999/xhtml\" xml:lang=\"en\" lang=\"en\">\n<head>\n  <title>";

/// What stands between the title and the body of a page document.
pub const DOCUMENT_MIDDLE: &'static str = "</title>\n</head>\n<body>\n";

/// Everything of a page document that comes after the body.
pub const DOCUMENT_TAIL: &'static str = "\n</body>\n</html>\n";

/// The body of a page whose fragment is blank: a non-breaking space.
pub const BLANK_BODY: &'static str = "&nbsp;";

/// What one character of a title becomes inside the `<title>` element: the
/// five special characters of XML become entities, every other character
/// stands for itself.
pub open spec fn escaped_char(c: char) -> Seq<char> {
    if c == '&' {
        "&amp;"@
    } else if c == '<' {
        "&lt;"@
    } else if c == '>' {
        "&gt;"@
    } else if c == '"' {
        "&quot;"@
    } else if c == '\'' {
        "&apos;"@
    } else {
        seq![c]
    }
}

/// `s` with each character escaped, in order.
pub open spec fn xml_escaped(s: Seq<char>) -> Seq<char> {
    s.map_values(|c: char| escaped_char(c)).flatten()
}

/// The body of a page document: the fragment as it is, or the placeholder
/// where the fragment is blank.
pub open spec fn document_body(fragment: Seq<char>) -> Seq<char> {
    if blank(fragment) {
        BLANK_BODY@
    } else {
        fragment
    }
}

/// The standalone XHTML document for a page with the given title and fragment.
pub open spec fn xhtml_document(title: Seq<char>, fragment: Seq<char>) -> Seq<char> {
    DOCUMENT_HEAD@ + xml_escaped(title) + DOCUMENT_MIDDLE@ + document_body(fragment)
        + DOCUMENT_TAIL@
}

/// Escaping a text that ends in `c` is escaping what comes before, then `c`.
pub proof fn lemma_escaped_push(s: Seq<char>, c: char)
    ensures
        xml_escaped(s.push(c)) == xml_escaped(s) + escaped_char(c),
{
    let f = |c: char| escaped_char(c);
    assert(s.push(c).map_values(f) =~= s.map_values(f).push(f(c)));
    s.map_values(f).lemma_flatten_push(f(c));
}

/// Escaping goes through a text piece by piece: the escape of two texts
/// joined is the two escapes joined.
pub proof fn lemma_escaped_concat(a: Seq<char>, b: Seq<char>)
    ensures
        xml_escaped(a + b) == xml_escaped(a) + xml_escaped(b),
    decreases b.len(),
{
    if b.len() == 0 {
        assert(a + b =~= a);
        assert(xml_escaped(b) =~= Seq::<char>::empty()) by {
            assert(b.map_values(|c: char| escaped_char(c)) =~= Seq::<Seq<char>>::empty());
        }
        assert(xml_escaped(a) + xml_escaped(b) =~= xml_escaped(a));
    } else {
        let front = b.drop_last();
        let c = b.last();
        lemma_escaped_concat(a, front);
        lemma_escaped_push(a + front, c);
        lemma_escaped_push(front, c);
        assert((a + front).push(c) =~= a + b);
        assert(front.push(c) =~= b);
        assert(xml_escaped(a) + (xml_escaped(front) + escaped_char(c)) =~= (xml_escaped(a)
            + xml_escaped(front)) + escaped_char(c));
    }
}

/// Whether `c` is one of the four characters that never stand in an escaped
/// text.
pub open spec fn is_markup(c: char) -> bool {
    c == '<' || c == '>' || c == '"' || c == '\''
}

/// An escaped text holds no `<`, `>`, `"` or `'`.
pub proof fn lemma_escaped_has_no_markup(s: Seq<char>)
    ensures
        forall|i: int| 0 <= i < xml_escaped(s).len() ==> !is_markup(#[trigger] xml_escaped(s)[i]),
    decreases s.len(),
{
    if s.len() == 0 {
        assert(s.map_values(|c: char| escaped_char(c)) =~= Seq::<Seq<char>>::empty());
    } else {
        let front = s.drop_last();
        let c = s.last();
        lemma_escaped_has_no_markup(front);
        lemma_escaped_push(front, c);
        assert(front.push(c) =~= s);
        reveal_strlit("&amp;");
        reveal_strlit("&lt;");
        reveal_strlit("&gt;");
        reveal_strlit("&quot;");
        reveal_strlit("&apos;");
        let entity = escaped_char(c);
        assert forall|i: int| 0 <= i < entity.len() implies !is_markup(#[trigger] entity[i]) by {}
        assert forall|i: int| 0 <= i < xml_escaped(s).len() implies !is_markup(
            #[trigger] xml_escaped(s)[i],
        ) by {
            if i >= xml_escaped(front).len() {
                assert(xml_escaped(s)[i] == entity[i - xml_escaped(front).len()]);
            }
        }
    }
}

/// In a page document the title is escaped and the fragment is not: a
/// character `c` of the title stands there as `escaped_char(c)`, between the
/// escapes of what comes before and after it, the title element holds none
/// of `<`, `>`, `"` and `'`, and a fragment that is not blank stands in the
/// body exactly as it was given.
pub proof fn lemma_title_escaped_body_verbatim(
    before: Seq<char>,
    c: char,
    after: Seq<char>,
    fragment: Seq<char>,
)
    requires
        !blank(fragment),
    ensures
        xhtml_document(before.push(c) + after, fragment) == DOCUMENT_HEAD@ + (xml_escaped(before)
            + escaped_char(c) + xml_escaped(after)) + DOCUMENT_MIDDLE@ + fragment + DOCUMENT_TAIL@,
        escaped_char('<') == "&lt;"@,
        escaped_char('&') == "&amp;"@,
        forall|i: int|
            0 <= i < xml_escaped(before.push(c) + after).len() ==> !is_markup(
                #[trigger] xml_escaped(before.push(c) + after)[i],
            ),
{
    lemma_escaped_push(before, c);
    lemma_escaped_concat(before.push(c), after);
    lemma_escaped_has_no_markup(before.push(c) + after);
}

/// `s` with `&`, `<`, `>`, `"` and `'` replaced by their entities.
pub fn xml_escape(s: &str) -> (res: String)
    ensures
        res@ == xml_escaped(s@),
{
    let cs = chars_of(s);
    let mut out = String::new();
    let mut i: usize = 0;
    while i < cs.len()
        invariant
            i <= cs.len(),
            out@ == xml_escaped(cs@.take(i as int)),
        decreases cs.len() - i,
    {
        let c = cs[i];
        proof {
            lemma_escaped_push(cs@.take(i as int), c);
            assert(cs@.take(i as int).push(c) =~= cs@.take(i + 1));
        }
        if c == '&' {
            out.append("&amp;");
        } else if c == '<' {
            out.append("&lt;");
        } else if c == '>' {
            out.append("&gt;");
        } else if c == '"' {
            out.append("&quot;");
        } else if c == '\'' {
            out.append("&apos;");
        } else {
            out.push(c);
        }
        i += 1;
    }
    assert(cs@.take(cs.len() as int) =~= cs@);
    out
}

/// The standalone XHTML document for one page: the title escaped inside
/// `<title>`, the fragment verbatim inside `<body>`.
pub fn wrap_as_xhtml(title: &str, html_fragment: &str) -> (res: String)
    ensures
        res@ == xhtml_document(title@, html_fragment@),
{
    let mut out = String::from_str(DOCUMENT_HEAD);
    let escaped = xml_escape(title);
    out.append(escaped.as_str());
    out.append(DOCUMENT_MIDDLE);
    if is_blank(html_fragment) {
        out.append(BLANK_BODY);
    } else {
        out.append(html_fragment);
    }
    out.append(DOCUMENT_TAIL);
    out
}

} // verus!
