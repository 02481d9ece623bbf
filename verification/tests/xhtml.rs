use ketabak::xhtml::{wrap_as_xhtml, xml_escape};

#[test]
fn escape_replaces_the_five_special_characters() {
    assert_eq!(xml_escape("&"), "&amp;");
    assert_eq!(xml_escape("<"), "&lt;");
    assert_eq!(xml_escape(">"), "&gt;");
    assert_eq!(xml_escape("\""), "&quot;");
    assert_eq!(xml_escape("'"), "&apos;");
}

#[test]
fn escape_leaves_other_text_alone() {
    assert_eq!(xml_escape(""), "");
    assert_eq!(xml_escape("plain text 123"), "plain text 123");
    assert_eq!(xml_escape("日本語"), "日本語");
}

#[test]
fn escape_does_not_escape_twice() {
    assert_eq!(xml_escape("a < b & c"), "a &lt; b &amp; c");
    assert_eq!(xml_escape("&lt;"), "&amp;lt;");
    assert_eq!(xml_escape("<a href=\"x\">'q'</a>"), "&lt;a href=&quot;x&quot;&gt;&apos;q&apos;&lt;/a&gt;");
}

#[test]
fn escape_agrees_with_replacing_in_turn() {
    let samples = ["", "&<>\"'", "Tom & Jerry", "<<>>", "&amp;&", "no specials", "'&'\"<\">"];
    for sample in samples {
        let in_turn = sample
            .replace('&', "&amp;")
            .replace('<', "&lt;")
            .replace('>', "&gt;")
            .replace('"', "&quot;")
            .replace('\'', "&apos;");
        assert_eq!(xml_escape(sample), in_turn, "{:?}", sample);
    }
}

#[test]
fn document_of_a_page() {
    let expected = "<?xml version=\"1.0\" encoding=\"utf-8\"?>\n\
<!DOCTYPE html>\n\
<html xmlns=\"http://www.w3.org/1999/xhtml\" xml:lang=\"en\" lang=\"en\">\n\
<head>\n  <title>Chapter 1</title>\n</head>\n\
<body>\n<p>Hi</p>\n</body>\n</html>\n";
    assert_eq!(wrap_as_xhtml("Chapter 1", "<p>Hi</p>"), expected);
}

#[test]
fn title_is_escaped_and_body_is_not() {
    let document = wrap_as_xhtml("a < b & c", "<p>a < b & c</p>");
    assert!(document.contains("<title>a &lt; b &amp; c</title>"));
    assert!(document.contains("<body>\n<p>a < b & c</p>\n</body>"));
}

#[test]
fn blank_fragment_gets_the_placeholder() {
    for fragment in ["", "   ", "\n\t"] {
        let document = wrap_as_xhtml("End", fragment);
        assert!(document.contains("<body>\n&nbsp;\n</body>"), "{:?}", fragment);
    }
}

#[test]
fn fragment_is_kept_with_its_white_space() {
    let document = wrap_as_xhtml("T", "  <p>x</p>  ");
    assert!(document.contains("<body>\n  <p>x</p>  \n</body>"));
}
