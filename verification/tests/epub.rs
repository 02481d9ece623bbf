use ketabak::epub::{assemble, generate, package, validate, ExportError, Input, Meta, Page};
use std::io::Read;

fn meta(title: &str) -> Meta {
    Meta {
        title: title.to_string(),
        publisher: None,
        language: None,
        identifier: None,
        description: None,
        modified: None,
    }
}

fn page(title: &str, content: &str) -> Page {
    Page { title: title.to_string(), content: content.to_string() }
}

fn my_book() -> Input {
    Input { meta: meta("My Book"), pages: vec![page("", "<p>Hi</p>"), page("End", "")] }
}

#[test]
fn blank_title_is_rejected() {
    let data = Input { meta: meta(""), pages: vec![page("a", "b")] };
    assert!(matches!(validate(&data), Err(ExportError::TitleRequired)));
    assert!(matches!(generate(&data), Err(ExportError::TitleRequired)));
    let spaces = Input { meta: meta("  \n"), pages: vec![page("a", "b")] };
    assert!(matches!(generate(&spaces), Err(ExportError::TitleRequired)));
}

#[test]
fn no_pages_is_rejected() {
    let data = Input { meta: meta("T"), pages: vec![] };
    assert!(matches!(validate(&data), Err(ExportError::PagesRequired)));
    assert!(matches!(generate(&data), Err(ExportError::PagesRequired)));
}

#[test]
fn title_is_looked_at_first() {
    let data = Input { meta: meta(" "), pages: vec![] };
    assert!(matches!(generate(&data), Err(ExportError::TitleRequired)));
}

#[test]
fn valid_document_passes_validation() {
    assert!(validate(&my_book()).is_ok());
}

#[test]
fn validation_messages() {
    assert_eq!(ExportError::TitleRequired.message(), "title required");
    assert_eq!(ExportError::PagesRequired.message(), "pages required");
}

#[test]
fn export_gives_a_zip_container() {
    let bytes = generate(&my_book()).unwrap();
    assert_eq!(&bytes[..4], b"PK\x03\x04");
    let name = b"mimetype";
    assert_eq!(&bytes[30..30 + name.len()], name);
    let kind = b"application/epub+zip";
    assert_eq!(&bytes[38..38 + kind.len()], kind);
}

#[test]
fn export_in_two_steps() {
    let book = assemble(&my_book()).unwrap();
    let bytes = package(book).unwrap();
    assert!(bytes.len() >= 58);
    assert_eq!(&bytes[..4], &[0x50, 0x4b, 0x03, 0x04]);
    assert_eq!(&bytes[30..38], b"mimetype");
    assert_eq!(&bytes[38..58], b"application/epub+zip");
}

#[test]
fn export_with_all_metadata() {
    let data = Input {
        meta: Meta {
            title: "Tom & Jerry".to_string(),
            publisher: Some("Press".to_string()),
            language: Some("fa".to_string()),
            identifier: None,
            description: Some("A <short> tale".to_string()),
            modified: None,
        },
        pages: vec![page("One", "<p>1</p>"), page("One", "<p>2</p>")],
    };
    assert!(generate(&data).is_ok());
}

fn entry(bytes: &[u8], name: &str) -> String {
    let mut archive = zip::ZipArchive::new(std::io::Cursor::new(bytes.to_vec())).unwrap();
    let mut file = archive.by_name(name).unwrap();
    let mut text = String::new();
    file.read_to_string(&mut text).unwrap();
    text
}

#[test]
fn my_book_scenario() {
    let bytes = generate(&my_book()).unwrap();
    let first = entry(&bytes, "OEBPS/01-page.xhtml");
    assert!(first.contains("<title>Chapter 1</title>"));
    assert!(first.contains("<body>\n<p>Hi</p>\n</body>"));
    let second = entry(&bytes, "OEBPS/02-end.xhtml");
    assert!(second.contains("<title>End</title>"));
    assert!(second.contains("<body>\n&nbsp;\n</body>"));
    let names: Vec<String> = {
        let archive = zip::ZipArchive::new(std::io::Cursor::new(bytes.clone())).unwrap();
        archive.file_names().map(|n| n.to_string()).collect()
    };
    let pages: Vec<&String> = names.iter().filter(|n| n.ends_with(".xhtml")).collect();
    assert!(pages.iter().any(|n| n.as_str() == "OEBPS/01-page.xhtml"));
    assert!(pages.iter().any(|n| n.as_str() == "OEBPS/02-end.xhtml"));
    assert!(names.iter().any(|n| n == "OEBPS/toc.xhtml"));
}

#[test]
fn package_document_lists_metadata_and_parts() {
    let data = Input {
        meta: Meta {
            title: "Tom & Jerry".to_string(),
            publisher: Some("Press".to_string()),
            language: Some("fa".to_string()),
            identifier: Some("550e8400-e29b-41d4-a716-446655440000".to_string()),
            description: Some("A short tale".to_string()),
            modified: Some("2016-02-29T12:34:56+01:00".to_string()),
        },
        pages: vec![page("", "<p>1</p>"), page("End", "<p>2</p>")],
    };
    let bytes = generate(&data).unwrap();
    let opf = entry(&bytes, "OEBPS/content.opf");
    assert!(opf.contains("Tom &amp; Jerry"));
    assert!(opf.contains("Press"));
    assert!(opf.contains(">fa<"));
    assert!(opf.contains("A short tale"));
    assert!(opf.contains("href=\"01-page.xhtml\""));
    assert!(opf.contains("href=\"02-end.xhtml\""));
    assert!(opf.find("01-page.xhtml").unwrap() < opf.find("02-end.xhtml").unwrap());
    assert!(opf.contains("title=\"Chapter 1\""));
    assert!(opf.contains("title=\"End\""));
    assert!(opf.contains("urn:uuid:550e8400-e29b-41d4-a716-446655440000"));
    assert!(opf.contains("<meta name=\"dcterms:modified\" content=\"2016-02-29T11:34:56Z\"/>"));
    let toc = entry(&bytes, "OEBPS/toc.xhtml");
    assert!(toc.contains("Chapter 1"));
    assert!(toc.contains("End"));
    assert!(toc.contains("<meta name=\"generator\" content=\"Ketabak\" />"));
}

#[test]
fn missing_metadata_is_not_set() {
    let bytes = generate(&my_book()).unwrap();
    let opf = entry(&bytes, "OEBPS/content.opf");
    assert!(!opf.contains("<dc:description>"));
    assert!(!opf.contains("<dc:creator"));
}

#[test]
fn longest_file_name_is_stored() {
    let title = "a".repeat(65520);
    let data = Input { meta: meta("T"), pages: vec![page(&title, "x")] };
    let bytes = generate(&data).unwrap();
    let name = format!("OEBPS/01-{}.xhtml", title);
    assert_eq!(name.len(), 65535);
    assert!(entry(&bytes, &name).contains("<body>\nx\n</body>"));
}

#[test]
fn longer_file_name_is_rejected() {
    let title = "a".repeat(65521);
    let data = Input { meta: meta("T"), pages: vec![page("ok", "x"), page(&title, "x")] };
    assert!(matches!(generate(&data), Err(ExportError::FileNameTooLong)));
    assert_eq!(ExportError::FileNameTooLong.message(), "page title too long");
}

#[test]
fn file_name_length_counts_bytes() {
    let title = "é".repeat(32761);
    let data = Input { meta: meta("T"), pages: vec![page(&title, "x")] };
    assert!(matches!(generate(&data), Err(ExportError::FileNameTooLong)));
    let shorter = "é".repeat(32760);
    let fits = Input { meta: meta("T"), pages: vec![page(&shorter, "x")] };
    assert!(generate(&fits).is_ok());
}

#[test]
fn pages_with_the_same_title_get_different_files() {
    let data = Input { meta: meta("T"), pages: vec![page("One", "<p>1</p>"), page("One", "<p>2</p>")] };
    let bytes = generate(&data).unwrap();
    assert!(entry(&bytes, "OEBPS/01-one.xhtml").contains("<p>1</p>"));
    assert!(entry(&bytes, "OEBPS/02-one.xhtml").contains("<p>2</p>"));
}

#[test]
fn empty_optional_metadata_is_not_set() {
    let data = Input {
        meta: Meta {
            title: "T".to_string(),
            publisher: Some(String::new()),
            language: Some(String::new()),
            identifier: None,
            description: Some(String::new()),
            modified: None,
        },
        pages: vec![page("a", "b")],
    };
    let bytes = generate(&data).unwrap();
    let opf = entry(&bytes, "OEBPS/content.opf");
    assert!(!opf.contains("<dc:language>"));
    assert!(!opf.contains("<dc:creator"));
    assert!(!opf.contains("<dc:description>"));
}

#[test]
fn title_is_stored_as_given() {
    let data = Input { meta: meta("  My Book "), pages: vec![page("a", "b")] };
    let bytes = generate(&data).unwrap();
    let opf = entry(&bytes, "OEBPS/content.opf");
    assert!(opf.contains("<dc:title>  My Book </dc:title>"));
}

#[test]
fn more_than_ninety_nine_pages() {
    let mut pages = Vec::new();
    for _ in 0..101 {
        pages.push(page("", "x"));
    }
    let data = Input { meta: meta("T"), pages };
    let bytes = generate(&data).unwrap();
    assert!(entry(&bytes, "OEBPS/09-page.xhtml").contains("<title>Chapter 9</title>"));
    assert!(entry(&bytes, "OEBPS/10-page.xhtml").contains("<title>Chapter 10</title>"));
    assert!(entry(&bytes, "OEBPS/100-page.xhtml").contains("<title>Chapter 100</title>"));
    assert!(entry(&bytes, "OEBPS/101-page.xhtml").contains("<title>Chapter 101</title>"));
}

fn stamped(identifier: Option<&str>, modified: Option<&str>) -> Input {
    Input {
        meta: Meta {
            title: "T".to_string(),
            publisher: None,
            language: None,
            identifier: identifier.map(|text| text.to_string()),
            description: None,
            modified: modified.map(|text| text.to_string()),
        },
        pages: vec![page("a", "b")],
    }
}

#[test]
fn identifier_is_stored() {
    for spelling in [
        "550e8400-e29b-41d4-a716-446655440000",
        "550E8400E29B41D4A716446655440000",
        "urn:uuid:550e8400-e29b-41d4-a716-446655440000",
    ] {
        let bytes = generate(&stamped(Some(spelling), None)).unwrap();
        let opf = entry(&bytes, "OEBPS/content.opf");
        assert!(
            opf.contains(">urn:uuid:550e8400-e29b-41d4-a716-446655440000</dc:identifier>"),
            "{}",
            spelling
        );
    }
}

#[test]
fn identifier_that_is_no_uuid_is_rejected() {
    for text in ["", "isbn:9780000000000", "550e8400-e29b-41d4-a716"] {
        let res = generate(&stamped(Some(text), None));
        assert!(matches!(res, Err(ExportError::InvalidIdentifier(_))), "{:?}", text);
    }
    let cause = generate(&stamped(Some("x"), None)).unwrap_err();
    assert_eq!(cause.message(), uuid::Uuid::parse_str("x").unwrap_err().to_string());
}

#[test]
fn missing_identifier_is_made_up() {
    let first = entry(&generate(&stamped(None, None)).unwrap(), "OEBPS/content.opf");
    assert!(first.contains("urn:uuid:"));
}

#[test]
fn time_of_change_is_written_in_utc() {
    for (given, written) in [
        ("2016-02-29T12:34:56+01:00", "2016-02-29T11:34:56Z"),
        ("1996-12-19T16:39:57Z", "1996-12-19T16:39:57Z"),
        ("2024-01-01T00:00:00.123456789-08:00", "2024-01-01T08:00:00Z"),
    ] {
        let bytes = generate(&stamped(None, Some(given))).unwrap();
        let opf = entry(&bytes, "OEBPS/content.opf");
        let element = format!("<meta name=\"dcterms:modified\" content=\"{}\"/>", written);
        assert!(opf.contains(&element), "{}", given);
        assert_eq!(opf.matches("dcterms:modified").count(), 1);
    }
}

#[test]
fn missing_time_of_change_is_the_time_of_export() {
    let before = chrono::Utc::now().timestamp();
    let bytes = generate(&stamped(None, None)).unwrap();
    let after = chrono::Utc::now().timestamp();
    let opf = entry(&bytes, "OEBPS/content.opf");
    let lead = "<meta name=\"dcterms:modified\" content=\"";
    let from = opf.find(lead).unwrap() + lead.len();
    let upto = from + opf[from..].find('"').unwrap();
    let written = chrono::DateTime::parse_from_rfc3339(&opf[from..upto]).unwrap().timestamp();
    assert!(before <= written && written <= after);
    assert!(opf[from..upto].ends_with('Z'));
}

#[test]
fn time_of_change_that_is_no_date_is_rejected() {
    for text in ["", "yesterday", "2016-02-30T12:34:56Z", "2016-02-29"] {
        let res = generate(&stamped(None, Some(text)));
        assert!(matches!(res, Err(ExportError::InvalidTimestamp(_))), "{:?}", text);
    }
    let cause = generate(&stamped(None, Some("x"))).unwrap_err();
    let theirs = chrono::DateTime::parse_from_rfc3339("x").unwrap_err().to_string();
    assert_eq!(cause.message(), theirs);
}

#[test]
fn identifier_is_looked_at_before_the_time() {
    let res = generate(&stamped(Some("x"), Some("y")));
    assert!(matches!(res, Err(ExportError::InvalidIdentifier(_))));
}

#[test]
fn document_faults_come_after_validation() {
    let mut data = stamped(Some("x"), Some("y"));
    data.pages.clear();
    assert!(matches!(generate(&data), Err(ExportError::PagesRequired)));
    data.meta.title = " ".to_string();
    assert!(matches!(generate(&data), Err(ExportError::TitleRequired)));
}

fn holds_entry(bytes: &[u8], name: &str) -> bool {
    let name = name.as_bytes();
    let mut at = 0;
    while at + 30 + name.len() <= bytes.len() {
        if bytes[at..at + 4] == [0x50, 0x4b, 0x03, 0x04] && &bytes[at + 30..at + 30 + name.len()] == name {
            return true;
        }
        at += 1;
    }
    false
}

#[test]
fn container_holds_an_entry_for_each_part() {
    let bytes = generate(&my_book()).unwrap();
    assert!(holds_entry(&bytes, "OEBPS/01-page.xhtml"));
    assert!(holds_entry(&bytes, "OEBPS/02-end.xhtml"));
    assert!(!holds_entry(&bytes, "OEBPS/03-"));
    let book = assemble(&my_book()).unwrap();
    let packaged = package(book).unwrap();
    assert!(holds_entry(&packaged, "OEBPS/01-page.xhtml"));
    assert!(holds_entry(&packaged, "OEBPS/02-end.xhtml"));
}

#[test]
fn entry_names_are_in_utf8() {
    let data = Input { meta: meta("T"), pages: vec![page("日本語", "x")] };
    let bytes = generate(&data).unwrap();
    assert!(holds_entry(&bytes, "OEBPS/01-日本語.xhtml"));
}

#[test]
fn table_of_contents_comes_after_the_parts() {
    let bytes = generate(&my_book()).unwrap();
    let opf = entry(&bytes, "OEBPS/content.opf");
    let first = opf.find("<itemref idref=\"id_01-page.xhtml\"/>").unwrap();
    let second = opf.find("<itemref idref=\"id_02-end.xhtml\"/>").unwrap();
    let contents = opf.find("<itemref idref=\"id_toc.xhtml\"/>").unwrap();
    assert!(first < second && second < contents);
    assert_eq!(opf.matches("<itemref ").count(), 3);
}
