use ketabak::slug::{slug, slug_from_hyphenated};

#[test]
fn slug_of_punctuated_title() {
    assert_eq!(slug("Hello, World!!").unwrap(), "hello-world");
}

#[test]
fn slug_of_blank_title_is_page() {
    assert_eq!(slug("   ").unwrap(), "page");
    assert_eq!(slug("").unwrap(), "page");
    assert_eq!(slug("?!").unwrap(), "page");
}

#[test]
fn slug_keeps_unicode_letters() {
    let made = slug("日本語").unwrap();
    assert_eq!(made, "日本語");
    assert!(!made.contains('-'));
    assert!(!made.is_ascii());
}

#[test]
fn slug_lowercases_beyond_ascii() {
    assert_eq!(slug("ÉCOLE Été").unwrap(), "école-été");
}

#[test]
fn slug_keeps_numbers() {
    assert_eq!(slug("Part 2: The 3rd").unwrap(), "part-2-the-3rd");
}

#[test]
fn slug_joins_a_run_with_one_hyphen() {
    assert_eq!(slug("a -- b").unwrap(), "a-b");
    assert_eq!(slug("a_b").unwrap(), "a-b");
}

#[test]
fn slug_is_the_same_each_time() {
    assert_eq!(slug("Hello, World!!").unwrap(), slug("Hello, World!!").unwrap());
}

#[test]
fn slug_from_hyphenated_trims_and_lowercases() {
    assert_eq!(slug_from_hyphenated("-Hello-World-"), "hello-world");
    assert_eq!(slug_from_hyphenated("Hello-World"), "hello-world");
    assert_eq!(slug_from_hyphenated("---"), "page");
    assert_eq!(slug_from_hyphenated("-"), "page");
    assert_eq!(slug_from_hyphenated(""), "page");
}
