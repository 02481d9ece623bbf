use ketabak::guard::{Limits, StoreError};
use ketabak::read::{read_file, read_text};
use ketabak::sync::{sync, sync_text};
use serde_json::{Number, Value};

fn library() -> Value {
    let mut book = serde_json::Map::new();
    book.insert("title".to_string(), Value::String("My \"Book\" <1>".to_string()));
    book.insert("pages".to_string(), Value::Number(Number::from(12)));
    book.insert("draft".to_string(), Value::Bool(true));
    book.insert("cover".to_string(), Value::Null);
    book.insert(
        "tags".to_string(),
        Value::Array(vec![Value::String("日本語".to_string()), Value::Number(Number::from(-3))]),
    );
    let mut root = serde_json::Map::new();
    root.insert("books".to_string(), Value::Array(vec![Value::Object(book)]));
    root.insert("version".to_string(), Value::Number(Number::from(1)));
    Value::Object(root)
}

#[test]
fn value_round_trip() {
    let value = library();
    let stored = sync(&value, "library.ketabi").unwrap();
    assert_eq!(read_file("library.ketabi", &stored, &Limits::unlimited()), Ok(value));
}

#[test]
fn scalar_round_trip() {
    for value in [
        Value::Null,
        Value::Bool(false),
        Value::Number(Number::from(0)),
        Value::String(String::new()),
        Value::Array(Vec::new()),
        Value::Object(serde_json::Map::new()),
    ] {
        let stored = sync(&value, "v.ketabi").unwrap();
        assert_eq!(read_file("v.ketabi", &stored, &Limits::unlimited()), Ok(value));
    }
}

#[test]
fn text_round_trip() {
    let text = "{\"a\": [1, 2, 3], \"b\": \"日本語\"}";
    let stored = sync_text(text, "a.ketabi").unwrap();
    assert_eq!(read_text("a.ketabi", &stored, &Limits::unlimited()), Ok(text.to_string()));
    assert_eq!(
        read_text("a.ketabi", &stored, &Limits::at_most(stored.len() as u64)),
        Ok(text.to_string())
    );
}

#[test]
fn stored_bytes_are_a_gzip_stream() {
    let text = "{\"a\":1}";
    let stored = sync_text(text, "a.ketabi").unwrap();
    assert_eq!(&stored[..3], &[0x1f, 0x8b, 0x08]);
    assert_ne!(stored, text.as_bytes());
    let same = sync(&library(), "a.ketabi").unwrap();
    assert_eq!(&same[..3], &[0x1f, 0x8b, 0x08]);
}

#[test]
fn stored_text_is_compact_json() {
    let stored = sync(&library(), "a.ketabi").unwrap();
    let text = read_text("a.ketabi", &stored, &Limits::unlimited()).unwrap();
    assert_eq!(text, serde_json::to_string(&library()).unwrap());
    assert!(text.starts_with("{\"books\":[{"));
}

#[test]
fn same_value_gives_same_bytes() {
    assert_eq!(sync(&library(), "a.ketabi"), sync(&library(), "a.ketabi"));
}

#[test]
fn write_rejects_other_extension() {
    assert_eq!(sync(&library(), "library.json"), Err(StoreError::InvalidInput));
    assert_eq!(sync(&library(), "library"), Err(StoreError::InvalidInput));
    assert_eq!(sync_text("{}", "library.txt"), Err(StoreError::InvalidInput));
}

#[test]
fn read_rejects_other_extension() {
    let stored = sync(&library(), "library.ketabi").unwrap();
    assert_eq!(
        read_file("library.json", &stored, &Limits::unlimited()),
        Err(StoreError::InvalidInput)
    );
    assert_eq!(read_file("library.json", &[], &Limits::at_most(0)), Err(StoreError::InvalidInput));
}

#[test]
fn read_rejects_what_is_beyond_the_cap() {
    let stored = sync(&library(), "library.ketabi").unwrap();
    let cap = stored.len() as u64 - 1;
    assert_eq!(
        read_file("library.ketabi", &stored, &Limits::at_most(cap)),
        Err(StoreError::TooLarge)
    );
    assert_eq!(
        read_file("library.ketabi", b"not gzip at all", &Limits::at_most(3)),
        Err(StoreError::TooLarge)
    );
}

#[test]
fn read_rejects_what_is_not_gzip() {
    assert_eq!(
        read_file("library.ketabi", b"{\"plain\": true}", &Limits::unlimited()),
        Err(StoreError::CorruptData)
    );
    assert_eq!(read_file("library.ketabi", &[], &Limits::unlimited()), Err(StoreError::CorruptData));
}

#[test]
fn read_rejects_a_truncated_stream() {
    let stored = sync(&library(), "library.ketabi").unwrap();
    let cut = &stored[..stored.len() / 2];
    assert_eq!(read_file("library.ketabi", cut, &Limits::unlimited()), Err(StoreError::CorruptData));
}

#[test]
fn read_rejects_what_is_not_json() {
    let stored = sync_text("{ not json", "library.ketabi").unwrap();
    assert_eq!(
        read_file("library.ketabi", &stored, &Limits::unlimited()),
        Err(StoreError::MalformedContent)
    );
    assert_eq!(
        read_text("library.ketabi", &stored, &Limits::unlimited()),
        Ok("{ not json".to_string())
    );
}

#[test]
fn number_that_its_text_does_not_bring_back() {
    let value = Value::Number(Number::from_f64(f64::from_bits(0xbc69cf4276846d19)).unwrap());
    let text = serde_json::to_string(&value).unwrap();
    assert_eq!(text, "-1.1193133179981887e-17");
    let parsed: Value = serde_json::from_str(&text).unwrap();
    let stored = sync(&value, "n.ketabi").unwrap();
    let read = read_file("n.ketabi", &stored, &Limits::unlimited()).unwrap();
    assert_eq!(read, parsed);
    assert_eq!(read_text("n.ketabi", &stored, &Limits::unlimited()), Ok(text));
}
