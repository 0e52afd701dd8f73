use lexisoup::panlex::word_key;
use lexisoup::text::{decimal, split_once, str_eq};
use lexisoup::utils::truncate;

#[test]
fn short_texts_are_not_truncated() {
    assert_eq!(truncate(""), "");
    assert_eq!(truncate("hello"), "hello");
    let exactly = "a".repeat(512);
    assert_eq!(truncate(&exactly), exactly);
}

#[test]
fn long_ascii_text_keeps_512_bytes() {
    let long = "a".repeat(600);
    assert_eq!(truncate(&long), format!("{}… (600 bytes)", "a".repeat(512)));
}

#[test]
fn truncation_respects_character_boundaries() {
    // 511 ASCII bytes then a 2-byte character: it would end at byte 513.
    let s = format!("{}é{}", "a".repeat(511), "b".repeat(10));
    assert_eq!(s.len(), 523);
    assert_eq!(truncate(&s), format!("{}… (523 bytes)", "a".repeat(511)));
    // 510 ASCII bytes then a 2-byte character: it ends exactly at byte 512.
    let s = format!("{}é{}", "a".repeat(510), "b".repeat(10));
    assert_eq!(truncate(&s), format!("{}é… (522 bytes)", "a".repeat(510)));
    let emoji = "😀".repeat(200);
    assert_eq!(truncate(&emoji), format!("{}… (800 bytes)", "😀".repeat(128)));
}

#[test]
fn decimal_rendering() {
    assert_eq!(decimal(0), "0");
    assert_eq!(decimal(7), "7");
    assert_eq!(decimal(10), "10");
    assert_eq!(decimal(1234567890), "1234567890");
    assert_eq!(decimal(usize::MAX), usize::MAX.to_string());
}

#[test]
fn trimming_and_splitting() {
    let key = word_key("\u{3000} x y \n", "deu");
    assert_eq!((key.uid.as_str(), key.text.as_str()), ("deu-000", "x y"));
    assert_eq!(word_key("\u{200B}x", "eng").text, "\u{200B}x");
    assert_eq!(split_once("a|b|c", '|'), Some(("a".to_string(), "b|c".to_string())));
    assert_eq!(split_once("abc", '|'), None);
    assert_eq!(split_once("|", '|'), Some((String::new(), String::new())));
    assert!(str_eq("Straße", "Straße"));
    assert!(!str_eq("Strasse", "Straße"));
}
