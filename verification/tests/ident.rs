use compitutto::entry::HomeworkEntry;
use compitutto::ident::{compute_study_session_id, generate_source_id};
use compitutto::numerals::{push_decimal, push_hex16};
use std::collections::hash_map::DefaultHasher;
use std::hash::{Hash, Hasher};

fn hex(n: u64) -> String {
    let mut out = String::new();
    push_hex16(&mut out, n);
    out
}

fn dec(n: u64) -> String {
    let mut out = String::new();
    push_decimal(&mut out, n);
    out
}

#[test]
fn hex_is_sixteen_padded_lower_case_digits() {
    assert_eq!(hex(0), "0000000000000000");
    assert_eq!(hex(1), "0000000000000001");
    assert_eq!(hex(0xabc), "0000000000000abc");
    assert_eq!(hex(0x0123_4567_89ab_cdef), "0123456789abcdef");
    assert_eq!(hex(u64::MAX), "ffffffffffffffff");
    assert_eq!(hex(0xdead_beef_0000_0000), format!("{:016x}", 0xdead_beef_0000_0000u64));
}

#[test]
fn hex_is_appended() {
    let mut out = "id_".to_string();
    push_hex16(&mut out, 255);
    assert_eq!(out, "id_00000000000000ff");
}

#[test]
fn decimal_has_no_leading_zeros() {
    assert_eq!(dec(0), "0");
    assert_eq!(dec(7), "7");
    assert_eq!(dec(10), "10");
    assert_eq!(dec(1_000_000), "1000000");
    assert_eq!(dec(9_876_543_210), "9876543210");
    assert_eq!(dec(u64::MAX), "18446744073709551615");
}

#[test]
fn source_id_is_the_std_hash_of_the_three_texts() {
    let mut hasher = DefaultHasher::new();
    "2025-01-15".hash(&mut hasher);
    "Matematica".hash(&mut hasher);
    "Esercizi pag. 50".hash(&mut hasher);
    let expected = format!("{:016x}", hasher.finish());
    assert_eq!(generate_source_id("2025-01-15", "Matematica", "Esercizi pag. 50"), expected);
    assert_eq!(
        HomeworkEntry::generate_source_id("2025-01-15", "Matematica", "Esercizi pag. 50"),
        expected
    );
}

#[test]
fn study_session_id_is_the_std_hash_of_parent_offset_and_word() {
    let mut hasher = DefaultHasher::new();
    "0123456789abcdef".hash(&mut hasher);
    3usize.hash(&mut hasher);
    "study".hash(&mut hasher);
    let expected = format!("study_{:016x}", hasher.finish());
    assert_eq!(compute_study_session_id("0123456789abcdef", 3), expected);
}

#[test]
fn source_id_keeps_the_texts_apart() {
    assert_ne!(generate_source_id("ab", "c", "d"), generate_source_id("a", "bc", "d"));
    assert_ne!(generate_source_id("a", "b", "cd"), generate_source_id("a", "bc", "d"));
    assert_ne!(generate_source_id("", "", "x"), generate_source_id("x", "", ""));
}

#[test]
fn source_id_is_stable() {
    let first = generate_source_id("2025-01-15", "Matematica", "àèìòù");
    let second = generate_source_id("2025-01-15", "Matematica", "àèìòù");
    assert_eq!(first, second);
    assert_eq!(first.len(), 16);
    assert!(first.chars().all(|c| c.is_ascii_hexdigit() && !c.is_ascii_uppercase()));
}

#[test]
fn study_session_id_depends_on_parent_and_offset() {
    let a = compute_study_session_id("parent", 1);
    assert_eq!(a, compute_study_session_id("parent", 1));
    assert_ne!(a, compute_study_session_id("parent", 2));
    assert_ne!(a, compute_study_session_id("other", 1));
    assert!(a.starts_with("study_"));
    assert_eq!(a.len(), 22);
}
