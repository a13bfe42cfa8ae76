use compitutto::text::{
    chars_le, chars_of, has_prefix, has_substring, matches_at, same_text,
};

fn c(s: &str) -> Vec<char> {
    s.chars().collect()
}

#[test]
fn chars_are_scalar_values() {
    assert_eq!(chars_of(""), Vec::<char>::new());
    assert_eq!(chars_of("abc"), vec!['a', 'b', 'c']);
    assert_eq!(chars_of("àè€"), vec!['à', 'è', '€']);
    assert_eq!(chars_of("a\u{1F600}b").len(), 3);
}

#[test]
fn match_at_a_position() {
    assert!(matches_at(&c("export_a.xls"), &c("export_"), 0));
    assert!(!matches_at(&c("export_a.xls"), &c("export_"), 1));
    assert!(matches_at(&c("export_a.xls"), &c(".xls"), 8));
    assert!(!matches_at(&c("export_a.xls"), &c(".xls"), 9));
    assert!(!matches_at(&c("export_a.xls"), &c(".xls"), 100));
    assert!(!matches_at(&c("ab"), &c("abc"), 0));
    assert!(matches_at(&c("ab"), &c(""), 2));
    assert!(!matches_at(&c("ab"), &c(""), 3));
    assert!(!matches_at(&c("ab"), &c("b"), usize::MAX));
}

#[test]
fn prefixes() {
    assert!(has_prefix(&c("export_"), &c("export_")));
    assert!(has_prefix(&c("export_x"), &c("")));
    assert!(has_prefix(&c(""), &c("")));
    assert!(!has_prefix(&c("export"), &c("export_")));
    assert!(!has_prefix(&c("xexport_"), &c("export_")));
}

#[test]
fn substrings() {
    assert!(has_substring(&c("una verifica"), &c("verifica")));
    assert!(has_substring(&c("verifica"), &c("verifica")));
    assert!(has_substring(&c("aab"), &c("ab")));
    assert!(has_substring(&c("abc"), &c("")));
    assert!(has_substring(&c(""), &c("")));
    assert!(!has_substring(&c(""), &c("a")));
    assert!(!has_substring(&c("verific"), &c("verifica")));
    assert!(!has_substring(&c("ver ifica"), &c("verifica")));
    assert!(has_substring(&c("xxàèyy"), &c("àè")));
}

#[test]
fn order_is_lexicographic() {
    let words = ["", "a", "a", "aa", "ab", "b", "B", "2025-01-15", "2025-01-16", "é", "z", "\u{1F600}"];
    for x in words {
        for y in words {
            assert_eq!(chars_le(&c(x), &c(y)), x <= y, "{:?} and {:?}", x, y);
        }
    }
}

#[test]
fn texts_are_the_same_or_not() {
    assert!(same_text("", ""));
    assert!(same_text("studio", "studio"));
    assert!(!same_text("studio", "studi"));
    assert!(!same_text("studio", "studIo"));
    assert!(!same_text("", "a"));
    assert!(same_text("àè", "àè"));
}
