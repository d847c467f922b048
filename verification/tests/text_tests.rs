use openconsole::text::{
    chars_of, decimal_string, find_in, insert_sorted_unique, join_strings, parse_u64, split_lines, split_on_char,
    split_words, str_lt, string_of, trim_chars,
};

fn text(v: &[char]) -> String {
    v.iter().collect()
}

#[test]
fn numbers() {
    assert_eq!(decimal_string(0), "0");
    assert_eq!(decimal_string(1234567890), "1234567890");
    assert_eq!(parse_u64("42"), Some(42));
    assert_eq!(parse_u64("+7"), Some(7));
    assert_eq!(parse_u64("-7"), None);
    assert_eq!(parse_u64("+"), None);
    assert_eq!(parse_u64("1 2"), None);
}

#[test]
fn splitting() {
    let lines: Vec<String> = split_lines(&chars_of("a\r\nb\n\nc")).iter().map(|l| text(l)).collect();
    assert_eq!(lines, vec!["a", "b", "", "c"]);
    assert!(split_lines(&chars_of("")).is_empty());
    let words: Vec<String> = split_words(&chars_of("  x \t yz ")).iter().map(|w| text(w)).collect();
    assert_eq!(words, vec!["x", "yz"]);
    let parts: Vec<String> = split_on_char(&chars_of("a,,b"), ',').iter().map(|p| text(p)).collect();
    assert_eq!(parts, vec!["a", "", "b"]);
    assert_eq!(text(&trim_chars(&chars_of(" \u{a0}x y\n"))), "x y");
}

#[test]
fn comparing_and_joining() {
    assert!(str_lt("abc", "abd"));
    assert!(str_lt("ab", "abc"));
    assert!(!str_lt("b", "abc"));
    assert_eq!(find_in(&chars_of("hello"), &chars_of("ll")), Some(2));
    assert_eq!(find_in(&chars_of("hello"), &chars_of("z")), None);
    let mut v = vec!["b".to_string()];
    insert_sorted_unique(&mut v, "a".to_string());
    insert_sorted_unique(&mut v, "c".to_string());
    insert_sorted_unique(&mut v, "b".to_string());
    assert_eq!(v, vec!["a", "b", "c"]);
    assert_eq!(join_strings(&v, ", "), "a, b, c");
    assert_eq!(string_of(&['o', 'k']), "ok");
}
