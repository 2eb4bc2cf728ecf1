use clara::text::{
    byte_length, chars_of, contains_char, contains_text, decimal, has_prefix, hashed_key, join, lower_hex,
    matches_at, same_text, string_of, trim,
};

fn chars(text: &str) -> Vec<char> {
    text.chars().collect()
}

#[test]
fn characters_and_back() {
    assert_eq!(chars_of("héllo"), vec!['h', 'é', 'l', 'l', 'o']);
    assert_eq!(chars_of(""), Vec::<char>::new());
    assert_eq!(string_of(&['h', 'é', 'y']), "héy");
    assert_eq!(string_of(&[]), "");
    assert_eq!(byte_length("héllo"), 6);
    assert!(same_text("a", "a"));
    assert!(!same_text("a", "A"));
}

#[test]
fn searching() {
    assert!(contains_text(&chars("hello world"), &chars("lo w")));
    assert!(contains_text(&chars("hello"), &chars("")));
    assert!(contains_text(&chars(""), &chars("")));
    assert!(contains_text(&chars("hello"), &chars("hello")));
    assert!(contains_text(&chars("hello"), &chars("llo")));
    assert!(!contains_text(&chars("hello"), &chars("hello!")));
    assert!(!contains_text(&chars("hello"), &chars("lol")));
    assert!(matches_at(&chars("hello"), &chars("say hello"), 4));
    assert!(!matches_at(&chars("hello"), &chars("say hello"), 5));
    assert!(!matches_at(&chars("hello"), &chars("say hello"), 40));
    assert!(has_prefix(&chars("https://x"), &chars("http")));
    assert!(!has_prefix(&chars("htt"), &chars("http")));
    assert!(has_prefix(&chars(""), &chars("")));
    assert!(contains_char(&chars("a.b"), '.'));
    assert!(!contains_char(&chars("ab"), '.'));
}

#[test]
fn joining() {
    let parts = vec!["a".to_string(), "".to_string(), "c".to_string()];
    assert_eq!(join(&parts, ", "), "a, , c");
    assert_eq!(join(&parts[..1], ", "), "a");
    assert_eq!(join(&[], ", "), "");
    assert_eq!(join(&parts, ""), "ac");
}

#[test]
fn numbers() {
    assert_eq!(decimal(0), "0");
    assert_eq!(decimal(280), "280");
    assert_eq!(decimal(u64::MAX), "18446744073709551615");
    assert_eq!(lower_hex(0), "0");
    assert_eq!(lower_hex(255), "ff");
    assert_eq!(lower_hex(0xdead_beef), "deadbeef");
    assert_eq!(lower_hex(u64::MAX), "ffffffffffffffff");
    for n in [1u64, 9, 10, 15, 16, 17, 4095, 4096, 1 << 40] {
        assert_eq!(lower_hex(n), format!("{:x}", n));
        assert_eq!(decimal(n), format!("{}", n));
    }
}

#[test]
fn trimming() {
    assert_eq!(trim(&chars("  a b \t\n")), chars("a b"));
    assert_eq!(trim(&chars("   ")), chars(""));
    assert_eq!(trim(&chars("")), chars(""));
    assert_eq!(trim(&chars("x")), chars("x"));
    assert_eq!(trim(&chars("\u{3000}x\u{a0}")), chars("x"));
    for text in ["", " ", " a", "a ", " a  b ", "\r\n a\u{2003}"] {
        assert_eq!(string_of(&trim(&chars(text))), text.trim());
    }
}

#[test]
fn hashed_keys_differ_by_prefix_and_keywords() {
    let one = vec!["a".to_string()];
    let two = vec!["a".to_string(), "b".to_string()];
    assert!(hashed_key("img_", &one).starts_with("img_"));
    assert_ne!(hashed_key("img_", &one), hashed_key("img_", &two));
    assert_eq!(&hashed_key("img_", &one)[4..], &hashed_key("story_", &one)[6..]);
    assert_eq!(hashed_key("img_", &one), hashed_key("img_", &one));
}
