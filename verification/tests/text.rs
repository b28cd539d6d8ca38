use git_opendal::text::{
    chars_of, clean_chars, lines_chars, parse_u32_chars, split_once_chars, strip_prefix_chars,
    string_of, trim, words_chars,
};

fn cs(s: &str) -> Vec<char> {
    s.chars().collect()
}

fn texts(v: Vec<Vec<char>>) -> Vec<String> {
    v.iter().map(|w| w.iter().collect()).collect()
}

#[test]
fn trimming() {
    assert_eq!(trim(" \t a b \n"), "a b");
    assert_eq!(trim("\u{3000}x\u{a0}"), "x");
    assert_eq!(trim("   "), "");
    assert_eq!(string_of(&clean_chars(&cs(" /a/b/ "))), "a/b");
    assert_eq!(string_of(&clean_chars(&cs("/ a /"))), " a ");
    assert_eq!(chars_of("héllo"), cs("héllo"));
}

#[test]
fn splitting() {
    let (a, b) = split_once_chars(&cs("s3/bucket/path"), '/').unwrap();
    assert_eq!(string_of(&a), "s3");
    assert_eq!(string_of(&b), "bucket/path");
    assert!(split_once_chars(&cs("s3"), '/').is_none());
    assert_eq!(string_of(&strip_prefix_chars(&cs("opendal://x"), &cs("opendal://")).unwrap()), "x");
    assert!(strip_prefix_chars(&cs("opendal:/x"), &cs("opendal://")).is_none());
}

#[test]
fn words_and_lines() {
    assert_eq!(texts(words_chars(&cs("  a  bb\tc\n"))), vec!["a", "bb", "c"]);
    assert!(words_chars(&cs(" \n ")).is_empty());
    assert_eq!(texts(lines_chars(&cs("a\r\nb\n\nc\r"))), vec!["a", "b", "", "c\r"]);
    assert_eq!(texts(lines_chars(&cs("a\n"))), vec!["a"]);
    assert!(lines_chars(&cs("")).is_empty());
}

#[test]
fn numbers() {
    assert_eq!(parse_u32_chars(&cs("42")), Some(42));
    assert_eq!(parse_u32_chars(&cs("+7")), Some(7));
    assert_eq!(parse_u32_chars(&cs("4294967295")), Some(u32::MAX));
    assert_eq!(parse_u32_chars(&cs("4294967296")), None);
    assert_eq!(parse_u32_chars(&cs("+")), None);
    assert_eq!(parse_u32_chars(&cs("")), None);
    assert_eq!(parse_u32_chars(&cs("-1")), None);
    assert_eq!(parse_u32_chars(&cs("1x")), None);
    assert_eq!(parse_u32_chars(&cs("007")), Some(7));
    for s in ["0", "12", "+3", "99999", "4294967295", "x", "", "5000000000"] {
        assert_eq!(parse_u32_chars(&cs(s)), s.parse::<u32>().ok());
    }
}
