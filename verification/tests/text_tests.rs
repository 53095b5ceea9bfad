use apkdl::text::{
    after_last_char, chars_of, contains_str, decimal_of, join_words, parse_usize,
    replace_char_with, string_from, trim_chars, trim_end_matching, upper_ascii,
};

fn c(x: &str) -> Vec<char> {
    x.chars().collect()
}

#[test]
fn trimming_follows_unicode_white_space() {
    assert_eq!(trim_chars(&c("\u{a0} a b \u{2003}\n")), c("a b"));
    assert_eq!(trim_chars(&c("   ")), c(""));
    assert_eq!(trim_end_matching(&c("a/b//"), '/'), c("a/b"));
}

#[test]
fn words_and_pieces() {
    assert_eq!(join_words(&c(" a  b\tc "), "+"), c("a+b+c"));
    assert_eq!(join_words(&c(""), "+"), c(""));
    assert_eq!(after_last_char(&c("a.b.c"), '.'), c("c"));
    assert_eq!(after_last_char(&c("abc"), '.'), c("abc"));
    assert_eq!(after_last_char(&c("abc."), '.'), c(""));
    assert_eq!(replace_char_with(&c("a.b"), '.', "--"), c("a--b"));
    assert!(contains_str(&c("hello"), "ll"));
    assert!(contains_str(&c("hello"), ""));
    assert!(!contains_str(&c("he"), "hello"));
    assert_eq!(chars_of("żółw"), c("żółw"));
    assert_eq!(string_from("żółw"), "żółw");
    assert_eq!(upper_ascii('a'), 'A');
    assert_eq!(upper_ascii('Z'), 'Z');
    assert_eq!(upper_ascii('1'), '1');
}

#[test]
fn numbers_read_back() {
    for n in [0u64, 9, 10, 4096, u32::MAX as u64] {
        let d = decimal_of(n);
        assert_eq!(d, c(&n.to_string()));
        assert_eq!(parse_usize(&d), Some(n as usize));
    }
    assert_eq!(parse_usize(&c("+12")), Some(12));
    assert_eq!(parse_usize(&c("+")), None);
    assert_eq!(parse_usize(&c("-1")), None);
    assert_eq!(parse_usize(&c("1 2")), None);
    assert_eq!(parse_usize(&c(&usize::MAX.to_string())), Some(usize::MAX));
    assert_eq!(parse_usize(&c("18446744073709551616")), None);
}
