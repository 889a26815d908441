use centerpiece::text::{
    chars_of, i64_to_decimal, lines_of, lt_chars, parse_u64, replace_all_char, replace_every, replacen_first,
    split_ascii_words, split_on_char, split_once_chars, str_eq, string_of, strings_contain, strip_suffix_of,
    to_ascii_lowercase, trim_chars, u64_to_decimal,
};

#[test]
fn decimal_forms() {
    assert_eq!(u64_to_decimal(0), "0");
    assert_eq!(u64_to_decimal(1234567), "1234567");
    assert_eq!(u64_to_decimal(u64::MAX), u64::MAX.to_string());
    assert_eq!(i64_to_decimal(-42), "-42");
    assert_eq!(i64_to_decimal(i64::MIN), i64::MIN.to_string());
}

#[test]
fn parse_reads_back_what_decimal_writes() {
    for n in [0u64, 7, 10, 99, 123456789, u64::MAX] {
        assert_eq!(parse_u64(&u64_to_decimal(n)), Some(n));
    }
}

#[test]
fn parse_like_std() {
    assert_eq!(parse_u64("+17"), Some(17));
    assert_eq!(parse_u64(""), None);
    assert_eq!(parse_u64("+"), None);
    assert_eq!(parse_u64("-1"), None);
    assert_eq!(parse_u64("12a"), None);
    assert_eq!(parse_u64("18446744073709551616"), None);
}

#[test]
fn string_order_is_lexicographic() {
    let a = chars_of("apple");
    let b = chars_of("apricot");
    let c = chars_of("app");
    assert!(lt_chars(&a, &b));
    assert!(!lt_chars(&b, &a));
    assert!(lt_chars(&c, &a));
    assert!(!lt_chars(&a, &a));
    assert_eq!(string_of(&a), "apple");
}

#[test]
fn replacing() {
    assert_eq!(replacen_first("/home/u/x/home/u", "/home/u", "~"), "~/x/home/u");
    assert_eq!(replacen_first("abc", "zz", "~"), "abc");
    assert_eq!(replace_every("/a/.git/b/.git", "/.git", ""), "/a/b");
    assert_eq!(replace_every("aaa", "aa", "b"), "ba");
    assert_eq!(replace_every("abc", "x", "y"), "abc");
    assert_eq!(replace_all_char("a-b-c", '-', '+'), "a+b+c");
}

#[test]
fn splitting() {
    assert_eq!(split_on_char("a;b;;c", ';'), vec!["a", "b", "", "c"]);
    assert_eq!(split_on_char("", ';'), vec![""]);
    assert_eq!(split_ascii_words("  ls   -la\t/tmp "), vec!["ls", "-la", "/tmp"]);
    assert_eq!(lines_of("a\r\nb\n\nc\n"), vec!["a", "b", "", "c"]);
    assert!(lines_of("").is_empty());
    assert_eq!(lines_of("\n"), vec![""]);
}

#[test]
fn trimming_and_split_once() {
    let t = trim_chars(&chars_of("\t  hello world \n"));
    assert_eq!(string_of(&t), "hello world");
    assert!(trim_chars(&chars_of(" \u{3000} ")).is_empty());
    assert_eq!(
        split_once_chars(&chars_of("1.5 /home/u/p q"), ' '),
        Some((String::from("1.5"), String::from("/home/u/p q")))
    );
    assert_eq!(split_once_chars(&chars_of("nospace"), ' '), None);
}

#[test]
fn suffixes_and_lookups() {
    assert_eq!(strip_suffix_of("/home/u/p/.git", "/.git"), Some(String::from("/home/u/p")));
    assert_eq!(strip_suffix_of("/home/u/p", "/.git"), None);
    assert!(str_eq("x", "x"));
    assert!(!str_eq("x", "y"));
    let items = vec![String::from("GNOME"), String::from("KDE")];
    assert!(strings_contain(&items, "KDE"));
    assert!(!strings_contain(&items, "kde"));
    assert_eq!(to_ascii_lowercase("HeLLo Ä"), "hello Ä");
}
