use collector::text::{
    append_decimal, char_is_whitespace, chars_end_with, chars_le_exec, chars_start_with,
    chars_to_string, parse_u32, split_lines, split_on_char, split_whitespace, str_chars,
    str_ends_with, str_eq, str_split_once, str_starts_with, str_strip_prefix, str_strip_suffix,
    trim_chars, trim_str, u32_to_decimal, u64_to_decimal,
};

#[test]
fn whitespace_chars() {
    assert!(char_is_whitespace(' '));
    assert!(char_is_whitespace('\t'));
    assert!(char_is_whitespace('\n'));
    assert!(char_is_whitespace('\u{3000}'));
    assert!(!char_is_whitespace('a'));
    assert!(!char_is_whitespace('-'));
}

#[test]
fn chars_round_trip() {
    let v = str_chars("héllo");
    assert_eq!(v, vec!['h', 'é', 'l', 'l', 'o']);
    assert_eq!(chars_to_string(&v), "héllo");
    assert_eq!(chars_to_string(&[]), "");
}

#[test]
fn trims_both_ends() {
    assert_eq!(trim_str("  0-7\n"), "0-7");
    assert_eq!(trim_str("\t\t"), "");
    assert_eq!(trim_str("a b"), "a b");
    assert_eq!(trim_chars(&[' ', 'x', ' ']), vec!['x']);
}

#[test]
fn trim_is_idempotent_on_example() {
    let once = trim_str(" \t crate  \n");
    assert_eq!(trim_str(&once), once);
}

#[test]
fn splits_at_white_space() {
    assert_eq!(split_whitespace("  --features  foo\tbar "), vec!["--features", "foo", "bar"]);
    assert!(split_whitespace("   ").is_empty());
    assert!(split_whitespace("").is_empty());
    assert_eq!(split_whitespace("one"), vec!["one"]);
}

#[test]
fn splits_on_a_char() {
    assert_eq!(split_on_char("1;u;instr;;100.00", ';'), vec!["1", "u", "instr", "", "100.00"]);
    assert_eq!(split_on_char("", ';'), vec![""]);
    assert_eq!(split_on_char(";", ';'), vec!["", ""]);
}

#[test]
fn splits_lines_like_std() {
    assert_eq!(split_lines("a\r\nb\n\nc"), vec!["a", "b", "", "c"]);
    assert_eq!(split_lines("a\n"), vec!["a"]);
    assert!(split_lines("").is_empty());
    assert_eq!(split_lines("x\r"), vec!["x\r"]);
    let text = "one\ntwo\r\n";
    let expected: Vec<String> = text.lines().map(String::from).collect();
    assert_eq!(split_lines(text), expected);
}

#[test]
fn prefixes_and_suffixes() {
    assert!(str_starts_with("regex-1.5", "regex"));
    assert!(!str_starts_with("re", "regex"));
    assert!(str_ends_with("syn-tiny", "-tiny"));
    assert!(!str_ends_with("syn", "-tiny"));
    assert!(chars_start_with(&['a', 'b'], &['a']));
    assert!(chars_end_with(&['a', 'b'], &['b']));
    assert!(chars_start_with(&['a'], &[]));
    assert_eq!(str_strip_prefix("!wall-time:1.5", "!wall-time:"), Some("1.5".to_string()));
    assert_eq!(str_strip_prefix("wall", "!wall-time:"), None);
}

#[test]
fn parses_u32_like_std() {
    assert_eq!(parse_u32("42"), Some(42));
    assert_eq!(parse_u32("+7"), Some(7));
    assert_eq!(parse_u32("4294967295"), Some(u32::MAX));
    assert_eq!(parse_u32("4294967296"), None);
    assert_eq!(parse_u32(""), None);
    assert_eq!(parse_u32("+"), None);
    assert_eq!(parse_u32("-1"), None);
    assert_eq!(parse_u32(" 1"), None);
    assert_eq!(parse_u32("12a"), None);
    for s in ["0", "007", "+12", "99999", "x", ""] {
        assert_eq!(parse_u32(s), s.parse::<u32>().ok());
    }
}

#[test]
fn writes_decimals() {
    assert_eq!(u32_to_decimal(0), "0");
    assert_eq!(u32_to_decimal(1234), "1234");
    assert_eq!(u32_to_decimal(u32::MAX), "4294967295");
    assert_eq!(append_decimal("IncrPatched", 0), "IncrPatched0");
    assert_eq!(append_decimal("-j", 16), "-j16");
}

#[test]
fn parse_undoes_format_on_examples() {
    for n in [0u32, 9, 10, 65535, u32::MAX] {
        assert_eq!(parse_u32(&u32_to_decimal(n)), Some(n));
    }
}

#[test]
fn splits_once() {
    assert_eq!(str_split_once("0-7", '-'), Some(("0".to_string(), "7".to_string())));
    assert_eq!(str_split_once("a-b-c", '-'), Some(("a".to_string(), "b-c".to_string())));
    assert_eq!(str_split_once("abc", '-'), None);
}

#[test]
fn compares_strings() {
    assert!(str_eq("abc", "abc"));
    assert!(!str_eq("abc", "abd"));
    assert!(chars_le_exec(&['a'], &['a', 'b']));
    assert!(chars_le_exec(&['a', 'b'], &['a', 'b']));
    assert!(!chars_le_exec(&['b'], &['a', 'z']));
    assert!(chars_le_exec(&[], &[]));
}

#[test]
fn strips_suffixes_and_writes_u64() {
    assert_eq!(str_strip_suffix("0-a.patch", ".patch"), Some("0-a".to_string()));
    assert_eq!(str_strip_suffix("a.diff", ".patch"), None);
    assert_eq!(u64_to_decimal(4294967296), "4294967296");
    assert_eq!(u64_to_decimal(u64::MAX), u64::MAX.to_string());
}
