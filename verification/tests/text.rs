use fedora_gpu_manager::text::{
    contains_str, decimal_string, lines_of, remove_char, signed_decimal_string, split_char,
    split_once_char, starts_with, str_eq, str_less_exec, trim_str,
};

#[test]
fn lines_like_str_lines() {
    for s in ["", "\n", "a", "a\n", "a\n\nb", "a\r\nb\r\n", "a\rb\r", "\r\n", "x\n\r\ny"] {
        let expected: Vec<String> = s.lines().map(|l| l.to_string()).collect();
        assert_eq!(lines_of(s), expected, "lines of {:?}", s);
    }
}

#[test]
fn trim_like_str_trim() {
    for s in ["", "  ", " a b ", "\t\u{3000}x\u{a0}\n", "\u{200b}x", "x\u{85}"] {
        assert_eq!(trim_str(s), s.trim(), "trim of {:?}", s);
    }
}

#[test]
fn split_like_str_split() {
    for s in ["", ",", "a,b", "a,,b,", "abc"] {
        let expected: Vec<String> = s.split(',').map(|p| p.to_string()).collect();
        assert_eq!(split_char(s, ','), expected, "split of {:?}", s);
    }
    assert_eq!(split_once_char("k = v = w", '='), Some(("k ".to_string(), " v = w".to_string())));
    assert_eq!(split_once_char("kv", '='), None);
}

#[test]
fn searching_and_comparing() {
    assert!(contains_str("xorg-x11-drv-nvidia", "nvidia"));
    assert!(contains_str("abc", ""));
    assert!(!contains_str("ab", "abc"));
    assert!(starts_with("0x0FC0", "0x"));
    assert!(!starts_with("0", "0x"));
    assert!(str_eq("abc", "abc"));
    assert!(!str_eq("abc", "abd"));
    assert_eq!(remove_char("xorg-*-nvidia*", '*'), "xorg--nvidia");
    assert!(str_less_exec("akmod", "akmod-nvidia"));
    assert!(str_less_exec("B", "a"));
    assert!(!str_less_exec("b", "a"));
    assert!(!str_less_exec("a", "a"));
}

#[test]
fn decimal_notation() {
    assert_eq!(decimal_string(0), "0");
    assert_eq!(decimal_string(1234567890), "1234567890");
    assert_eq!(decimal_string(u64::MAX), u64::MAX.to_string());
    assert_eq!(signed_decimal_string(-1), "-1");
    assert_eq!(signed_decimal_string(i32::MIN), i32::MIN.to_string());
    assert_eq!(signed_decimal_string(127), "127");
}
