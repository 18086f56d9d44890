use dtv::decimal::{decimal_text, parse_port};
use dtv::text::{
    begins, chars_of, find_char, find_text, has, head_line, rfind_char, same_ignoring_case,
    split_lines, string_of, trim, upper_text, white_space, word,
};

fn text_of(s: &[char]) -> String {
    string_of(s)
}

#[test]
fn white_space_is_that_of_unicode() {
    let mut code: u32 = 0;
    while code <= 0x10ffff {
        if let Some(c) = char::from_u32(code) {
            assert_eq!(white_space(c), c.is_whitespace(), "{:x}", code);
        }
        code += 1;
    }
}

#[test]
fn trimming_agrees_with_std() {
    for s in ["", " ", "a", " a b\t", "\u{3000}x\u{a0}", "\r\n a \n", "\u{200b}z\u{200b}"] {
        let c = chars_of(s);
        assert_eq!(text_of(trim(&c)), s.trim());
    }
}

#[test]
fn lines_agree_with_std() {
    for s in [
        "", "a", "a\n", "a\nb", "a\r\nb\r\n", "\n\n", "a\r", "a\r\r\n", "\r\n", "x\n\ny\r\nz\r",
    ] {
        let c = chars_of(s);
        let got: Vec<String> = split_lines(&c).iter().map(|l| text_of(l)).collect();
        let want: Vec<String> = s.lines().map(|l| l.to_string()).collect();
        assert_eq!(got, want, "{:?}", s);
        assert_eq!(text_of(head_line(&c)), s.lines().next().unwrap_or(""));
    }
}

#[test]
fn words_agree_with_std() {
    for s in ["", "  ", "a", " a b", "HTTP/1.1 200 OK", "x\u{2003}y  z\t", "\n1\r\n2"] {
        let c = chars_of(s);
        let mut n: usize = 0;
        while n < 5 {
            let got = word(&c, n).map(|w| text_of(w));
            let want = s.split_whitespace().nth(n).map(|w| w.to_string());
            assert_eq!(got, want, "{:?} {}", s, n);
            n += 1;
        }
    }
}

#[test]
fn searching_finds_first_and_last() {
    let s = chars_of("abcabc");
    let p = chars_of("bc");
    assert_eq!(find_text(&s, &p), Some(1));
    assert_eq!(find_text(&s, &chars_of("")), Some(0));
    assert_eq!(find_text(&s, &chars_of("cab")), Some(2));
    assert_eq!(find_text(&s, &chars_of("x")), None);
    assert_eq!(find_text(&s, &chars_of("abcabcd")), None);
    assert_eq!(find_char(&s, 'c'), Some(2));
    assert_eq!(rfind_char(&s, 'c'), Some(5));
    assert_eq!(rfind_char(&s, 'x'), None);
    assert!(has(&s, "ca"));
    assert!(!has(&s, "cb"));
    assert!(begins(&s, "abca"));
    assert!(!begins(&s, "bc"));
}

#[test]
fn case_is_that_of_ascii() {
    let c = chars_of("Connect \u{e4}");
    assert_eq!(text_of(&upper_text(&c)), "CONNECT \u{e4}");
    assert!(same_ignoring_case(&chars_of("hOsT"), "host"));
    assert!(!same_ignoring_case(&chars_of("hosts"), "host"));
    assert!(!same_ignoring_case(&chars_of("\u{c4}"), "\u{e4}"));
}

#[test]
fn ports_are_read_like_std() {
    for s in [
        "", "+", "-", "0", "443", "+443", "++1", "-1", "65535", "65536", "00080", "4 43", "99999999999",
        "\u{0661}", "1a",
    ] {
        let c = chars_of(s);
        assert_eq!(parse_port(&c), s.parse::<u16>().ok(), "{:?}", s);
    }
}

#[test]
fn numbers_are_written_like_std() {
    for n in [0u64, 7, 10, 99, 100, 34719, 65535, 18446744073709551615] {
        assert_eq!(decimal_text(n), n.to_string());
    }
}
