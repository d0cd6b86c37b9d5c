use ip_manager::text::{
    chars_of, contains, is_space_char, parse_numbers, parse_u32, push_decimal, same_chars,
    same_text, split_chars, split_words, string_of, trim, trim_all,
};

fn cv(s: &str) -> Vec<char> {
    s.chars().collect()
}

fn sv(v: &Vec<Vec<char>>) -> Vec<String> {
    v.iter().map(|p| p.iter().collect()).collect()
}

#[test]
fn chars_and_strings_convert_both_ways() {
    assert_eq!(chars_of("a1 도"), vec!['a', '1', ' ', '도']);
    assert_eq!(string_of(&vec!['2', '2', ',', ' ', '8']), "22, 8");
    assert_eq!(string_of(&Vec::new()), "");
    assert_eq!(string_of(&chars_of("svc.example")), "svc.example");
}

#[test]
fn same_text_compares_characters() {
    assert!(same_text("true", "true"));
    assert!(!same_text("true", "True"));
    assert!(!same_text("true", "tru"));
    assert!(same_chars(&cv(""), &cv("")));
    assert!(!same_chars(&cv("ab"), &cv("ba")));
}

#[test]
fn blank_space_is_unicode_white_space() {
    let mut n: u32 = 0;
    while n <= 0x10ffff {
        if let Some(c) = char::from_u32(n) {
            assert_eq!(is_space_char(c), c.is_whitespace(), "U+{:04X}", n);
        }
        n += 1;
    }
}

#[test]
fn trim_agrees_with_the_standard_library() {
    for s in ["", " ", "  a  ", "a", "\t22\n", " 8 0 ", "\u{3000}x\u{a0}", "x y", "   "] {
        assert_eq!(string_of(&trim(&cv(s))), s.trim(), "{:?}", s);
    }
    assert_eq!(sv(&trim_all(&vec![cv(" 22"), cv("abc "), cv(" ")])), vec!["22", "abc", ""]);
}

#[test]
fn split_agrees_with_the_standard_library() {
    for s in ["", ",", "a", "22, 80", ",a,,b,", "22,abc, 80", ",,"] {
        let expected: Vec<String> = s.split(',').map(|p| p.to_string()).collect();
        assert_eq!(sv(&split_chars(&cv(s), ',')), expected, "{:?}", s);
    }
    assert_eq!(sv(&split_chars(&cv("22  80"), ' ')), vec!["22", "", "80"]);
}

#[test]
fn words_are_the_runs_between_blank_space() {
    for s in ["", " ", "a", " a", "a ", "22 80", "  in\tuse \n x  ", "a\u{3000}b"] {
        let expected: Vec<String> = s.split_whitespace().map(|p| p.to_string()).collect();
        assert_eq!(sv(&split_words(&cv(s))), expected, "{:?}", s);
    }
}

#[test]
fn contains_agrees_with_the_standard_library() {
    let hays = ["", "a", "10.0.0.5", "svc.example", "22 backup", "aab", "도메인"];
    let needles = ["", "a", "0.5", "10.", "22", "ab", "b", "example", "x", "10.0.0.55", "메인"];
    for h in hays {
        for n in needles {
            assert_eq!(contains(&cv(h), &cv(n)), h.contains(n), "{:?} in {:?}", n, h);
        }
    }
}

#[test]
fn parse_u32_agrees_with_the_standard_library() {
    let cases = [
        "", "+", "-", "0", "+0", "-0", "22", "+22", "++22", "022", "0000000000000022", " 22",
        "22 ", "2 2", "abc", "4294967295", "4294967296", "42949672950", "99999999999999999999999",
        "+4294967295", "12a", "a12", "1.5", "٣",
    ];
    for s in cases {
        assert_eq!(parse_u32(&cv(s)), s.parse::<u32>().ok(), "{:?}", s);
    }
    assert_eq!(parse_u32(&cv("443")), Some(443));
    assert_eq!(parse_u32(&cv("4294967296")), None);
}

#[test]
fn push_decimal_writes_the_numeral() {
    for n in [0u32, 1, 9, 10, 22, 80, 99, 100, 443, 65535, 1000000, 4294967295] {
        let mut out = cv("p");
        push_decimal(&mut out, n);
        assert_eq!(string_of(&out), format!("p{}", n));
        assert_eq!(parse_u32(&out[1..].to_vec()), Some(n));
    }
}

#[test]
fn parse_numbers_keeps_the_numerals_in_order() {
    let pieces = vec![cv("22"), cv("abc"), cv("80"), cv(""), cv("+7"), cv(" 9")];
    assert_eq!(parse_numbers(&pieces), vec![22, 80, 7]);
    assert_eq!(parse_numbers(&Vec::new()), Vec::<u32>::new());
}
