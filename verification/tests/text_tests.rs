use animer::text::{chars_of, is_whitespace, parse_usize_chars, push_chars, push_decimal, push_padded, push_repeat, split_whitespace};

#[test]
fn decimal_formatting() {
    let mut s = String::from("n=");
    push_decimal(&mut s, 0);
    assert_eq!(s, "n=0");
    let mut s = String::new();
    push_decimal(&mut s, 305);
    assert_eq!(s, "305");
    let mut s = String::new();
    push_decimal(&mut s, u64::MAX);
    assert_eq!(s, u64::MAX.to_string());
}

#[test]
fn decimal_formatting_agrees_with_display() {
    for n in [1u64, 9, 10, 99, 100, 4294967295, 1234567890123] {
        let mut s = String::new();
        push_decimal(&mut s, n);
        assert_eq!(s, n.to_string());
    }
}

#[test]
fn whitespace_classification_agrees_with_std() {
    for u in 0u32..0x3100 {
        if let Some(c) = char::from_u32(u) {
            assert_eq!(is_whitespace(c), c.is_whitespace(), "char {:#x}", u);
        }
    }
    assert!(!is_whitespace('\u{feff}'));
}

fn words_of(s: &str) -> Vec<String> {
    split_whitespace(&chars_of(s)).into_iter().map(|w| w.into_iter().collect()).collect()
}

#[test]
fn splitting_agrees_with_std() {
    for s in ["", "   ", "3", "3 hd", "  12   fullhd  ", "a\tb\nc", "x\u{3000}y\u{a0}z", "ep 5 sd extra"] {
        let expected: Vec<String> = s.split_whitespace().map(|w| w.to_string()).collect();
        assert_eq!(words_of(s), expected, "input {:?}", s);
    }
}

#[test]
fn parsing_agrees_with_std() {
    for s in ["0", "7", "+7", "-7", "+", "", "12a", "007", "18446744073709551615", "18446744073709551616", "99999999999999999999", " 1"] {
        let expected = s.parse::<usize>().ok();
        assert_eq!(parse_usize_chars(&chars_of(s)), expected, "input {:?}", s);
    }
}

#[test]
fn padding_and_repetition() {
    let mut s = String::new();
    push_repeat(&mut s, '-', 5);
    assert_eq!(s, "-----");
    let mut s = String::new();
    push_padded(&mut s, "ab", 5);
    assert_eq!(s, "ab   ");
    let mut s = String::new();
    push_padded(&mut s, "abcdef", 3);
    assert_eq!(s, "abcdef");
    let mut s = String::from(">");
    push_chars(&mut s, &vec!['ж', '!']);
    assert_eq!(s, ">ж!");
    assert_eq!(format!("{:<5}", "ж"), { let mut t = String::new(); push_padded(&mut t, "ж", 5); t });
}
