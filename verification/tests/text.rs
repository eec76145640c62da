use tsc_clock::number::parse_decimal;
use tsc_clock::number::NumberError;
use tsc_clock::text::chars_of;
use tsc_clock::text::contains_word;
use tsc_clock::text::find;
use tsc_clock::text::trim_bounds;

fn chars(s: &str) -> Vec<char> {
    s.chars().collect()
}

#[test]
fn characters_in_order() {
    assert_eq!(chars_of("a\u{e9}\u{4e2d}!"), vec!['a', '\u{e9}', '\u{4e2d}', '!']);
    assert_eq!(chars_of(""), Vec::<char>::new());
}

#[test]
fn first_occurrence_within_bounds() {
    let text = chars("ab,cd,ef");
    assert_eq!(find(&text, 0, 8, ','), 2);
    assert_eq!(find(&text, 3, 8, ','), 5);
    assert_eq!(find(&text, 6, 8, ','), 8);
    assert_eq!(find(&text, 0, 2, ','), 2);
    assert_eq!(find(&text, 2, 2, ','), 2);
}

#[test]
fn trimming_follows_the_standard_white_space() {
    for text in ["", " ", "a", "  a b \t\n", "\u{a0}x\u{3000}", "\u{200b}x", "\u{85}\u{2028}y\u{1680}", "\u{0b}\u{0c}z\r"] {
        let all = chars(text);
        let (lo, hi) = trim_bounds(&all);
        let kept: String = all[lo..hi].iter().collect();
        assert_eq!(kept, text.trim(), "on {:?}", text);
    }
}

#[test]
fn words_are_whole() {
    let text = chars("alpha beta,gamma");
    let beta = chars("beta");
    assert!(contains_word(&text, 0, text.len(), &beta, true));
    assert!(!contains_word(&text, 0, text.len(), &beta, false));
    assert!(contains_word(&text, 0, text.len(), &chars("beta,gamma"), false));
    assert!(!contains_word(&text, 0, text.len(), &chars("alp"), true));
    assert!(!contains_word(&text, 0, text.len(), &chars("lpha"), true));
    assert!(contains_word(&text, 0, 5, &chars("alpha"), true));
    assert!(!contains_word(&text, 0, 4, &chars("alpha"), true));
    assert!(contains_word(&text, 1, 5, &chars("lpha"), true));
}

#[test]
fn decimal_numbers() {
    let text = chars("x+0042y");
    assert_eq!(parse_decimal(&text, 1, 6, u64::MAX), Ok(42));
    assert_eq!(parse_decimal(&text, 2, 6, 42), Ok(42));
    assert_eq!(parse_decimal(&text, 2, 6, 41), Err(NumberError::Overflow));
    assert_eq!(parse_decimal(&text, 2, 7, 41), Err(NumberError::Overflow));
    assert_eq!(parse_decimal(&text, 2, 7, 42), Err(NumberError::InvalidDigit));
    assert_eq!(parse_decimal(&text, 0, 6, u64::MAX), Err(NumberError::InvalidDigit));
    assert_eq!(parse_decimal(&text, 1, 2, u64::MAX), Err(NumberError::InvalidDigit));
    assert_eq!(parse_decimal(&text, 3, 3, u64::MAX), Err(NumberError::Empty));
    assert_eq!(parse_decimal(&chars("0"), 0, 1, 0), Ok(0));
    assert_eq!(parse_decimal(&chars("18446744073709551615"), 0, 20, u64::MAX), Ok(u64::MAX));
    assert_eq!(
        parse_decimal(&chars("18446744073709551616"), 0, 20, u64::MAX),
        Err(NumberError::Overflow)
    );
}

#[test]
fn decimal_numbers_agree_with_the_standard_parser() {
    for text in ["", "+", "-", "0", "+0", "-0", "00", "1_0", "٣", "255", "256", "+255", "++1", "9999", "12 "] {
        let all = chars(text);
        let ours = parse_decimal(&all, 0, all.len(), u8::MAX as u64).ok();
        let theirs = text.parse::<u8>().ok().map(|n| n as u64);
        assert_eq!(ours, theirs, "on {:?}", text);
    }
}
