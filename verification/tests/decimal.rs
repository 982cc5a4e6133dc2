use meminfo::{parse_i64, NumberError};
use std::num::IntErrorKind;

fn std_parse(text: &str) -> Result<i64, NumberError> {
    match text.parse::<i64>() {
        Ok(number) => Ok(number),
        Err(error) => match error.kind() {
            IntErrorKind::Empty => Err(NumberError::Empty),
            IntErrorKind::InvalidDigit => Err(NumberError::InvalidDigit),
            IntErrorKind::PosOverflow => Err(NumberError::TooLarge),
            IntErrorKind::NegOverflow => Err(NumberError::TooSmall),
            other => panic!("unexpected kind {:?}", other),
        },
    }
}

#[test]
fn plain_digits() {
    assert_eq!(parse_i64("0"), Ok(0));
    assert_eq!(parse_i64("7"), Ok(7));
    assert_eq!(parse_i64("12"), Ok(12));
    assert_eq!(parse_i64("3200"), Ok(3200));
    assert_eq!(parse_i64("16314380"), Ok(16314380));
}

#[test]
fn leading_zeros_do_not_count() {
    assert_eq!(parse_i64("007"), Ok(7));
    assert_eq!(parse_i64("0000000000000000000000000000012"), Ok(12));
    assert_eq!(parse_i64("-000"), Ok(0));
}

#[test]
fn signs() {
    assert_eq!(parse_i64("+12"), Ok(12));
    assert_eq!(parse_i64("-12"), Ok(-12));
    assert_eq!(parse_i64("-0"), Ok(0));
    assert_eq!(parse_i64("+0"), Ok(0));
}

#[test]
fn limits_of_the_range() {
    assert_eq!(parse_i64("9223372036854775807"), Ok(i64::MAX));
    assert_eq!(parse_i64("+9223372036854775807"), Ok(i64::MAX));
    assert_eq!(parse_i64("-9223372036854775808"), Ok(i64::MIN));
    assert_eq!(parse_i64("9223372036854775808"), Err(NumberError::TooLarge));
    assert_eq!(parse_i64("-9223372036854775809"), Err(NumberError::TooSmall));
    assert_eq!(parse_i64("92233720368547758070"), Err(NumberError::TooLarge));
    assert_eq!(parse_i64("-92233720368547758080"), Err(NumberError::TooSmall));
    assert_eq!(parse_i64("99999999999999999999999999"), Err(NumberError::TooLarge));
}

#[test]
fn empty_text() {
    assert_eq!(parse_i64(""), Err(NumberError::Empty));
}

#[test]
fn sign_alone_is_invalid() {
    assert_eq!(parse_i64("+"), Err(NumberError::InvalidDigit));
    assert_eq!(parse_i64("-"), Err(NumberError::InvalidDigit));
}

#[test]
fn other_characters_are_invalid() {
    assert_eq!(parse_i64("abc"), Err(NumberError::InvalidDigit));
    assert_eq!(parse_i64("12a"), Err(NumberError::InvalidDigit));
    assert_eq!(parse_i64("a12"), Err(NumberError::InvalidDigit));
    assert_eq!(parse_i64(" 12"), Err(NumberError::InvalidDigit));
    assert_eq!(parse_i64("12 "), Err(NumberError::InvalidDigit));
    assert_eq!(parse_i64("1_000"), Err(NumberError::InvalidDigit));
    assert_eq!(parse_i64("1.5"), Err(NumberError::InvalidDigit));
    assert_eq!(parse_i64("+-5"), Err(NumberError::InvalidDigit));
    assert_eq!(parse_i64("--5"), Err(NumberError::InvalidDigit));
    assert_eq!(parse_i64("5-"), Err(NumberError::InvalidDigit));
    assert_eq!(parse_i64("\u{661}\u{662}"), Err(NumberError::InvalidDigit));
    assert_eq!(parse_i64("\u{ff11}\u{ff12}"), Err(NumberError::InvalidDigit));
}

#[test]
fn digits_at_the_front_are_judged_first() {
    assert_eq!(parse_i64("99999999999999999999a"), Err(NumberError::TooLarge));
    assert_eq!(parse_i64("-99999999999999999999a"), Err(NumberError::TooSmall));
    assert_eq!(parse_i64("9223372036854775807a"), Err(NumberError::InvalidDigit));
    assert_eq!(parse_i64("a99999999999999999999"), Err(NumberError::InvalidDigit));
}

#[test]
fn agrees_with_the_standard_parser_on_chosen_texts() {
    let texts = [
        "", "+", "-", "0", "-0", "+0", "007", "12", "-12", "+12", "3200",
        "9223372036854775807", "9223372036854775808", "-9223372036854775808",
        "-9223372036854775809", "99999999999999999999", "99999999999999999999a",
        "9223372036854775807a", "-9223372036854775808x", "12a", "a12", " 12", "12 ",
        "1_000", "+-5", "--5", "++5", "1.5", "0x10", "1e3", "\u{661}\u{662}", "\u{ff11}",
        "00000000000000000000000000000000000000009223372036854775807",
        "00000000000000000000000000000000000000009223372036854775808",
        "-0000000000000000000000000000000000000009223372036854775808",
        "-0000000000000000000000000000000000000009223372036854775809",
        "1\u{0}", "\n1", "1\n",
    ];
    for text in texts {
        assert_eq!(parse_i64(text), std_parse(text), "text {:?}", text);
    }
}

#[test]
fn agrees_with_the_standard_parser_on_all_short_texts() {
    let alphabet = ['+', '-', '0', '1', '9', 'a', ' ', ':'];
    let mut texts = vec![String::new()];
    let mut frontier = vec![String::new()];
    for _ in 0..4 {
        let mut next = Vec::new();
        for prefix in &frontier {
            for c in alphabet {
                let mut text = prefix.clone();
                text.push(c);
                next.push(text);
            }
        }
        texts.extend(next.iter().cloned());
        frontier = next;
    }
    assert_eq!(texts.len(), 1 + 8 + 64 + 512 + 4096);
    for text in &texts {
        assert_eq!(parse_i64(text), std_parse(text), "text {:?}", text);
    }
}

#[test]
fn every_number_reads_back_from_its_decimal_form() {
    let mut numbers = vec![0i64, 1, -1, 9, 10, 99, 100, 3200, i64::MAX, i64::MIN, i64::MAX - 1, i64::MIN + 1];
    let mut power: i64 = 1;
    for _ in 0..18 {
        power *= 10;
        numbers.extend([power - 1, power, power + 1, -power, -power - 1, -power + 1]);
    }
    for number in numbers {
        assert_eq!(parse_i64(&number.to_string()), Ok(number));
        assert_eq!(parse_i64(&format!("{:+}", number)), Ok(number));
    }
}

#[test]
fn around_the_limits_agrees_with_the_standard_parser() {
    let max = i64::MAX as i128;
    let min = i64::MIN as i128;
    for delta in -25i128..=25 {
        for base in [max, min, max * 10, min * 10, max / 10, min / 10] {
            let text = (base + delta).to_string();
            assert_eq!(parse_i64(&text), std_parse(&text), "text {:?}", text);
        }
    }
}
