use puzzle_tokenizer::normalize::{is_noise_char, strip_symbols};
use regex::Regex;

fn noise_class() -> Regex {
    Regex::new(r#"[a-zA-Z\s!-/:-@\[-`{-~]+"#).unwrap()
}

#[test]
fn strips_latin_and_symbols_but_keeps_digits() {
    assert_eq!(strip_symbols("123 cats run!!"), "123 ");
}

#[test]
fn keeps_text_without_noise() {
    assert_eq!(strip_symbols("猫が歩く。"), "猫が歩く。");
}

#[test]
fn empty_text_stays_empty() {
    assert_eq!(strip_symbols(""), "");
}

#[test]
fn a_run_becomes_one_space() {
    assert_eq!(strip_symbols("猫 - cat?\t\n犬"), "猫 犬");
    assert_eq!(strip_symbols("abc"), " ");
    assert_eq!(strip_symbols("  猫"), " 猫");
    assert_eq!(strip_symbols("猫!!"), "猫 ");
}

#[test]
fn runs_apart_stay_apart() {
    assert_eq!(strip_symbols("a1b2c"), " 1 2 ");
    assert_eq!(strip_symbols("猫a犬b鳥"), "猫 犬 鳥");
}

#[test]
fn wide_space_is_noise() {
    assert_eq!(strip_symbols("猫\u{3000}\u{3000}犬"), "猫 犬");
    assert_eq!(strip_symbols("猫\u{A0}犬"), "猫 犬");
}

#[test]
fn wide_letters_and_marks_pass() {
    assert_eq!(strip_symbols("ＡＢＣ、１２３！"), "ＡＢＣ、１２３！");
}

#[test]
fn every_ascii_symbol_is_noise() {
    for c in "`~!@#$%^&*()-_=+[]{}|\\'\":;<>,./?".chars() {
        assert!(is_noise_char(c), "{:?}", c);
        assert_eq!(strip_symbols(&format!("猫{}犬", c)), "猫 犬");
    }
}

#[test]
fn digits_are_no_noise() {
    for c in "0123456789".chars() {
        assert!(!is_noise_char(c));
    }
    assert!(!is_noise_char('\u{0}'));
    assert!(!is_noise_char('\u{7F}'));
    assert!(is_noise_char('\u{3000}'));
}

#[test]
fn normalizing_twice_changes_nothing() {
    for text in ["", "123 cats run!!", "猫が歩く。", "  a  b  ", "猫 - cat?\t\n犬", "x"] {
        let once = strip_symbols(text);
        assert_eq!(strip_symbols(&once), once);
    }
}

#[test]
fn noise_agrees_with_the_character_class() {
    let class = noise_class();
    let mut buffer = [0u8; 4];
    for code in 0u32..0x11000 {
        if let Some(c) = char::from_u32(code) {
            let text: &str = c.encode_utf8(&mut buffer);
            assert_eq!(is_noise_char(c), class.is_match(text), "U+{:04X}", code);
        }
    }
}

#[test]
fn stripping_agrees_with_replacing_the_character_class() {
    let class = noise_class();
    for text in [
        "",
        "123 cats run!!",
        "猫が歩く。",
        "Is it 2 or 3?  はい、2です。",
        "\u{3000}全角 space\u{2003}and\u{85}more",
        "~`!@#$%^&*()_+-=[]{}|;':\",./<>?",
        "終わりに noise",
    ] {
        assert_eq!(strip_symbols(text), class.replace_all(text, " "));
    }
}
