//! The character classes.

use frontend::char_util::{
    is_alpha, is_alpha_numeral, is_binary_numeral, is_decimal_numeral, is_hexdec_numeral,
    is_octal_numeral, is_whitespace, CharClass,
};

fn every_char() -> Vec<char> {
    let mut all = Vec::new();
    let mut code: u32 = 0;
    while code <= 0x10FFFF {
        if let Some(c) = char::from_u32(code) {
            all.push(c);
        }
        code += 1;
    }
    all
}

#[test]
fn white_space_is_what_unicode_says() {
    for c in every_char() {
        assert_eq!(is_whitespace(c), c.is_whitespace(), "{:?}", c);
    }
}

#[test]
fn letters_and_digits_are_ascii() {
    for c in every_char() {
        assert_eq!(is_alpha(c), c.is_ascii_alphabetic(), "{:?}", c);
        assert_eq!(is_decimal_numeral(c), c.is_ascii_digit(), "{:?}", c);
        assert_eq!(is_alpha_numeral(c), c.is_ascii_alphanumeric(), "{:?}", c);
        assert_eq!(is_hexdec_numeral(c), c.is_ascii_hexdigit(), "{:?}", c);
        assert_eq!(is_octal_numeral(c), c.is_digit(8), "{:?}", c);
        assert_eq!(is_binary_numeral(c), c.is_digit(2), "{:?}", c);
    }
}

#[test]
fn nul_is_in_no_class() {
    assert!(!is_whitespace('\0'));
    assert!(!is_alpha('\0'));
    assert!(!is_alpha_numeral('\0'));
    assert!(!is_decimal_numeral('\0'));
    assert!(!is_binary_numeral('\0'));
    assert!(!is_octal_numeral('\0'));
    assert!(!is_hexdec_numeral('\0'));
    for class in [
        CharClass::Whitespace,
        CharClass::IdentifierPart,
        CharClass::SuffixPart,
        CharClass::BinaryPart,
        CharClass::OctalPart,
        CharClass::HexdecPart,
        CharClass::DecimalPart,
        CharClass::CommentText,
    ] {
        assert!(!class.admits('\0'), "{:?}", class);
    }
}

#[test]
fn the_underscore_is_no_letter() {
    assert!(!is_alpha('_'));
    assert!(!is_alpha_numeral('_'));
    assert!(CharClass::IdentifierPart.admits('_'));
    assert!(!CharClass::SuffixPart.admits('_'));
}

#[test]
fn the_classes_of_runs() {
    for c in every_char() {
        let separator = c == '_';
        assert_eq!(CharClass::Whitespace.admits(c), c.is_whitespace());
        assert_eq!(CharClass::IdentifierPart.admits(c), c.is_ascii_alphanumeric() || separator);
        assert_eq!(CharClass::SuffixPart.admits(c), c.is_ascii_alphanumeric());
        assert_eq!(CharClass::BinaryPart.admits(c), c.is_digit(2) || separator);
        assert_eq!(CharClass::OctalPart.admits(c), c.is_digit(8) || separator);
        assert_eq!(CharClass::HexdecPart.admits(c), c.is_ascii_hexdigit() || separator);
        assert_eq!(CharClass::DecimalPart.admits(c), c.is_ascii_digit() || separator);
        assert_eq!(CharClass::CommentText.admits(c), c != '\n' && c != '\0');
    }
}

#[test]
fn the_bounds_of_the_classes() {
    assert!(is_alpha('a') && is_alpha('z') && is_alpha('A') && is_alpha('Z'));
    assert!(!is_alpha('`') && !is_alpha('{') && !is_alpha('@') && !is_alpha('['));
    assert!(is_decimal_numeral('0') && is_decimal_numeral('9'));
    assert!(!is_decimal_numeral('/') && !is_decimal_numeral(':'));
    assert!(is_octal_numeral('0') && is_octal_numeral('7') && !is_octal_numeral('8'));
    assert!(is_binary_numeral('0') && is_binary_numeral('1') && !is_binary_numeral('2'));
    assert!(is_hexdec_numeral('f') && is_hexdec_numeral('F') && !is_hexdec_numeral('g'));
    assert!(!is_hexdec_numeral('G'));
    assert!(is_whitespace(' ') && is_whitespace('\t') && is_whitespace('\n'));
    assert!(is_whitespace('\r') && is_whitespace('\u{3000}') && !is_whitespace('\u{200b}'));
}
