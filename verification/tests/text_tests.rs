use kaki::util::text::{
    is_alpha,
    is_alphanum,
    is_bin_digit,
    is_digit,
    is_hex_digit,
    is_lower,
    is_oct_digit,
    is_upper,
};
use unicode_segmentation::UnicodeSegmentation;

fn lower() -> &'static str {
    "abcdefghijklmnopqrstuvwxyz"
}

fn upper() -> &'static str {
    "ABCDEFGHIJKLMNOPQRSTUVWXYZ"
}

fn underscore() -> &'static str {
    "_"
}

fn digits() -> &'static str {
    "0123456789"
}

fn bin_digits() -> &'static str {
    "01"
}

fn oct_digits() -> &'static str {
    "01234567"
}

fn hex_digits() -> &'static str {
    "0123456789abcdefABCDEF"
}

// This is okay to split across multiple lines because space and linebreaks
// are printable
fn printable() -> &'static str {
    " !\"#$%&'()*+,-./0123456789:;<=>?@ABCDEFGHIJKLMNOPQRSTUVWXYZ[\n        \\]^_`abcdefghijklmnopqrstuvwxyz{|}~"
}

fn remove(s: &str, pattern: &str) -> String {
    let mut r: String = s.into();
    for g in pattern.graphemes(true) {
        r = r.replace(g, "");
    }
    r
}

#[test]
fn test_is_lower() {
    for g in lower().graphemes(true) {
        assert!(is_lower(g));
    }
    for g in remove(printable(), lower()).graphemes(true) {
        assert!(!is_lower(g));
    }
}

#[test]
fn test_is_upper() {
    for g in upper().graphemes(true) {
        assert!(is_upper(g));
    }
    for g in remove(printable(), upper()).graphemes(true) {
        assert!(!is_upper(g));
    }
}

#[test]
fn test_is_alpha() {
    let pattern = format!("{}{}{}", lower(), upper(), underscore());
    for g in pattern.graphemes(true) {
        assert!(is_alpha(g));
    }
    for g in remove(printable(), &pattern).graphemes(true) {
        assert!(!is_alpha(g));
    }
}

#[test]
fn test_is_alphanum() {
    let pattern = format!("{}{}{}{}", lower(), upper(), underscore(), digits());
    for g in pattern.graphemes(true) {
        assert!(is_alphanum(g));
    }
    for g in remove(printable(), &pattern).graphemes(true) {
        assert!(!is_alphanum(g));
    }
}

#[test]
fn test_is_digit() {
    for g in digits().graphemes(true) {
        assert!(is_digit(g));
    }
    for g in remove(printable(), digits()).graphemes(true) {
        assert!(!is_digit(g));
    }
}

#[test]
fn test_is_bin_digit() {
    for g in bin_digits().graphemes(true) {
        assert!(is_bin_digit(g));
    }
    for g in remove(printable(), bin_digits()).graphemes(true) {
        assert!(!is_bin_digit(g));
    }
}

#[test]
fn test_is_oct_digit() {
    for g in oct_digits().graphemes(true) {
        assert!(is_oct_digit(g));
    }
    for g in remove(printable(), oct_digits()).graphemes(true) {
        assert!(!is_oct_digit(g));
    }
}

#[test]
fn test_is_hex_digit() {
    for g in hex_digits().graphemes(true) {
        assert!(is_hex_digit(g));
    }
    for g in remove(printable(), hex_digits()).graphemes(true) {
        assert!(!is_hex_digit(g));
    }
}
