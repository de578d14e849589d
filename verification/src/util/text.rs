//! Utility functions for working with text.
//!
//! A grapheme cluster is carried around as a string, and its mathematical
//! model is its sequence of scalar values (`Seq<char>`). The character-class
//! predicates below are restricted to ASCII by design and are specified as
//! direct range checks over that model.

use vstd::prelude::*;

verus! {

/// The extended grapheme clusters of a text, in order. What a grapheme
/// cluster is takes the Unicode segmentation rules to state, so the result of
/// segmentation is given this name and the facts that callers need are stated
/// where the segmentation is performed.
pub uninterp spec fn graphemes_of(s: Seq<char>) -> Seq<Seq<char>>;

/// Relies on `unicode_segmentation::UnicodeSegmentation::graphemes` in
/// extended mode: it yields the extended grapheme clusters of the string, in
/// order, as non-empty substrings whose concatenation is the string itself,
/// and the segmentation depends on the string alone.
#[verifier::external_body]
pub(crate) fn graphemes(s: &str) -> (r: Vec<String>)
    ensures
        r.deep_view() == graphemes_of(s@),
        r.deep_view().flatten() == s@,
        forall|i: int| 0 <= i < r.deep_view().len() ==> r.deep_view()[i].len() > 0,
{
    unicode_segmentation::UnicodeSegmentation::graphemes(s, true)
        .map(|g| g.to_string())
        .collect()
}

/// A grapheme cluster that is a space or a horizontal tab.
pub open spec fn space_grapheme(g: Seq<char>) -> bool {
    g == seq![' '] || g == seq!['\t']
}

/// A grapheme cluster that is one logical line break: `\n`, or the `\r\n`
/// pair, which forms a single grapheme cluster. `\r` alone is not a newline.
pub open spec fn newline_grapheme(g: Seq<char>) -> bool {
    g == seq!['\n'] || g == seq!['\r', '\n']
}

/// A grapheme cluster that is one underscore.
pub open spec fn underscore_grapheme(g: Seq<char>) -> bool {
    g == seq!['_']
}

/// A grapheme cluster that is one ASCII lowercase letter.
pub open spec fn lower_grapheme(g: Seq<char>) -> bool {
    g.len() == 1 && ('a' as u32) <= (g[0] as u32) <= ('z' as u32)
}

/// A grapheme cluster that is one ASCII uppercase letter.
pub open spec fn upper_grapheme(g: Seq<char>) -> bool {
    g.len() == 1 && ('A' as u32) <= (g[0] as u32) <= ('Z' as u32)
}

/// A grapheme cluster that is one ASCII letter or an underscore.
pub open spec fn alpha_grapheme(g: Seq<char>) -> bool {
    lower_grapheme(g) || upper_grapheme(g) || g == seq!['_']
}

/// A grapheme cluster that is one ASCII decimal digit.
pub open spec fn digit_grapheme(g: Seq<char>) -> bool {
    g.len() == 1 && ('0' as u32) <= (g[0] as u32) <= ('9' as u32)
}

/// A grapheme cluster that is one ASCII letter, an underscore, or one ASCII
/// decimal digit.
pub open spec fn alphanum_grapheme(g: Seq<char>) -> bool {
    alpha_grapheme(g) || digit_grapheme(g)
}

/// A grapheme cluster that is one ASCII binary digit.
pub open spec fn bin_digit_grapheme(g: Seq<char>) -> bool {
    g.len() == 1 && ('0' as u32) <= (g[0] as u32) <= ('1' as u32)
}

/// A grapheme cluster that is one ASCII octal digit.
pub open spec fn oct_digit_grapheme(g: Seq<char>) -> bool {
    g.len() == 1 && ('0' as u32) <= (g[0] as u32) <= ('7' as u32)
}

/// A grapheme cluster that is one ASCII hexadecimal digit.
pub open spec fn hex_digit_grapheme(g: Seq<char>) -> bool {
    digit_grapheme(g) || (g.len() == 1 && (('a' as u32) <= (g[0] as u32) <= ('f' as u32) || (
    'A' as u32) <= (g[0] as u32) <= ('F' as u32)))
}

/// Test that a string contains an ASCII lowercase character.
pub fn is_lower(s: &str) -> (r: bool)
    ensures
        r == lower_grapheme(s@),
{
    if s.unicode_len() == 1 {
        let u = s.get_char(0) as u32;
        ('a' as u32) <= u && u <= ('z' as u32)
    } else {
        false
    }
}

/// Test that a string contains an ASCII uppercase character.
pub fn is_upper(s: &str) -> (r: bool)
    ensures
        r == upper_grapheme(s@),
{
    if s.unicode_len() == 1 {
        let u = s.get_char(0) as u32;
        ('A' as u32) <= u && u <= ('Z' as u32)
    } else {
        false
    }
}

/// Test that a string contains an ASCII alphabetic character or underscore.
pub fn is_alpha(s: &str) -> (r: bool)
    ensures
        r == alpha_grapheme(s@),
{
    proof {
        assert(s@.len() == 1 && s@[0] == '_' ==> s@ =~= seq!['_']);
    }
    if s.unicode_len() == 1 {
        let u = s.get_char(0) as u32;
        ('a' as u32) <= u && u <= ('z' as u32) || ('A' as u32) <= u && u <= ('Z' as u32) || u == (
        '_' as u32)
    } else {
        false
    }
}

/// Test that a string contains an ASCII alphabetic character, underscore, or
/// decimal digit.
pub fn is_alphanum(s: &str) -> (r: bool)
    ensures
        r == alphanum_grapheme(s@),
{
    is_alpha(s) || is_digit(s)
}

/// Test that a string contains an ASCII decimal digit.
pub fn is_digit(s: &str) -> (r: bool)
    ensures
        r == digit_grapheme(s@),
{
    if s.unicode_len() == 1 {
        let u = s.get_char(0) as u32;
        ('0' as u32) <= u && u <= ('9' as u32)
    } else {
        false
    }
}

/// Test that a string contains an ASCII binary digit.
pub fn is_bin_digit(s: &str) -> (r: bool)
    ensures
        r == bin_digit_grapheme(s@),
{
    if s.unicode_len() == 1 {
        let u = s.get_char(0) as u32;
        ('0' as u32) <= u && u <= ('1' as u32)
    } else {
        false
    }
}

/// Test that a string contains an ASCII octal digit.
pub fn is_oct_digit(s: &str) -> (r: bool)
    ensures
        r == oct_digit_grapheme(s@),
{
    if s.unicode_len() == 1 {
        let u = s.get_char(0) as u32;
        ('0' as u32) <= u && u <= ('7' as u32)
    } else {
        false
    }
}

/// Test that a string contains an ASCII hexadecimal digit.
pub fn is_hex_digit(s: &str) -> (r: bool)
    ensures
        r == hex_digit_grapheme(s@),
{
    if s.unicode_len() == 1 {
        let u = s.get_char(0) as u32;
        ('0' as u32) <= u && u <= ('9' as u32) || ('a' as u32) <= u && u <= ('f' as u32) || (
        'A' as u32) <= u && u <= ('F' as u32)
    } else {
        false
    }
}

} // verus!
