//! The lexical grammar of edition 1, stated mathematically.
//!
//! The source is modelled as a sequence of grapheme clusters, each a
//! `Seq<char>`. [`next_spec`] says, for every cursor position, what one step
//! of the lexer engine produces: the end-of-input marker, a token kind with
//! the grapheme offset just past the lexeme, or an error descriptor. The
//! executable engine is verified against these definitions.

use vstd::prelude::*;
use super::lexer::LexerErrorKind;
use super::token::{op_punc_kind, word_kind, TokenKind};
use crate::util::text::{
    alpha_grapheme,
    alphanum_grapheme,
    bin_digit_grapheme,
    digit_grapheme,
    hex_digit_grapheme,
    lower_grapheme,
    newline_grapheme,
    oct_digit_grapheme,
    space_grapheme,
    underscore_grapheme,
    upper_grapheme,
};

verus! {

/// The grapheme at offset `i` is exactly the single scalar `c`.
pub open spec fn is_g(gs: Seq<Seq<char>>, i: int, c: char) -> bool {
    0 <= i < gs.len() && gs[i] == seq![c]
}

/// A class of grapheme clusters that the engine can consume as a run.
#[derive(Clone, Copy, Debug, PartialEq, Eq, Structural)]
pub enum GraphemeClass {
    /// A space or a horizontal tab.
    SpaceTab,
    /// An underscore.
    Underscore,
    /// An ASCII letter or underscore.
    Alpha,
    /// An ASCII letter, underscore, or decimal digit.
    Alphanum,
    /// An ASCII uppercase letter.
    Upper,
    /// An ASCII decimal digit.
    Digit,
    /// An ASCII binary digit.
    BinDigit,
    /// An ASCII octal digit.
    OctDigit,
    /// An ASCII hexadecimal digit.
    HexDigit,
    /// Anything but a line break.
    NotNewline,
}

/// Which grapheme clusters belong to a class.
pub open spec fn class_spec(c: GraphemeClass, g: Seq<char>) -> bool {
    match c {
        GraphemeClass::SpaceTab => space_grapheme(g),
        GraphemeClass::Underscore => underscore_grapheme(g),
        GraphemeClass::Alpha => alpha_grapheme(g),
        GraphemeClass::Alphanum => alphanum_grapheme(g),
        GraphemeClass::Upper => upper_grapheme(g),
        GraphemeClass::Digit => digit_grapheme(g),
        GraphemeClass::BinDigit => bin_digit_grapheme(g),
        GraphemeClass::OctDigit => oct_digit_grapheme(g),
        GraphemeClass::HexDigit => hex_digit_grapheme(g),
        GraphemeClass::NotNewline => !newline_grapheme(g),
    }
}

/// A class, as a predicate on grapheme clusters.
pub open spec fn class_pred(c: GraphemeClass) -> spec_fn(Seq<char>) -> bool {
    |g: Seq<char>| class_spec(c, g)
}

/// A grapheme cluster that is a trailing `!` or `?` of a name.
pub open spec fn trailer_grapheme(g: Seq<char>) -> bool {
    g == seq!['!'] || g == seq!['?']
}

/// What one step of the engine produces, at the specification level. The
/// covered lexeme always runs from the cursor position at which the step
/// began to `end`.
pub enum Scan {
    /// The cursor is at the end of the input.
    Absent,
    /// A token of kind `kind` whose lexeme ends at grapheme offset `end`.
    Token { kind: TokenKind, end: int },
    /// An error of kind `error`, attempting the token kind `token_kind` when
    /// known, whose lexeme ends at grapheme offset `end`.
    Error { error: LexerErrorKind, token_kind: Option<TokenKind>, end: int },
}

/// The grapheme offset just past the lexeme of a step.
pub open spec fn scan_end(s: Scan) -> int {
    match s {
        Scan::Absent => 0,
        Scan::Token { end, .. } => end,
        Scan::Error { end, .. } => end,
    }
}

/// The least offset at or after `i` at which `pred` does not hold (or the end
/// of the input): the end of the maximal run of `pred`-graphemes from `i`.
pub open spec fn run_end(gs: Seq<Seq<char>>, i: int, pred: spec_fn(Seq<char>) -> bool) -> int
    decreases gs.len() - i,
{
    if i < 0 || i >= gs.len() {
        i
    } else if pred(gs[i]) {
        run_end(gs, i + 1, pred)
    } else {
        i
    }
}

/// The end of a number body being read at `p`, where the grapheme before `p`
/// is a digit of the radix in use: further digits are consumed, and an
/// underscore is consumed as a digit-group separator only when a digit
/// follows it, so that a body never ends in an underscore.
pub open spec fn body_end(gs: Seq<Seq<char>>, p: int, digit: spec_fn(Seq<char>) -> bool) -> int
    decreases gs.len() - p,
{
    if p < 0 || p >= gs.len() {
        p
    } else if digit(gs[p]) {
        body_end(gs, p + 1, digit)
    } else if underscore_grapheme(gs[p]) && p + 1 < gs.len() && digit(gs[p + 1]) {
        body_end(gs, p + 2, digit)
    } else {
        p
    }
}

/// One comment, beginning at the `#` at offset `i`: a block comment when
/// `#[[` opens there, otherwise a line comment running to (and not
/// including) the next newline.
pub open spec fn comment_scan(gs: Seq<Seq<char>>, i: int) -> Scan
    recommends
        is_g(gs, i, '#'),
{
    if is_g(gs, i + 1, '[') && is_g(gs, i + 2, '[') {
        block_scan(gs, i + 3, 1)
    } else {
        Scan::Token { kind: TokenKind::CommentLine, end: run_end(gs, i, class_pred(GraphemeClass::NotNewline)) }
    }
}

/// The rest of a block comment being read at `j` with `depth` unclosed
/// openers. Every further `#[[` increments the depth and every `]]`
/// decrements it; the comment ends when the depth returns to zero. Reaching
/// the end of the input first is an incomplete block comment.
pub open spec fn block_scan(gs: Seq<Seq<char>>, j: int, depth: int) -> Scan
    decreases gs.len() - j,
{
    if j >= gs.len() {
        Scan::Error {
            error: LexerErrorKind::Incomplete,
            token_kind: Some(TokenKind::CommentBlock),
            end: gs.len() as int,
        }
    } else if is_g(gs, j, '#') && is_g(gs, j + 1, '[') && is_g(gs, j + 2, '[') {
        block_scan(gs, j + 3, depth + 1)
    } else if is_g(gs, j, ']') && is_g(gs, j + 1, ']') {
        if depth <= 1 {
            Scan::Token { kind: TokenKind::CommentBlock, end: j + 2 }
        } else {
            block_scan(gs, j + 2, depth - 1)
        }
    } else {
        block_scan(gs, j + 1, depth)
    }
}

/// One name, beginning at the letter or underscore at offset `i`. Any
/// leading run of underscores is read first; the grapheme after it selects
/// the sub-form: lowercase, uppercase, digit (anonymous name), or nothing
/// further (the all-underscore rule).
pub open spec fn name_scan(gs: Seq<Seq<char>>, i: int) -> Scan
    recommends
        0 <= i < gs.len(),
        alpha_grapheme(gs[i]),
{
    let u = run_end(gs, i, class_pred(GraphemeClass::Underscore));
    if u < gs.len() && lower_grapheme(gs[u]) {
        let a = run_end(gs, u, class_pred(GraphemeClass::Alphanum));
        let end = if a < gs.len() && trailer_grapheme(gs[a]) {
            a + 1
        } else {
            a
        };
        if exists|k: int| i <= k < a && upper_grapheme(#[trigger] gs[k]) {
            Scan::Error {
                error: LexerErrorKind::Invalid,
                token_kind: Some(TokenKind::NameLower),
                end,
            }
        } else {
            Scan::Token { kind: TokenKind::NameLower, end }
        }
    } else if u < gs.len() && upper_grapheme(gs[u]) {
        let a = run_end(gs, u, class_pred(GraphemeClass::Alphanum));
        if a < gs.len() && trailer_grapheme(gs[a]) {
            Scan::Error {
                error: LexerErrorKind::Invalid,
                token_kind: Some(TokenKind::NameUpper),
                end: a + 1,
            }
        } else {
            Scan::Token { kind: TokenKind::NameUpper, end: a }
        }
    } else if u < gs.len() && digit_grapheme(gs[u]) {
        let a = run_end(gs, u, class_pred(GraphemeClass::Alphanum));
        let trailed = a < gs.len() && trailer_grapheme(gs[a]);
        let end = if trailed {
            a + 1
        } else {
            a
        };
        if trailed || exists|k: int| u + 1 <= k < a && alpha_grapheme(#[trigger] gs[k]) {
            Scan::Error { error: LexerErrorKind::Invalid, token_kind: Some(TokenKind::NameAnon), end }
        } else {
            Scan::Token { kind: TokenKind::NameAnon, end }
        }
    } else {
        if u == i + 1 {
            Scan::Token { kind: TokenKind::NameUnderscore, end: u }
        } else {
            Scan::Error {
                error: LexerErrorKind::Invalid,
                token_kind: Some(TokenKind::NameUnderscore),
                end: u,
            }
        }
    }
}

/// A radix-prefixed integer body read from `j` (just past the radix letter):
/// a non-empty number body over the radix digit set, or an incomplete token
/// when the body is empty.
pub open spec fn radix_scan(
    gs: Seq<Seq<char>>,
    j: int,
    digit: spec_fn(Seq<char>) -> bool,
    kind: TokenKind,
) -> Scan {
    if j < gs.len() && digit(gs[j]) {
        Scan::Token { kind, end: body_end(gs, j, digit) }
    } else {
        Scan::Error { error: LexerErrorKind::Incomplete, token_kind: Some(kind), end: j }
    }
}

/// One number, beginning at the decimal digit at offset `i`: a `0b`/`0o`/
/// `0x` radix integer, or a decimal integer with an optional fraction (a dot
/// followed by a digit) and an optional exponent (`e`, an optional `-`, and a
/// non-empty digit run without underscores), either of which makes it a
/// float.
pub open spec fn number_scan(gs: Seq<Seq<char>>, i: int) -> Scan
    recommends
        0 <= i < gs.len(),
        digit_grapheme(gs[i]),
{
    if is_g(gs, i, '0') && is_g(gs, i + 1, 'b') {
        radix_scan(gs, i + 2, class_pred(GraphemeClass::BinDigit), TokenKind::IntBin)
    } else if is_g(gs, i, '0') && is_g(gs, i + 1, 'o') {
        radix_scan(gs, i + 2, class_pred(GraphemeClass::OctDigit), TokenKind::IntOct)
    } else if is_g(gs, i, '0') && is_g(gs, i + 1, 'x') {
        radix_scan(gs, i + 2, class_pred(GraphemeClass::HexDigit), TokenKind::IntHex)
    } else {
        let d = body_end(gs, i, class_pred(GraphemeClass::Digit));
        let frac = is_g(gs, d, '.') && d + 1 < gs.len() && digit_grapheme(gs[d + 1]);
        let d2 = if frac {
            body_end(gs, d + 1, class_pred(GraphemeClass::Digit))
        } else {
            d
        };
        if is_g(gs, d2, 'e') {
            let ep = if is_g(gs, d2 + 1, '-') {
                d2 + 2
            } else {
                d2 + 1
            };
            let ee = run_end(gs, ep, class_pred(GraphemeClass::Digit));
            if ee == ep {
                Scan::Error {
                    error: LexerErrorKind::Incomplete,
                    token_kind: Some(TokenKind::Float),
                    end: ep,
                }
            } else {
                Scan::Token { kind: TokenKind::Float, end: ee }
            }
        } else if frac {
            Scan::Token { kind: TokenKind::Float, end: d2 }
        } else {
            Scan::Token { kind: TokenKind::IntDec, end: d2 }
        }
    }
}

/// A string literal opens at offset `i`: with `@"""` (smart), `"""`
/// (multiline), or `"` (single line). Longer openers are checked first.
pub open spec fn string_start(gs: Seq<Seq<char>>, i: int) -> bool {
    is_g(gs, i, '"') || (is_g(gs, i, '@') && is_g(gs, i + 1, '"') && is_g(gs, i + 2, '"') && is_g(
        gs,
        i + 3,
        '"',
    ))
}

/// One string literal, beginning at the opener at offset `i`.
pub open spec fn string_scan(gs: Seq<Seq<char>>, i: int) -> Scan
    recommends
        string_start(gs, i),
{
    if is_g(gs, i, '@') {
        triple_scan(gs, i + 4, TokenKind::StringSmart)
    } else if is_g(gs, i + 1, '"') && is_g(gs, i + 2, '"') {
        triple_scan(gs, i + 3, TokenKind::StringMulti)
    } else {
        single_scan(gs, i + 1)
    }
}

/// The rest of a `"""`-closed string being read at `j`. The escape `\"` is
/// consumed verbatim; every other grapheme, newlines included, is content.
/// Reaching the end of the input first is an incomplete string.
pub open spec fn triple_scan(gs: Seq<Seq<char>>, j: int, kind: TokenKind) -> Scan
    decreases gs.len() - j,
{
    if j >= gs.len() {
        Scan::Error { error: LexerErrorKind::Incomplete, token_kind: Some(kind), end: gs.len() as int }
    } else if is_g(gs, j, '\\') && is_g(gs, j + 1, '"') {
        triple_scan(gs, j + 2, kind)
    } else if is_g(gs, j, '"') && is_g(gs, j + 1, '"') && is_g(gs, j + 2, '"') {
        Scan::Token { kind, end: j + 3 }
    } else {
        triple_scan(gs, j + 1, kind)
    }
}

/// The rest of a `"`-closed string being read at `j`. The escape `\"` is
/// consumed verbatim; every other grapheme is content. Reaching the end of
/// the input first is an incomplete string.
pub open spec fn single_scan(gs: Seq<Seq<char>>, j: int) -> Scan
    decreases gs.len() - j,
{
    if j >= gs.len() {
        Scan::Error {
            error: LexerErrorKind::Incomplete,
            token_kind: Some(TokenKind::StringSingle),
            end: gs.len() as int,
        }
    } else if is_g(gs, j, '\\') && is_g(gs, j + 1, '"') {
        single_scan(gs, j + 2)
    } else if is_g(gs, j, '"') {
        Scan::Token { kind: TokenKind::StringSingle, end: j + 1 }
    } else {
        single_scan(gs, j + 1)
    }
}

/// The operator or punctuation token at offset `i`, if any, together with the
/// offset just past it. Multi-grapheme operators are matched strictly before
/// their prefixes.
pub open spec fn op_scan(gs: Seq<Seq<char>>, i: int) -> Option<(TokenKind, int)> {
    if is_g(gs, i, '&') {
        if is_g(gs, i + 1, '&') {
            Some((TokenKind::AmpAmp, i + 2))
        } else {
            Some((TokenKind::Amp, i + 1))
        }
    } else if is_g(gs, i, '@') {
        if is_g(gs, i + 1, '@') {
            Some((TokenKind::AtAt, i + 2))
        } else if is_g(gs, i + 1, '{') {
            Some((TokenKind::AtBraceL, i + 2))
        } else {
            Some((TokenKind::At, i + 1))
        }
    } else if is_g(gs, i, '!') {
        if is_g(gs, i + 1, '=') {
            Some((TokenKind::BangEq, i + 2))
        } else {
            Some((TokenKind::Bang, i + 1))
        }
    } else if is_g(gs, i, '=') {
        if is_g(gs, i + 1, '=') {
            Some((TokenKind::EqEq, i + 2))
        } else {
            Some((TokenKind::Eq, i + 1))
        }
    } else if is_g(gs, i, '<') {
        if is_g(gs, i + 1, '=') {
            if is_g(gs, i + 2, '>') {
                Some((TokenKind::LtEqGt, i + 3))
            } else {
                Some((TokenKind::LtEq, i + 2))
            }
        } else if is_g(gs, i + 1, '<') {
            Some((TokenKind::LtLt, i + 2))
        } else {
            Some((TokenKind::Lt, i + 1))
        }
    } else if is_g(gs, i, '>') {
        if is_g(gs, i + 1, '=') {
            Some((TokenKind::GtEq, i + 2))
        } else if is_g(gs, i + 1, '>') {
            Some((TokenKind::GtGt, i + 2))
        } else {
            Some((TokenKind::Gt, i + 1))
        }
    } else if is_g(gs, i, '/') {
        if is_g(gs, i + 1, '/') {
            Some((TokenKind::SlashSlash, i + 2))
        } else {
            Some((TokenKind::Slash, i + 1))
        }
    } else if is_g(gs, i, '*') {
        if is_g(gs, i + 1, '*') {
            Some((TokenKind::StarStar, i + 2))
        } else {
            Some((TokenKind::Star, i + 1))
        }
    } else if is_g(gs, i, '|') {
        if is_g(gs, i + 1, '|') {
            Some((TokenKind::PipePipe, i + 2))
        } else {
            Some((TokenKind::Pipe, i + 1))
        }
    } else if is_g(gs, i, '?') {
        if is_g(gs, i + 1, '=') {
            Some((TokenKind::QuestionEq, i + 2))
        } else {
            Some((TokenKind::Question, i + 1))
        }
    } else if is_g(gs, i, ':') {
        if is_g(gs, i + 1, ':') {
            Some((TokenKind::ColonColon, i + 2))
        } else {
            Some((TokenKind::Colon, i + 1))
        }
    } else if is_g(gs, i, '[') {
        Some((TokenKind::BracketL, i + 1))
    } else if is_g(gs, i, ']') {
        Some((TokenKind::BracketR, i + 1))
    } else if is_g(gs, i, '{') {
        Some((TokenKind::BraceL, i + 1))
    } else if is_g(gs, i, '}') {
        Some((TokenKind::BraceR, i + 1))
    } else if is_g(gs, i, '\\') {
        Some((TokenKind::BackSlash, i + 1))
    } else if is_g(gs, i, '^') {
        Some((TokenKind::Caret, i + 1))
    } else if is_g(gs, i, ',') {
        Some((TokenKind::Comma, i + 1))
    } else if is_g(gs, i, '.') {
        Some((TokenKind::Dot, i + 1))
    } else if is_g(gs, i, '-') {
        Some((TokenKind::Minus, i + 1))
    } else if is_g(gs, i, '(') {
        Some((TokenKind::ParenL, i + 1))
    } else if is_g(gs, i, ')') {
        Some((TokenKind::ParenR, i + 1))
    } else if is_g(gs, i, '%') {
        Some((TokenKind::Percent, i + 1))
    } else if is_g(gs, i, '+') {
        Some((TokenKind::Plus, i + 1))
    } else if is_g(gs, i, ';') {
        Some((TokenKind::Semicolon, i + 1))
    } else if is_g(gs, i, '~') {
        Some((TokenKind::Tilde, i + 1))
    } else {
        None
    }
}

/// Some production of the grammar matches at offset `i`.
pub open spec fn production_at(gs: Seq<Seq<char>>, i: int) -> bool {
    &&& 0 <= i < gs.len()
    &&& {
        ||| space_grapheme(gs[i])
        ||| newline_grapheme(gs[i])
        ||| is_g(gs, i, '#')
        ||| alpha_grapheme(gs[i])
        ||| digit_grapheme(gs[i])
        ||| string_start(gs, i)
        ||| op_scan(gs, i) is Some
    }
}

/// The end of the maximal run of unrecognized graphemes that starts just
/// before `j`: the least offset at or after `j` at which some production
/// matches, or the end of the input.
pub open spec fn unknown_end(gs: Seq<Seq<char>>, j: int) -> int
    decreases gs.len() - j,
{
    if j >= gs.len() || production_at(gs, j) {
        j
    } else {
        unknown_end(gs, j + 1)
    }
}

/// One step of the engine at offset `i`: the first production of the
/// dispatch order that matches there, or a coalesced unknown-sequence error
/// covering every grapheme up to the next offset at which a production
/// matches.
#[verifier::opaque]
pub open spec fn next_spec(gs: Seq<Seq<char>>, i: int) -> Scan
    recommends
        0 <= i,
{
    if i >= gs.len() {
        Scan::Absent
    } else if space_grapheme(gs[i]) {
        Scan::Token { kind: TokenKind::Space, end: run_end(gs, i, class_pred(GraphemeClass::SpaceTab)) }
    } else if newline_grapheme(gs[i]) {
        Scan::Token { kind: TokenKind::NewLine, end: i + 1 }
    } else if is_g(gs, i, '#') {
        comment_scan(gs, i)
    } else if alpha_grapheme(gs[i]) {
        name_scan(gs, i)
    } else if digit_grapheme(gs[i]) {
        number_scan(gs, i)
    } else if string_start(gs, i) {
        string_scan(gs, i)
    } else {
        match op_scan(gs, i) {
            Some(ke) => Scan::Token { kind: ke.0, end: ke.1 },
            None => Scan::Error {
                error: LexerErrorKind::UnknownSequence,
                token_kind: None,
                end: unknown_end(gs, i + 1),
            },
        }
    }
}

/// The length and content of a one-scalar grapheme cluster, stated so that
/// distinct clusters can be told apart.
pub proof fn lemma_single_scalar_grapheme(c: char)
    ensures
        seq![c].len() == 1,
        seq![c][0] == c,
{
}

/// The length and content of a two-scalar grapheme cluster, stated so that
/// distinct clusters can be told apart.
pub proof fn lemma_two_scalar_grapheme(c0: char, c1: char)
    ensures
        seq![c0, c1].len() == 2,
        seq![c0, c1][0] == c0,
        seq![c0, c1][1] == c1,
{
}

/// The end of a run lies between its start and the end of the input, every
/// grapheme of the run satisfies the predicate, and the run is maximal.
pub proof fn lemma_run_end(gs: Seq<Seq<char>>, i: int, pred: spec_fn(Seq<char>) -> bool)
    requires
        0 <= i <= gs.len(),
    ensures
        i <= run_end(gs, i, pred) <= gs.len(),
        forall|k: int| i <= k < run_end(gs, i, pred) ==> pred(#[trigger] gs[k]),
        run_end(gs, i, pred) == gs.len() || !pred(gs[run_end(gs, i, pred)]),
    decreases gs.len() - i,
{
    if i < gs.len() && pred(gs[i]) {
        lemma_run_end(gs, i + 1, pred);
    }
}

/// The end of a number body lies between its start and the end of the input.
pub proof fn lemma_body_end(gs: Seq<Seq<char>>, p: int, digit: spec_fn(Seq<char>) -> bool)
    requires
        0 <= p <= gs.len(),
    ensures
        p <= body_end(gs, p, digit) <= gs.len(),
    decreases gs.len() - p,
{
    if p < gs.len() {
        if digit(gs[p]) {
            lemma_body_end(gs, p + 1, digit);
        } else if underscore_grapheme(gs[p]) && p + 1 < gs.len() && digit(gs[p + 1]) {
            lemma_body_end(gs, p + 2, digit);
        }
    }
}

/// A block comment scan yields a block comment token ending inside the
/// input, or an incomplete-block-comment error ending at the end of the
/// input.
pub proof fn lemma_block_scan(gs: Seq<Seq<char>>, j: int, depth: int)
    requires
        0 <= j <= gs.len(),
    ensures
        match block_scan(gs, j, depth) {
            Scan::Absent => false,
            Scan::Token { kind, end } => kind == TokenKind::CommentBlock && j < end <= gs.len(),
            Scan::Error { error, token_kind, end } => error == LexerErrorKind::Incomplete
                && token_kind == Some(TokenKind::CommentBlock) && end == gs.len(),
        },
    decreases gs.len() - j,
{
    if j >= gs.len() {
    } else if is_g(gs, j, '#') && is_g(gs, j + 1, '[') && is_g(gs, j + 2, '[') {
        lemma_block_scan(gs, j + 3, depth + 1);
    } else if is_g(gs, j, ']') && is_g(gs, j + 1, ']') {
        if depth > 1 {
            lemma_block_scan(gs, j + 2, depth - 1);
        }
    } else {
        lemma_block_scan(gs, j + 1, depth);
    }
}

/// A `"""`-closed string scan yields a token of the requested kind ending
/// inside the input, or an incomplete error ending at the end of the input.
pub proof fn lemma_triple_scan(gs: Seq<Seq<char>>, j: int, kind: TokenKind)
    requires
        0 <= j <= gs.len(),
    ensures
        match triple_scan(gs, j, kind) {
            Scan::Absent => false,
            Scan::Token { kind: k, end } => k == kind && j < end <= gs.len(),
            Scan::Error { error, token_kind, end } => error == LexerErrorKind::Incomplete
                && token_kind == Some(kind) && end == gs.len(),
        },
    decreases gs.len() - j,
{
    if j >= gs.len() {
    } else if is_g(gs, j, '\\') && is_g(gs, j + 1, '"') {
        lemma_triple_scan(gs, j + 2, kind);
    } else if is_g(gs, j, '"') && is_g(gs, j + 1, '"') && is_g(gs, j + 2, '"') {
    } else {
        lemma_triple_scan(gs, j + 1, kind);
    }
}

/// A `"`-closed string scan yields a single line string token ending inside
/// the input, or an incomplete error ending at the end of the input.
pub proof fn lemma_single_scan(gs: Seq<Seq<char>>, j: int)
    requires
        0 <= j <= gs.len(),
    ensures
        match single_scan(gs, j) {
            Scan::Absent => false,
            Scan::Token { kind, end } => kind == TokenKind::StringSingle && j < end <= gs.len(),
            Scan::Error { error, token_kind, end } => error == LexerErrorKind::Incomplete
                && token_kind == Some(TokenKind::StringSingle) && end == gs.len(),
        },
    decreases gs.len() - j,
{
    if j >= gs.len() {
    } else if is_g(gs, j, '\\') && is_g(gs, j + 1, '"') {
        lemma_single_scan(gs, j + 2);
    } else if is_g(gs, j, '"') {
    } else {
        lemma_single_scan(gs, j + 1);
    }
}

/// A name scan yields a token of a word kind, or an invalid error naming a
/// word kind, and always ends past its start and inside the input.
pub proof fn lemma_name_scan(gs: Seq<Seq<char>>, i: int)
    requires
        0 <= i < gs.len(),
        alpha_grapheme(gs[i]),
    ensures
        match name_scan(gs, i) {
            Scan::Absent => false,
            Scan::Token { kind, end } => word_kind(kind) && i < end <= gs.len(),
            Scan::Error { error, token_kind, end } => error == LexerErrorKind::Invalid && i < end
                <= gs.len() && (token_kind matches Some(k) && word_kind(k)),
        },
{
    lemma_run_end(gs, i, class_pred(GraphemeClass::Underscore));
    let u = run_end(gs, i, class_pred(GraphemeClass::Underscore));
    if u < gs.len() && (lower_grapheme(gs[u]) || upper_grapheme(gs[u]) || digit_grapheme(gs[u])) {
        lemma_run_end(gs, u, class_pred(GraphemeClass::Alphanum));
        let a = run_end(gs, u, class_pred(GraphemeClass::Alphanum));
        assert(class_spec(GraphemeClass::Alphanum, gs[u]));
        assert(a != u);
    } else {
        if u == i {
            assert(!class_spec(GraphemeClass::Underscore, gs[i]));
            assert(lower_grapheme(gs[i]) || upper_grapheme(gs[i]));
            assert(false);
        }
    }
}

/// A number scan yields a token of an integer or float kind, or an
/// incomplete error naming such a kind, and always ends past its start and
/// inside the input.
pub proof fn lemma_number_scan(gs: Seq<Seq<char>>, i: int)
    requires
        0 <= i < gs.len(),
        digit_grapheme(gs[i]),
    ensures
        match number_scan(gs, i) {
            Scan::Absent => false,
            Scan::Token { kind, end } => i < end <= gs.len() && (kind == TokenKind::IntBin || kind
                == TokenKind::IntOct || kind == TokenKind::IntHex || kind == TokenKind::IntDec
                || kind == TokenKind::Float),
            Scan::Error { error, token_kind, end } => error == LexerErrorKind::Incomplete && i
                < end <= gs.len() && (token_kind == Some(TokenKind::IntBin) || token_kind == Some(
                TokenKind::IntOct,
            ) || token_kind == Some(TokenKind::IntHex) || token_kind == Some(TokenKind::Float)),
        },
{
    if is_g(gs, i, '0') && is_g(gs, i + 1, 'b') {
        lemma_body_end(gs, i + 2, class_pred(GraphemeClass::BinDigit));
    } else if is_g(gs, i, '0') && is_g(gs, i + 1, 'o') {
        lemma_body_end(gs, i + 2, class_pred(GraphemeClass::OctDigit));
    } else if is_g(gs, i, '0') && is_g(gs, i + 1, 'x') {
        lemma_body_end(gs, i + 2, class_pred(GraphemeClass::HexDigit));
    } else {
        lemma_body_end(gs, i, class_pred(GraphemeClass::Digit));
        lemma_body_end(gs, i + 1, class_pred(GraphemeClass::Digit));
        let d = body_end(gs, i, class_pred(GraphemeClass::Digit));
        assert(class_spec(GraphemeClass::Digit, gs[i]));
        assert(d > i);
        let frac = is_g(gs, d, '.') && d + 1 < gs.len() && digit_grapheme(gs[d + 1]);
        let d2 = if frac {
            body_end(gs, d + 1, class_pred(GraphemeClass::Digit))
        } else {
            d
        };
        if frac {
            lemma_body_end(gs, d + 1, class_pred(GraphemeClass::Digit));
        }
        if is_g(gs, d2, 'e') {
            let ep = if is_g(gs, d2 + 1, '-') {
                d2 + 2
            } else {
                d2 + 1
            };
            lemma_run_end(gs, ep, class_pred(GraphemeClass::Digit));
        }
    }
}

/// A comment scan yields a comment token, or an incomplete-block-comment
/// error, and always ends past its start and inside the input.
pub proof fn lemma_comment_scan(gs: Seq<Seq<char>>, i: int)
    requires
        0 <= i < gs.len(),
        is_g(gs, i, '#'),
    ensures
        match comment_scan(gs, i) {
            Scan::Absent => false,
            Scan::Token { kind, end } => (kind == TokenKind::CommentLine || kind
                == TokenKind::CommentBlock) && i < end <= gs.len(),
            Scan::Error { error, token_kind, end } => error == LexerErrorKind::Incomplete
                && token_kind == Some(TokenKind::CommentBlock) && i < end <= gs.len(),
        },
{
    if is_g(gs, i + 1, '[') && is_g(gs, i + 2, '[') {
        lemma_block_scan(gs, i + 3, 1);
    } else {
        lemma_run_end(gs, i, class_pred(GraphemeClass::NotNewline));
        lemma_single_scalar_grapheme('#');
        lemma_single_scalar_grapheme('\n');
        lemma_two_scalar_grapheme('\r', '\n');
        assert(class_spec(GraphemeClass::NotNewline, gs[i]));
        assert(run_end(gs, i, class_pred(GraphemeClass::NotNewline)) != i);
    }
}

/// A string scan yields a string token, or an incomplete error naming a
/// string kind, and always ends past its start and inside the input.
pub proof fn lemma_string_scan(gs: Seq<Seq<char>>, i: int)
    requires
        0 <= i < gs.len(),
        string_start(gs, i),
    ensures
        match string_scan(gs, i) {
            Scan::Absent => false,
            Scan::Token { kind, end } => (kind == TokenKind::StringSingle || kind
                == TokenKind::StringMulti || kind == TokenKind::StringSmart) && i < end
                <= gs.len(),
            Scan::Error { error, token_kind, end } => error == LexerErrorKind::Incomplete && i
                < end <= gs.len() && (token_kind == Some(TokenKind::StringSingle) || token_kind
                == Some(TokenKind::StringMulti) || token_kind == Some(TokenKind::StringSmart)),
        },
{
    if is_g(gs, i, '@') {
        lemma_single_scalar_grapheme('@');
        lemma_single_scalar_grapheme('"');
        assert(!is_g(gs, i, '"'));
        assert(is_g(gs, i + 3, '"'));
        lemma_triple_scan(gs, i + 4, TokenKind::StringSmart);
    } else if is_g(gs, i + 1, '"') && is_g(gs, i + 2, '"') {
        lemma_triple_scan(gs, i + 3, TokenKind::StringMulti);
    } else {
        lemma_single_scan(gs, i + 1);
    }
}

/// An operator match names an operator/punctuation kind and ends past its
/// start and inside the input.
pub proof fn lemma_op_scan(gs: Seq<Seq<char>>, i: int)
    ensures
        match op_scan(gs, i) {
            Some(ke) => i < ke.1 <= gs.len() && op_punc_kind(ke.0),
            None => true,
        },
{
}

/// The end of an unknown-sequence run lies between its start and the end of
/// the input, and a production matches there unless it is the end of the
/// input.
pub proof fn lemma_unknown_end(gs: Seq<Seq<char>>, j: int)
    requires
        0 <= j <= gs.len(),
    ensures
        j <= unknown_end(gs, j) <= gs.len(),
        unknown_end(gs, j) == gs.len() || production_at(gs, unknown_end(gs, j)),
    decreases gs.len() - j,
{
    if !(j >= gs.len() || production_at(gs, j)) {
        lemma_unknown_end(gs, j + 1);
    }
}

/// Monotone progress: a step taken inside the input always consumes at
/// least one grapheme and never passes the end of the input; the
/// end-of-input marker appears exactly at the end of the input.
pub proof fn lemma_next_spec_progress(gs: Seq<Seq<char>>, i: int)
    requires
        0 <= i,
    ensures
        match next_spec(gs, i) {
            Scan::Absent => i >= gs.len(),
            Scan::Token { kind, end } => i < end <= gs.len(),
            Scan::Error { error, token_kind, end } => i < end <= gs.len(),
        },
{
    reveal(next_spec);
    if i >= gs.len() {
    } else if space_grapheme(gs[i]) {
        lemma_run_end(gs, i, class_pred(GraphemeClass::SpaceTab));
        assert(class_spec(GraphemeClass::SpaceTab, gs[i]));
        assert(run_end(gs, i, class_pred(GraphemeClass::SpaceTab)) != i);
    } else if newline_grapheme(gs[i]) {
    } else if is_g(gs, i, '#') {
        lemma_comment_scan(gs, i);
    } else if alpha_grapheme(gs[i]) {
        lemma_name_scan(gs, i);
    } else if digit_grapheme(gs[i]) {
        lemma_number_scan(gs, i);
    } else if string_start(gs, i) {
        lemma_string_scan(gs, i);
    } else {
        match op_scan(gs, i) {
            Some(ke) => {
                lemma_op_scan(gs, i);
            },
            None => {
                lemma_unknown_end(gs, i + 1);
            },
        }
    }
}

/// Error coalescing: the step after an unknown-sequence error is never
/// another unknown-sequence error.
pub proof fn lemma_no_consecutive_unknown(gs: Seq<Seq<char>>, i: int)
    requires
        0 <= i,
        next_spec(gs, i) matches Scan::Error { error: LexerErrorKind::UnknownSequence, .. },
    ensures
        !(next_spec(gs, scan_end(next_spec(gs, i))) matches Scan::Error {
            error: LexerErrorKind::UnknownSequence,
            ..
        }),
{
    reveal(next_spec);
    if i < gs.len() {
        if is_g(gs, i, '#') {
            lemma_comment_scan(gs, i);
        } else if alpha_grapheme(gs[i]) {
            lemma_name_scan(gs, i);
        } else if digit_grapheme(gs[i]) {
            lemma_number_scan(gs, i);
        } else if string_start(gs, i) {
            lemma_string_scan(gs, i);
        }
    }
    // the step at `i` can only be an unknown-sequence error through the
    // fallthrough branch, so no production matches at `i`
    let e = scan_end(next_spec(gs, i));
    assert(e == unknown_end(gs, i + 1));
    lemma_unknown_end(gs, i + 1);
    if e == gs.len() {
    } else {
        assert(production_at(gs, e));
        if space_grapheme(gs[e]) {
        } else if newline_grapheme(gs[e]) {
        } else if is_g(gs, e, '#') {
            lemma_comment_scan(gs, e);
        } else if alpha_grapheme(gs[e]) {
            lemma_name_scan(gs, e);
        } else if digit_grapheme(gs[e]) {
            lemma_number_scan(gs, e);
        } else if string_start(gs, e) {
            lemma_string_scan(gs, e);
        } else {
            assert(op_scan(gs, e) is Some);
        }
    }
}

/// Operator greediness: wherever the graphemes of a longer operator stand,
/// a step there produces the longer operator as one token, never its
/// shorter prefix followed by the rest.
pub proof fn lemma_operator_greedy(gs: Seq<Seq<char>>, i: int)
    requires
        0 <= i,
    ensures
        is_g(gs, i, '&') && is_g(gs, i + 1, '&') ==> next_spec(gs, i) == (Scan::Token {
            kind: TokenKind::AmpAmp,
            end: i + 2,
        }),
        is_g(gs, i, '@') && is_g(gs, i + 1, '@') ==> next_spec(gs, i) == (Scan::Token {
            kind: TokenKind::AtAt,
            end: i + 2,
        }),
        is_g(gs, i, '@') && is_g(gs, i + 1, '{') ==> next_spec(gs, i) == (Scan::Token {
            kind: TokenKind::AtBraceL,
            end: i + 2,
        }),
        is_g(gs, i, '!') && is_g(gs, i + 1, '=') ==> next_spec(gs, i) == (Scan::Token {
            kind: TokenKind::BangEq,
            end: i + 2,
        }),
        is_g(gs, i, '=') && is_g(gs, i + 1, '=') ==> next_spec(gs, i) == (Scan::Token {
            kind: TokenKind::EqEq,
            end: i + 2,
        }),
        is_g(gs, i, '<') && is_g(gs, i + 1, '=') && is_g(gs, i + 2, '>') ==> next_spec(gs, i) == (
        Scan::Token { kind: TokenKind::LtEqGt, end: i + 3 }),
        is_g(gs, i, '<') && is_g(gs, i + 1, '=') && !is_g(gs, i + 2, '>') ==> next_spec(gs, i) == (
        Scan::Token { kind: TokenKind::LtEq, end: i + 2 }),
        is_g(gs, i, '<') && is_g(gs, i + 1, '<') ==> next_spec(gs, i) == (Scan::Token {
            kind: TokenKind::LtLt,
            end: i + 2,
        }),
        is_g(gs, i, '>') && is_g(gs, i + 1, '=') ==> next_spec(gs, i) == (Scan::Token {
            kind: TokenKind::GtEq,
            end: i + 2,
        }),
        is_g(gs, i, '>') && is_g(gs, i + 1, '>') ==> next_spec(gs, i) == (Scan::Token {
            kind: TokenKind::GtGt,
            end: i + 2,
        }),
        is_g(gs, i, '|') && is_g(gs, i + 1, '|') ==> next_spec(gs, i) == (Scan::Token {
            kind: TokenKind::PipePipe,
            end: i + 2,
        }),
        is_g(gs, i, '?') && is_g(gs, i + 1, '=') ==> next_spec(gs, i) == (Scan::Token {
            kind: TokenKind::QuestionEq,
            end: i + 2,
        }),
        is_g(gs, i, ':') && is_g(gs, i + 1, ':') ==> next_spec(gs, i) == (Scan::Token {
            kind: TokenKind::ColonColon,
            end: i + 2,
        }),
        is_g(gs, i, '*') && is_g(gs, i + 1, '*') ==> next_spec(gs, i) == (Scan::Token {
            kind: TokenKind::StarStar,
            end: i + 2,
        }),
        is_g(gs, i, '/') && is_g(gs, i + 1, '/') ==> next_spec(gs, i) == (Scan::Token {
            kind: TokenKind::SlashSlash,
            end: i + 2,
        }),
{
    reveal(next_spec);
}

} // verus!
