//! Facilities for dealing with tokens directly.

use vstd::prelude::*;
use super::span::Span;

verus! {

/// The kind of a token.
#[derive(Clone, Copy, Debug, PartialEq, Eq, Structural)]
pub enum TokenKind {
    /// Only tabs and spaces.
    Space,
    /// One `\n` or `\r\n` sequence.
    NewLine,
    /// One line comment, not including the newline.
    CommentLine,
    /// One block comment, including all nested comments.
    CommentBlock,
    /// A name that starts with a lowercase letter.
    NameLower,
    /// A name that starts with an uppercase letter.
    NameUpper,
    /// A name that only consists of one underscore.
    NameUnderscore,
    /// A name that is an underscore run followed by digits.
    NameAnon,
    /// A binary integral value.
    IntBin,
    /// An octal integral value.
    IntOct,
    /// A decimal integral value.
    IntDec,
    /// A hexadecimal integral value.
    IntHex,
    /// A floating point value.
    Float,
    /// A single line string, including quotes.
    StringSingle,
    /// A multiline string, including quotes.
    StringMulti,
    /// A smart string, including quotes.
    StringSmart,
    /// One `&`.
    Amp,
    /// One `&&`.
    AmpAmp,
    /// One `@`.
    At,
    /// One `@@`.
    AtAt,
    /// One `@{`.
    AtBraceL,
    /// One `!`.
    Bang,
    /// One `!=`.
    BangEq,
    /// One `[`.
    BracketL,
    /// One `]`.
    BracketR,
    /// One `{`.
    BraceL,
    /// One `}`.
    BraceR,
    /// One `\`.
    BackSlash,
    /// One `^`.
    Caret,
    /// One `:`.
    Colon,
    /// One `::`.
    ColonColon,
    /// One `,`.
    Comma,
    /// One `.`.
    Dot,
    /// One `=`.
    Eq,
    /// One `==`.
    EqEq,
    /// One `>`.
    Gt,
    /// One `>=`.
    GtEq,
    /// One `>>`.
    GtGt,
    /// One `<`.
    Lt,
    /// One `<=`.
    LtEq,
    /// One `<=>`.
    LtEqGt,
    /// One `<<`.
    LtLt,
    /// One `-`.
    Minus,
    /// One `(`.
    ParenL,
    /// One `)`.
    ParenR,
    /// One `%`.
    Percent,
    /// One `|`.
    Pipe,
    /// One `||`.
    PipePipe,
    /// One `+`.
    Plus,
    /// One `?`.
    Question,
    /// One `?=`.
    QuestionEq,
    /// One `;`.
    Semicolon,
    /// One `/`.
    Slash,
    /// One `//`.
    SlashSlash,
    /// One `*`.
    Star,
    /// One `**`.
    StarStar,
    /// One `~`.
    Tilde,
}

/// A whitespace kind: a space run or a line break.
pub open spec fn whitespace_kind(k: TokenKind) -> bool {
    k == TokenKind::Space || k == TokenKind::NewLine
}

/// A word kind: one of the four name forms.
pub open spec fn word_kind(k: TokenKind) -> bool {
    ||| k == TokenKind::NameLower
    ||| k == TokenKind::NameUpper
    ||| k == TokenKind::NameUnderscore
    ||| k == TokenKind::NameAnon
}

/// An operator or punctuation kind. Whitespace kinds are not included.
pub open spec fn op_punc_kind(k: TokenKind) -> bool {
    match k {
        TokenKind::Amp => true,
        TokenKind::AmpAmp => true,
        TokenKind::At => true,
        TokenKind::AtAt => true,
        TokenKind::AtBraceL => true,
        TokenKind::Bang => true,
        TokenKind::BangEq => true,
        TokenKind::BracketL => true,
        TokenKind::BracketR => true,
        TokenKind::BraceL => true,
        TokenKind::BraceR => true,
        TokenKind::BackSlash => true,
        TokenKind::Caret => true,
        TokenKind::Colon => true,
        TokenKind::ColonColon => true,
        TokenKind::Comma => true,
        TokenKind::Dot => true,
        TokenKind::Eq => true,
        TokenKind::EqEq => true,
        TokenKind::Gt => true,
        TokenKind::GtEq => true,
        TokenKind::GtGt => true,
        TokenKind::Lt => true,
        TokenKind::LtEq => true,
        TokenKind::LtEqGt => true,
        TokenKind::LtLt => true,
        TokenKind::Minus => true,
        TokenKind::ParenL => true,
        TokenKind::ParenR => true,
        TokenKind::Percent => true,
        TokenKind::Pipe => true,
        TokenKind::PipePipe => true,
        TokenKind::Plus => true,
        TokenKind::Question => true,
        TokenKind::QuestionEq => true,
        TokenKind::Semicolon => true,
        TokenKind::Slash => true,
        TokenKind::SlashSlash => true,
        TokenKind::Star => true,
        TokenKind::StarStar => true,
        TokenKind::Tilde => true,
        _ => false,
    }
}

/// A boundary kind: whitespace or operator/punctuation. A downstream parser
/// uses boundary tokens to delimit composite constructs.
pub open spec fn boundary_kind(k: TokenKind) -> bool {
    whitespace_kind(k) || op_punc_kind(k)
}

impl TokenKind {
    /// Test whether this kind is whitespace (`Space` or `NewLine`).
    pub fn is_whitespace(&self) -> (r: bool)
        ensures
            r == whitespace_kind(*self),
    {
        match self {
            TokenKind::Space => true,
            TokenKind::NewLine => true,
            _ => false,
        }
    }

    /// Test whether this kind is one of the four name forms.
    pub fn is_word(&self) -> (r: bool)
        ensures
            r == word_kind(*self),
    {
        match self {
            TokenKind::NameLower => true,
            TokenKind::NameUpper => true,
            TokenKind::NameUnderscore => true,
            TokenKind::NameAnon => true,
            _ => false,
        }
    }

    /// Test whether this kind is an operator or punctuation kind.
    pub fn is_op_punc(&self) -> (r: bool)
        ensures
            r == op_punc_kind(*self),
    {
        match self {
            TokenKind::Amp | TokenKind::AmpAmp | TokenKind::At | TokenKind::AtAt
            | TokenKind::AtBraceL | TokenKind::Bang | TokenKind::BangEq | TokenKind::BracketL
            | TokenKind::BracketR | TokenKind::BraceL | TokenKind::BraceR | TokenKind::BackSlash
            | TokenKind::Caret | TokenKind::Colon | TokenKind::ColonColon | TokenKind::Comma
            | TokenKind::Dot | TokenKind::Eq | TokenKind::EqEq | TokenKind::Gt | TokenKind::GtEq
            | TokenKind::GtGt | TokenKind::Lt | TokenKind::LtEq | TokenKind::LtEqGt
            | TokenKind::LtLt | TokenKind::Minus | TokenKind::ParenL | TokenKind::ParenR
            | TokenKind::Percent | TokenKind::Pipe | TokenKind::PipePipe | TokenKind::Plus
            | TokenKind::Question | TokenKind::QuestionEq | TokenKind::Semicolon
            | TokenKind::Slash | TokenKind::SlashSlash | TokenKind::Star | TokenKind::StarStar
            | TokenKind::Tilde => true,
            _ => false,
        }
    }

    /// Test whether this kind is a boundary kind: whitespace or operator/
    /// punctuation.
    pub fn is_boundary(&self) -> (r: bool)
        ensures
            r == boundary_kind(*self),
    {
        self.is_whitespace() || self.is_op_punc()
    }
}

/// The classifier predicates obey these laws: a kind is a boundary kind
/// exactly when it is a whitespace kind or an operator/punctuation kind, and
/// the whitespace, word, and operator/punctuation classes are pairwise
/// disjoint.
pub proof fn lemma_kind_classes(k: TokenKind)
    ensures
        boundary_kind(k) == (whitespace_kind(k) || op_punc_kind(k)),
        !(whitespace_kind(k) && word_kind(k)),
        !(whitespace_kind(k) && op_punc_kind(k)),
        !(word_kind(k) && op_punc_kind(k)),
{
}

/// A token of source code.
#[derive(Clone, Debug, PartialEq)]
pub struct Token {
    /// The text of the token.
    pub text: String,

    /// The kind of the token.
    pub kind: TokenKind,

    /// The location of the token.
    pub span: Span,
}

impl Token {
    /// Create a new [`Token`].
    ///
    /// # Arguments
    ///
    /// * `text` - The text of the token.
    /// * `kind` - The kind of the token.
    /// * `span` - The location of the token in the source.
    ///
    /// # Returns
    ///
    /// A new [`Token`].
    pub fn new(text: &str, kind: TokenKind, span: Span) -> (r: Token)
        ensures
            r.text@ == text@,
            r.kind == kind,
            r.span == span,
    {
        Token { text: text.to_owned(), kind, span }
    }
}

} // verus!
