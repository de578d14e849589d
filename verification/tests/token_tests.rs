use kaki::compiler::span::Span;
use kaki::compiler::token::{Token, TokenKind};
use kaki::edition::Edition;

#[test]
fn test_token_new() {
    assert_eq!(
        Token::new("hello", TokenKind::NameLower, Span::new(5, 10)),
        Token { text: String::from("hello"), kind: TokenKind::NameLower, span: Span::new(5, 10) }
    );
}

#[test]
fn test_span_new() {
    let s = Span::new(3, 7);
    assert_eq!(s.start, 3);
    assert_eq!(s.end, 7);
    assert_eq!(s, Span::new(3, 7));
}

#[test]
fn test_edition_latest() {
    assert_eq!(Edition::latest(), Edition::Edition1);
}

fn all_kinds() -> Vec<TokenKind> {
    vec![
        TokenKind::Space,
        TokenKind::NewLine,
        TokenKind::CommentLine,
        TokenKind::CommentBlock,
        TokenKind::NameLower,
        TokenKind::NameUpper,
        TokenKind::NameUnderscore,
        TokenKind::NameAnon,
        TokenKind::IntBin,
        TokenKind::IntOct,
        TokenKind::IntDec,
        TokenKind::IntHex,
        TokenKind::Float,
        TokenKind::StringSingle,
        TokenKind::StringMulti,
        TokenKind::StringSmart,
        TokenKind::Amp,
        TokenKind::AmpAmp,
        TokenKind::At,
        TokenKind::AtAt,
        TokenKind::AtBraceL,
        TokenKind::Bang,
        TokenKind::BangEq,
        TokenKind::BracketL,
        TokenKind::BracketR,
        TokenKind::BraceL,
        TokenKind::BraceR,
        TokenKind::BackSlash,
        TokenKind::Caret,
        TokenKind::Colon,
        TokenKind::ColonColon,
        TokenKind::Comma,
        TokenKind::Dot,
        TokenKind::Eq,
        TokenKind::EqEq,
        TokenKind::Gt,
        TokenKind::GtEq,
        TokenKind::GtGt,
        TokenKind::Lt,
        TokenKind::LtEq,
        TokenKind::LtEqGt,
        TokenKind::LtLt,
        TokenKind::Minus,
        TokenKind::ParenL,
        TokenKind::ParenR,
        TokenKind::Percent,
        TokenKind::Pipe,
        TokenKind::PipePipe,
        TokenKind::Plus,
        TokenKind::Question,
        TokenKind::QuestionEq,
        TokenKind::Semicolon,
        TokenKind::Slash,
        TokenKind::SlashSlash,
        TokenKind::Star,
        TokenKind::StarStar,
        TokenKind::Tilde,
    ]
}

#[test]
fn test_whitespace_kinds() {
    for k in all_kinds() {
        let expected = matches!(k, TokenKind::Space | TokenKind::NewLine);
        assert_eq!(k.is_whitespace(), expected);
    }
}

#[test]
fn test_word_kinds() {
    for k in all_kinds() {
        let expected = matches!(
            k,
            TokenKind::NameLower
                | TokenKind::NameUpper
                | TokenKind::NameUnderscore
                | TokenKind::NameAnon
        );
        assert_eq!(k.is_word(), expected);
    }
}

#[test]
fn test_op_punc_excludes_whitespace_comments_words_and_literals() {
    assert!(TokenKind::Amp.is_op_punc());
    assert!(TokenKind::Semicolon.is_op_punc());
    assert!(TokenKind::LtEqGt.is_op_punc());
    assert!(!TokenKind::Space.is_op_punc());
    assert!(!TokenKind::NewLine.is_op_punc());
    assert!(!TokenKind::CommentLine.is_op_punc());
    assert!(!TokenKind::NameLower.is_op_punc());
    assert!(!TokenKind::IntDec.is_op_punc());
    assert!(!TokenKind::StringSingle.is_op_punc());
}

#[test]
fn test_boundary_is_whitespace_or_op_punc() {
    for k in all_kinds() {
        assert_eq!(k.is_boundary(), k.is_whitespace() || k.is_op_punc());
        // the three classes are pairwise disjoint
        assert!(!(k.is_whitespace() && k.is_word()));
        assert!(!(k.is_whitespace() && k.is_op_punc()));
        assert!(!(k.is_word() && k.is_op_punc()));
    }
}
