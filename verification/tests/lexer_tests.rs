use kaki::compiler::edition1::{tokenize, LexerEdition1};
use kaki::compiler::grammar::GraphemeClass;
use kaki::compiler::lexer::{LexerBase, LexerError, LexerErrorKind, LexerResult};
use kaki::compiler::span::Span;
use kaki::compiler::token::TokenKind;
use kaki::edition::Edition;

fn expect_token(x: &LexerResult, kind: TokenKind, text: &str) {
    match x {
        LexerResult::Token(t) => {
            assert_eq!(t.kind, kind);
            assert_eq!(t.text, text);
        },
        LexerResult::Error(e) => panic!("expected a token, got the error {:?}", e),
    }
}

fn expect_error(x: &LexerResult, kind: LexerErrorKind, token_kind: Option<TokenKind>, text: &str) {
    match x {
        LexerResult::Token(t) => panic!("expected an error, got the token {:?}", t),
        LexerResult::Error(e) => {
            assert_eq!(e.kind, kind);
            assert_eq!(e.token_kind, token_kind);
            assert_eq!(e.text, text);
        },
    }
}

fn result_span(x: &LexerResult) -> Span {
    match x {
        LexerResult::Token(t) => t.span,
        LexerResult::Error(e) => e.span,
    }
}

fn result_text(x: &LexerResult) -> &str {
    match x {
        LexerResult::Token(t) => &t.text,
        LexerResult::Error(e) => &e.text,
    }
}

#[test]
fn test_two_names_and_a_space() {
    let r = tokenize("foo bar");
    assert_eq!(r.len(), 3);
    expect_token(&r[0], TokenKind::NameLower, "foo");
    expect_token(&r[1], TokenKind::Space, " ");
    expect_token(&r[2], TokenKind::NameLower, "bar");
    assert_eq!(result_span(&r[0]), Span::new(0, 3));
    assert_eq!(result_span(&r[1]), Span::new(3, 4));
    assert_eq!(result_span(&r[2]), Span::new(4, 7));
}

#[test]
fn test_upper_name_with_trailer_is_invalid() {
    let r = tokenize("Foo?");
    assert_eq!(r.len(), 1);
    expect_error(&r[0], LexerErrorKind::Invalid, Some(TokenKind::NameUpper), "Foo?");
}

#[test]
fn test_hex_integer_with_separator() {
    let r = tokenize("0xFF_00");
    assert_eq!(r.len(), 1);
    expect_token(&r[0], TokenKind::IntHex, "0xFF_00");
}

#[test]
fn test_float_with_fraction_and_exponent() {
    let r = tokenize("1.5e-3");
    assert_eq!(r.len(), 1);
    expect_token(&r[0], TokenKind::Float, "1.5e-3");
}

#[test]
fn test_nested_block_comment() {
    let r = tokenize("#[[ a #[[ b ]] c ]]");
    assert_eq!(r.len(), 1);
    expect_token(&r[0], TokenKind::CommentBlock, "#[[ a #[[ b ]] c ]]");
}

#[test]
fn test_single_string_with_escaped_quote() {
    let r = tokenize("\"a\\\"b\"");
    assert_eq!(r.len(), 1);
    expect_token(&r[0], TokenKind::StringSingle, "\"a\\\"b\"");
}

#[test]
fn test_shift_then_eq_not_three_way() {
    let r = tokenize("<<=");
    assert_eq!(r.len(), 2);
    expect_token(&r[0], TokenKind::LtLt, "<<");
    expect_token(&r[1], TokenKind::Eq, "=");
}

#[test]
fn test_three_way_comparison_single_token() {
    let r = tokenize("<=>");
    assert_eq!(r.len(), 1);
    expect_token(&r[0], TokenKind::LtEqGt, "<=>");
}

#[test]
fn test_multiline_string() {
    let r = tokenize("\"\"\"x\"\"\"");
    assert_eq!(r.len(), 1);
    expect_token(&r[0], TokenKind::StringMulti, "\"\"\"x\"\"\"");
}

#[test]
fn test_radix_prefix_with_empty_body() {
    let r = tokenize("0b");
    assert_eq!(r.len(), 1);
    expect_error(&r[0], LexerErrorKind::Incomplete, Some(TokenKind::IntBin), "0b");
}

#[test]
fn test_unknown_graphemes_coalesce() {
    let r = tokenize("\u{a7}\u{a7}\u{a7}a");
    assert_eq!(r.len(), 2);
    expect_error(&r[0], LexerErrorKind::UnknownSequence, None, "\u{a7}\u{a7}\u{a7}");
    expect_token(&r[1], TokenKind::NameLower, "a");
    assert_eq!(result_span(&r[0]), Span::new(0, 3));
    assert_eq!(result_span(&r[1]), Span::new(3, 4));
}

#[test]
fn test_two_underscores_are_invalid() {
    let r = tokenize("__");
    assert_eq!(r.len(), 1);
    expect_error(&r[0], LexerErrorKind::Invalid, Some(TokenKind::NameUnderscore), "__");
}

#[test]
fn test_coverage_reconstructs_source() {
    let src = "let x = 1.5e-3 # note\n\"s\" @{ __a 0o77 \u{a7}\u{b6} end";
    let r = tokenize(src);
    let mut joined = String::new();
    for x in &r {
        joined.push_str(result_text(x));
    }
    assert_eq!(joined, src);
    // adjacent spans meet, starting at zero
    let mut at = 0;
    for x in &r {
        let s = result_span(x);
        assert_eq!(s.start, at);
        assert!(s.end > s.start);
        at = s.end;
    }
}

#[test]
fn test_operator_greediness() {
    let cases: Vec<(&str, TokenKind)> = vec![
        ("&&", TokenKind::AmpAmp),
        ("@@", TokenKind::AtAt),
        ("@{", TokenKind::AtBraceL),
        ("!=", TokenKind::BangEq),
        ("==", TokenKind::EqEq),
        ("<=>", TokenKind::LtEqGt),
        ("<=", TokenKind::LtEq),
        ("<<", TokenKind::LtLt),
        (">=", TokenKind::GtEq),
        (">>", TokenKind::GtGt),
        ("||", TokenKind::PipePipe),
        ("?=", TokenKind::QuestionEq),
        ("::", TokenKind::ColonColon),
        ("//", TokenKind::SlashSlash),
        ("**", TokenKind::StarStar),
    ];
    for (src, kind) in cases {
        let r = tokenize(src);
        assert_eq!(r.len(), 1, "input {:?} must be one token", src);
        expect_token(&r[0], kind, src);
    }
}

#[test]
fn test_single_operators_and_semicolon() {
    // ordered so that no adjacent pair spells a multi-grapheme operator
    let r = tokenize("&.@,!-=^<~>(/)*[|]?{:}\\;%+");
    let expected = vec![
        (TokenKind::Amp, "&"),
        (TokenKind::Dot, "."),
        (TokenKind::At, "@"),
        (TokenKind::Comma, ","),
        (TokenKind::Bang, "!"),
        (TokenKind::Minus, "-"),
        (TokenKind::Eq, "="),
        (TokenKind::Caret, "^"),
        (TokenKind::Lt, "<"),
        (TokenKind::Tilde, "~"),
        (TokenKind::Gt, ">"),
        (TokenKind::ParenL, "("),
        (TokenKind::Slash, "/"),
        (TokenKind::ParenR, ")"),
        (TokenKind::Star, "*"),
        (TokenKind::BracketL, "["),
        (TokenKind::Pipe, "|"),
        (TokenKind::BracketR, "]"),
        (TokenKind::Question, "?"),
        (TokenKind::BraceL, "{"),
        (TokenKind::Colon, ":"),
        (TokenKind::BraceR, "}"),
        (TokenKind::BackSlash, "\\"),
        (TokenKind::Semicolon, ";"),
        (TokenKind::Percent, "%"),
        (TokenKind::Plus, "+"),
    ];
    assert_eq!(r.len(), expected.len());
    for (x, (kind, text)) in r.iter().zip(expected) {
        expect_token(x, kind, text);
    }
}

#[test]
fn test_name_forms() {
    let r = tokenize("foo Bar _ _1 _foo fooBar Foo! _1a ok!");
    let expected: Vec<(bool, TokenKind, &str)> = vec![
        (true, TokenKind::NameLower, "foo"),
        (true, TokenKind::Space, " "),
        (true, TokenKind::NameUpper, "Bar"),
        (true, TokenKind::Space, " "),
        (true, TokenKind::NameUnderscore, "_"),
        (true, TokenKind::Space, " "),
        (true, TokenKind::NameAnon, "_1"),
        (true, TokenKind::Space, " "),
        (true, TokenKind::NameLower, "_foo"),
        (true, TokenKind::Space, " "),
        (false, TokenKind::NameLower, "fooBar"),
        (true, TokenKind::Space, " "),
        (false, TokenKind::NameUpper, "Foo!"),
        (true, TokenKind::Space, " "),
        (false, TokenKind::NameAnon, "_1a"),
        (true, TokenKind::Space, " "),
        (true, TokenKind::NameLower, "ok!"),
    ];
    assert_eq!(r.len(), expected.len());
    for (x, (ok, kind, text)) in r.iter().zip(expected) {
        if ok {
            expect_token(x, kind, text);
        } else {
            expect_error(x, LexerErrorKind::Invalid, Some(kind), text);
        }
    }
}

#[test]
fn test_numbers() {
    let r = tokenize("0 12_3 0b10 0o77 0xF_e 1.5 2e9 3e-1 1e 0x");
    let expected: Vec<(bool, TokenKind, &str)> = vec![
        (true, TokenKind::IntDec, "0"),
        (true, TokenKind::Space, " "),
        (true, TokenKind::IntDec, "12_3"),
        (true, TokenKind::Space, " "),
        (true, TokenKind::IntBin, "0b10"),
        (true, TokenKind::Space, " "),
        (true, TokenKind::IntOct, "0o77"),
        (true, TokenKind::Space, " "),
        (true, TokenKind::IntHex, "0xF_e"),
        (true, TokenKind::Space, " "),
        (true, TokenKind::Float, "1.5"),
        (true, TokenKind::Space, " "),
        (true, TokenKind::Float, "2e9"),
        (true, TokenKind::Space, " "),
        (true, TokenKind::Float, "3e-1"),
        (true, TokenKind::Space, " "),
        (false, TokenKind::Float, "1e"),
        (true, TokenKind::Space, " "),
        (false, TokenKind::IntHex, "0x"),
    ];
    assert_eq!(r.len(), expected.len());
    for (x, (ok, kind, text)) in r.iter().zip(expected) {
        if ok {
            expect_token(x, kind, text);
        } else {
            expect_error(x, LexerErrorKind::Incomplete, Some(kind), text);
        }
    }
}

#[test]
fn test_trailing_underscore_leaves_the_number() {
    let r = tokenize("1_");
    assert_eq!(r.len(), 2);
    expect_token(&r[0], TokenKind::IntDec, "1");
    expect_token(&r[1], TokenKind::NameUnderscore, "_");
}

#[test]
fn test_comments() {
    let r = tokenize("# note\n#[[x");
    assert_eq!(r.len(), 3);
    expect_token(&r[0], TokenKind::CommentLine, "# note");
    expect_token(&r[1], TokenKind::NewLine, "\n");
    expect_error(&r[2], LexerErrorKind::Incomplete, Some(TokenKind::CommentBlock), "#[[x");
}

#[test]
fn test_unterminated_strings() {
    let r = tokenize("\"abc");
    assert_eq!(r.len(), 1);
    expect_error(&r[0], LexerErrorKind::Incomplete, Some(TokenKind::StringSingle), "\"abc");
    let r2 = tokenize("@\"\"\"abc");
    assert_eq!(r2.len(), 1);
    expect_error(&r2[0], LexerErrorKind::Incomplete, Some(TokenKind::StringSmart), "@\"\"\"abc");
}

#[test]
fn test_smart_string() {
    let r = tokenize("@\"\"\"a\nb\"\"\"");
    assert_eq!(r.len(), 1);
    expect_token(&r[0], TokenKind::StringSmart, "@\"\"\"a\nb\"\"\"");
}

#[test]
fn test_crlf_is_one_newline_grapheme() {
    let r = tokenize("a\r\nb");
    assert_eq!(r.len(), 3);
    expect_token(&r[0], TokenKind::NameLower, "a");
    expect_token(&r[1], TokenKind::NewLine, "\r\n");
    expect_token(&r[2], TokenKind::NameLower, "b");
    assert_eq!(result_span(&r[1]), Span::new(1, 2));
    assert_eq!(result_span(&r[2]), Span::new(2, 3));
}

#[test]
fn test_carriage_return_alone_is_unknown() {
    let r = tokenize("\ra");
    assert_eq!(r.len(), 2);
    expect_error(&r[0], LexerErrorKind::UnknownSequence, None, "\r");
    expect_token(&r[1], TokenKind::NameLower, "a");
}

#[test]
fn test_combining_mark_makes_one_grapheme() {
    // `e` followed by a combining acute accent is a single grapheme
    // cluster, so it is no ASCII letter and spans one offset
    let r = tokenize("e\u{301}ab");
    assert_eq!(r.len(), 2);
    expect_error(&r[0], LexerErrorKind::UnknownSequence, None, "e\u{301}");
    expect_token(&r[1], TokenKind::NameLower, "ab");
    assert_eq!(result_span(&r[0]), Span::new(0, 1));
    assert_eq!(result_span(&r[1]), Span::new(1, 3));
}

#[test]
fn test_tokenize_empty_source() {
    let r = tokenize("");
    assert_eq!(r.len(), 0);
}

#[test]
fn test_engine_next_token_stream() {
    let mut lx = LexerEdition1::new("a b");
    assert_eq!(lx.source(), "a b");
    assert_eq!(lx.edition(), Edition::Edition1);
    match lx.next_token() {
        Some(LexerResult::Token(t)) => assert_eq!(t.kind, TokenKind::NameLower),
        other => panic!("unexpected {:?}", other),
    }
    match lx.next_token() {
        Some(LexerResult::Token(t)) => assert_eq!(t.kind, TokenKind::Space),
        other => panic!("unexpected {:?}", other),
    }
    match lx.next_token() {
        Some(LexerResult::Token(t)) => assert_eq!(t.kind, TokenKind::NameLower),
        other => panic!("unexpected {:?}", other),
    }
    assert!(lx.next_token().is_none());
    assert!(lx.next_token().is_none());
}

#[test]
fn test_base_cursor_primitives() {
    let mut b = LexerBase::new("ab");
    assert_eq!(b.source(), "ab");
    assert_eq!(b.prev(), None);
    assert_eq!(b.peek(), Some(String::from("a")));
    assert_eq!(b.next(), Some(String::from("a")));
    assert_eq!(b.prev(), Some(String::from("a")));
    b.mark();
    assert_eq!(b.next(), Some(String::from("b")));
    assert_eq!(b.span(), Span::new(1, 2));
    assert_eq!(b.text(), "b");
    assert_eq!(b.next(), None);
    assert_eq!(b.peek(), None);
}

#[test]
fn test_base_extract_and_error() {
    let mut b = LexerBase::new("hi!");
    b.next();
    b.next();
    match b.extract(TokenKind::NameLower) {
        Some(Ok(t)) => {
            assert_eq!(t.text, "hi");
            assert_eq!(t.kind, TokenKind::NameLower);
            assert_eq!(t.span, Span::new(0, 2));
        },
        other => panic!("unexpected {:?}", other),
    }
    match b.error(LexerErrorKind::Invalid, Some(TokenKind::NameLower)) {
        Some(Err(e)) => {
            assert_eq!(e.text, "hi");
            assert_eq!(e.kind, LexerErrorKind::Invalid);
            assert_eq!(e.token_kind, Some(TokenKind::NameLower));
            assert_eq!(e.span, Span::new(0, 2));
        },
        other => panic!("unexpected {:?}", other),
    }
}

#[test]
fn test_expect_seq_matches_the_crlf_cluster() {
    let mut b = LexerBase::new("a\r\nb");
    b.next();
    // the pattern's one grapheme cluster is the whole CRLF pair, and it
    // stands at the cursor, so the match advances by one grapheme
    assert!(b.expect_seq("\r\n"));
    assert_eq!(b.next(), Some(String::from("b")));
}

#[test]
fn test_expect_one_rejects_a_lone_newline_for_the_crlf_set() {
    let mut b = LexerBase::new("\ny");
    // the only grapheme cluster of the set is the CRLF pair, which the
    // lone `\n` cluster at the cursor equals no grapheme of
    assert!(!b.expect_one("\r\n"));
    assert_eq!(b.next(), Some(String::from("\n")));
}

#[test]
fn test_exact_lexes_a_crlf_pattern_as_one_grapheme() {
    let mut b = LexerBase::new("\r\nx");
    match b.exact("\r\n", TokenKind::NewLine) {
        Some(Ok(t)) => {
            assert_eq!(t.text, "\r\n");
            assert_eq!(t.span, Span::new(0, 1));
        },
        other => panic!("unexpected {:?}", other),
    }
}

#[test]
fn test_version() {
    assert_eq!(kaki::VERSION, "0.1.0");
}

#[test]
fn test_base_take_while_and_expectations() {
    let mut b = LexerBase::new("aa1 &&x");
    assert_eq!(b.take_while(GraphemeClass::Alpha), 2);
    assert_eq!(b.take_while(GraphemeClass::Alpha), 0);
    assert_eq!(b.take_while(GraphemeClass::Digit), 1);
    assert!(b.expect_one(" \t"));
    assert!(!b.expect_seq("&x"));
    assert!(b.expect_seq("&&"));
    b.mark();
    assert!(!b.expect_one("yz"));
    match b.exact("x", TokenKind::NameLower) {
        Some(Ok(t)) => {
            assert_eq!(t.text, "x");
            assert_eq!(t.span, Span::new(6, 7));
        },
        other => panic!("unexpected {:?}", other),
    }
    assert_eq!(b.exact("x", TokenKind::NameLower), None);
}
