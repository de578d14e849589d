//! The lexer for edition 1.
//!
//! [`LexerEdition1`] drives a [`LexerBase`] over the source, one production
//! at a time, in the dispatch order of the grammar. Each call of
//! [`LexerEdition1::next_token`] is proved to produce exactly the step that
//! [`next_spec`] assigns to the cursor position at which it began.

use vstd::prelude::*;
use super::grammar::{
    lemma_next_spec_progress,
    lemma_no_consecutive_unknown,
    lemma_run_end,
    lemma_single_scalar_grapheme,
    lemma_two_scalar_grapheme,
    block_scan,
    body_end,
    class_pred,
    class_spec,
    comment_scan,
    is_g,
    name_scan,
    next_spec,
    number_scan,
    op_scan,
    production_at,
    radix_scan,
    run_end,
    scan_end,
    single_scan,
    string_scan,
    string_start,
    triple_scan,
    unknown_end,
    GraphemeClass,
    Scan,
};
use super::lexer::{
    class_test,
    grapheme_is,
    grapheme_is_pair,
    Lexer,
    LexerBase,
    LexerError,
    LexerErrorKind,
    LexerResult,
};
use super::token::{Token, TokenKind};
use crate::edition::Edition;
use crate::util::text::{
    alpha_grapheme,
    digit_grapheme,
    graphemes_of,
    is_alpha,
    is_digit,
    is_lower,
    is_upper,
    newline_grapheme,
    space_grapheme,
    upper_grapheme,
};

verus! {

/// The token `t` covers `[i, end)` of the graphemes `gs` with kind `kind`.
pub open spec fn token_matches(
    t: Token,
    gs: Seq<Seq<char>>,
    i: int,
    kind: TokenKind,
    end: int,
) -> bool {
    &&& t.kind == kind
    &&& t.span.start == i
    &&& t.span.end == end
    &&& t.text@ == gs.subrange(i, end).flatten()
}

/// The error `e` covers `[i, end)` of the graphemes `gs` with the given
/// error kind and attempted token kind.
pub open spec fn error_matches(
    e: LexerError,
    gs: Seq<Seq<char>>,
    i: int,
    error: LexerErrorKind,
    token_kind: Option<TokenKind>,
    end: int,
) -> bool {
    &&& e.kind == error
    &&& e.token_kind == token_kind
    &&& e.span.start == i
    &&& e.span.end == end
    &&& e.text@ == gs.subrange(i, end).flatten()
}

/// A production's result embodies the step `s` begun at offset `i`.
pub open spec fn step_matches(
    r: Option<Result<Token, LexerError>>,
    gs: Seq<Seq<char>>,
    i: int,
    s: Scan,
) -> bool {
    match s {
        Scan::Absent => false,
        Scan::Token { kind, end } => r matches Some(Ok(t)) && token_matches(t, gs, i, kind, end),
        Scan::Error { error, token_kind, end } => r matches Some(Err(e)) && error_matches(
            e,
            gs,
            i,
            error,
            token_kind,
            end,
        ),
    }
}

/// The value handed to the engine's caller embodies the step `s` begun at
/// offset `i`: the end-of-input marker for `Absent`, a token, or an error.
pub open spec fn result_reflects(
    r: Option<LexerResult>,
    gs: Seq<Seq<char>>,
    i: int,
    s: Scan,
) -> bool {
    match s {
        Scan::Absent => r is None,
        Scan::Token { kind, end } => r matches Some(LexerResult::Token(t)) && token_matches(
            t,
            gs,
            i,
            kind,
            end,
        ),
        Scan::Error { error, token_kind, end } => r matches Some(LexerResult::Error(e))
            && error_matches(e, gs, i, error, token_kind, end),
    }
}

/// The lexer for the edition 1 of the language.
#[derive(Clone)]
pub struct LexerEdition1 {
    /// The base lexer.
    base: LexerBase,
}

impl LexerEdition1 {
    /// The grapheme clusters of the source.
    pub closed spec fn gs(&self) -> Seq<Seq<char>> {
        self.base.gs()
    }

    /// The scalar values of the source.
    pub closed spec fn src(&self) -> Seq<char> {
        self.base.src()
    }

    /// The cursor, as a grapheme offset into the source.
    pub closed spec fn cursor(&self) -> int {
        self.base.cursor()
    }

    /// The marked position, as a grapheme offset into the source.
    pub closed spec fn marked(&self) -> int {
        self.base.marked()
    }

    /// The engine is well formed: see [`LexerBase::wf`].
    pub closed spec fn wf(&self) -> bool {
        self.base.wf()
    }

    /// Create a new lexer for some source.
    ///
    /// # Arguments
    ///
    /// * `source` - The source to lex.
    ///
    /// # Returns
    ///
    /// A new [`LexerEdition1`] with the cursor at offset zero.
    pub fn new(source: &str) -> (r: LexerEdition1)
        ensures
            r.wf(),
            r.src() == source@,
            r.gs() == graphemes_of(source@),
            r.cursor() == 0,
            r.marked() == 0,
    {
        LexerEdition1 { base: LexerBase::new(source) }
    }

    /// Get the source string that the lexer is working on.
    pub fn source(&self) -> (r: &str)
        ensures
            r@ == self.src(),
    {
        self.base.source()
    }

    /// Get the edition of the lexer.
    pub fn edition(&self) -> (r: Edition)
        ensures
            r == Edition::Edition1,
    {
        Edition::Edition1
    }

    /// Consume the grapheme at the cursor when it is exactly the single
    /// scalar `c`.
    fn eat(&mut self, c: char) -> (r: bool)
        requires
            old(self).wf(),
        ensures
            final(self).wf(),
            final(self).gs() == old(self).gs(),
            final(self).src() == old(self).src(),
            final(self).marked() == old(self).marked(),
            r == is_g(old(self).gs(), old(self).cursor(), c),
            r ==> final(self).cursor() == old(self).cursor() + 1,
            !r ==> final(self).cursor() == old(self).cursor(),
    {
        match self.base.peek() {
            Some(g) => {
                if grapheme_is(g.as_str(), c) {
                    self.base.next();
                    true
                } else {
                    false
                }
            },
            None => false,
        }
    }

    /// Test whether the grapheme `k` positions past the cursor is exactly
    /// the single scalar `c`, without advancing the lexer.
    fn peek_is(&self, k: usize, c: char) -> (r: bool)
        requires
            self.wf(),
        ensures
            r == is_g(self.gs(), self.cursor() + k, c),
    {
        match self.base.peek_at(k) {
            Some(g) => grapheme_is(g.as_str(), c),
            None => false,
        }
    }

    /// Consume the two graphemes at the cursor when they are exactly the
    /// single scalars `c0` and `c1`, in order.
    fn eat_pair(&mut self, c0: char, c1: char) -> (r: bool)
        requires
            old(self).wf(),
        ensures
            final(self).wf(),
            final(self).gs() == old(self).gs(),
            final(self).src() == old(self).src(),
            final(self).marked() == old(self).marked(),
            r == (is_g(old(self).gs(), old(self).cursor(), c0) && is_g(
                old(self).gs(),
                old(self).cursor() + 1,
                c1,
            )),
            r ==> final(self).cursor() == old(self).cursor() + 2,
            !r ==> final(self).cursor() == old(self).cursor(),
    {
        if self.peek_is(0, c0) && self.peek_is(1, c1) {
            self.base.advance(2);
            true
        } else {
            false
        }
    }

    /// Lex a maximal run of spaces and tabs.
    fn lex_space(&mut self) -> (r: Option<Result<Token, LexerError>>)
        requires
            old(self).wf(),
            old(self).marked() == old(self).cursor(),
            old(self).cursor() < old(self).gs().len(),
        ensures
            final(self).wf(),
            final(self).gs() == old(self).gs(),
            final(self).src() == old(self).src(),
            final(self).marked() == old(self).marked(),
            space_grapheme(old(self).gs()[old(self).cursor()]) ==> {
                &&& step_matches(
                    r,
                    old(self).gs(),
                    old(self).cursor(),
                    (Scan::Token {
                        kind: TokenKind::Space,
                        end: run_end(
                            old(self).gs(),
                            old(self).cursor(),
                            class_pred(GraphemeClass::SpaceTab),
                        ),
                    }),
                )
                &&& final(self).cursor() == run_end(
                    old(self).gs(),
                    old(self).cursor(),
                    class_pred(GraphemeClass::SpaceTab),
                )
            },
            !space_grapheme(old(self).gs()[old(self).cursor()]) ==> r is None && *final(self) == *old(self),
    {
        if self.base.peek_class(GraphemeClass::SpaceTab) {
            self.base.take_while(GraphemeClass::SpaceTab);
            self.base.extract(TokenKind::Space)
        } else {
            None
        }
    }

    /// Lex one comment: a nested block comment when `#[[` opens at the
    /// cursor, otherwise a line comment running to the next newline.
    fn lex_comment(&mut self) -> (r: Option<Result<Token, LexerError>>)
        requires
            old(self).wf(),
            old(self).marked() == old(self).cursor(),
            old(self).cursor() < old(self).gs().len(),
        ensures
            final(self).wf(),
            final(self).gs() == old(self).gs(),
            final(self).src() == old(self).src(),
            final(self).marked() == old(self).marked(),
            is_g(old(self).gs(), old(self).cursor(), '#') ==> {
                &&& step_matches(
                    r,
                    old(self).gs(),
                    old(self).cursor(),
                    comment_scan(old(self).gs(), old(self).cursor()),
                )
                &&& final(self).cursor() == scan_end(
                    comment_scan(old(self).gs(), old(self).cursor()),
                )
            },
            !is_g(old(self).gs(), old(self).cursor(), '#') ==> r is None && final(self).cursor()
                == old(self).cursor(),
    {
        let ghost gs = old(self).gs();
        let ghost i = old(self).cursor();
        if !self.eat('#') {
            return None;
        }
        proof {
            lemma_single_scalar_grapheme('#');
            lemma_single_scalar_grapheme('[');
            lemma_single_scalar_grapheme('\n');
            lemma_two_scalar_grapheme('\r', '\n');
        }
        if self.eat('[') {
            if self.eat('[') {
                return self.lex_comment_block();
            }
            // only `#[` stood here, so this is a line comment whose run
            // already covers the two graphemes consumed
            proof {
                assert(class_spec(GraphemeClass::NotNewline, gs[i]));
                assert(class_spec(GraphemeClass::NotNewline, gs[i + 1]));
                assert(run_end(gs, i, class_pred(GraphemeClass::NotNewline)) == run_end(
                    gs,
                    i + 1,
                    class_pred(GraphemeClass::NotNewline),
                ));
                assert(run_end(gs, i + 1, class_pred(GraphemeClass::NotNewline)) == run_end(
                    gs,
                    i + 2,
                    class_pred(GraphemeClass::NotNewline),
                ));
            }
            self.base.take_while(GraphemeClass::NotNewline);
            return self.base.extract(TokenKind::CommentLine);
        }
        proof {
            assert(class_spec(GraphemeClass::NotNewline, gs[i]));
            assert(run_end(gs, i, class_pred(GraphemeClass::NotNewline)) == run_end(
                gs,
                i + 1,
                class_pred(GraphemeClass::NotNewline),
            ));
        }
        self.base.take_while(GraphemeClass::NotNewline);
        self.base.extract(TokenKind::CommentLine)
    }

    /// Lex the rest of a block comment whose `#[[` opener was just
    /// consumed, keeping count of the nesting depth.
    fn lex_comment_block(&mut self) -> (r: Option<Result<Token, LexerError>>)
        requires
            old(self).wf(),
            old(self).marked() + 3 == old(self).cursor(),
        ensures
            final(self).wf(),
            final(self).gs() == old(self).gs(),
            final(self).src() == old(self).src(),
            final(self).marked() == old(self).marked(),
            step_matches(
                r,
                old(self).gs(),
                old(self).marked(),
                block_scan(old(self).gs(), old(self).cursor(), 1),
            ),
            final(self).cursor() == scan_end(block_scan(old(self).gs(), old(self).cursor(), 1)),
    {
        let ghost gs = old(self).gs();
        let mut depth: usize = 1;
        loop
            invariant
                self.wf(),
                gs == old(self).gs(),
                self.gs() == gs,
                self.src() == old(self).src(),
                self.marked() == old(self).marked(),
                old(self).cursor() <= self.cursor() <= gs.len(),
                1 <= depth <= self.cursor(),
                block_scan(gs, old(self).cursor(), 1) == block_scan(
                    gs,
                    self.cursor(),
                    depth as int,
                ),
            decreases gs.len() - self.cursor(),
        {
            let ghost c0 = self.cursor();
            let ghost d0 = depth as int;
            proof {
                lemma_single_scalar_grapheme('#');
                lemma_single_scalar_grapheme('[');
                lemma_single_scalar_grapheme(']');
            }
            let at_end = match self.base.peek() {
                Some(_) => false,
                None => true,
            };
            if at_end {
                return self.base.error(
                    LexerErrorKind::Incomplete,
                    Some(TokenKind::CommentBlock),
                );
            }
            if self.eat('#') {
                if self.eat('[') {
                    if self.eat('[') {
                        depth = depth + 1;
                    } else {
                        proof {
                            assert(block_scan(gs, c0, d0) == block_scan(gs, c0 + 1, d0));
                            assert(block_scan(gs, c0 + 1, d0) == block_scan(gs, c0 + 2, d0));
                        }
                    }
                } else {
                    proof {
                        assert(block_scan(gs, c0, d0) == block_scan(gs, c0 + 1, d0));
                    }
                }
            } else if self.eat(']') {
                if self.eat(']') {
                    depth = depth - 1;
                    if depth == 0 {
                        return self.base.extract(TokenKind::CommentBlock);
                    }
                } else {
                    proof {
                        assert(block_scan(gs, c0, d0) == block_scan(gs, c0 + 1, d0));
                    }
                }
            } else {
                self.base.next();
                proof {
                    assert(block_scan(gs, c0, d0) == block_scan(gs, c0 + 1, d0));
                }
            }
        }
    }

    /// Consume the maximal alphanumeric run at the cursor, reporting
    /// whether any grapheme of the run belonged to the tracked class.
    fn scan_alphanum_tracking(&mut self, track: GraphemeClass) -> (found: bool)
        requires
            old(self).wf(),
        ensures
            final(self).wf(),
            final(self).gs() == old(self).gs(),
            final(self).src() == old(self).src(),
            final(self).marked() == old(self).marked(),
            final(self).cursor() == run_end(
                old(self).gs(),
                old(self).cursor(),
                class_pred(GraphemeClass::Alphanum),
            ),
            found == exists|k: int|
                old(self).cursor() <= k < final(self).cursor() && class_spec(
                    track,
                    #[trigger] old(self).gs()[k],
                ),
    {
        let ghost gs = old(self).gs();
        let mut found = false;
        while self.base.peek_class(GraphemeClass::Alphanum)
            invariant
                self.wf(),
                gs == old(self).gs(),
                self.gs() == gs,
                self.src() == old(self).src(),
                self.marked() == old(self).marked(),
                old(self).cursor() <= self.cursor() <= gs.len(),
                run_end(gs, old(self).cursor(), class_pred(GraphemeClass::Alphanum)) == run_end(
                    gs,
                    self.cursor(),
                    class_pred(GraphemeClass::Alphanum),
                ),
                found == exists|k: int|
                    old(self).cursor() <= k < self.cursor() && class_spec(
                        track,
                        #[trigger] gs[k],
                    ),
            decreases gs.len() - self.cursor(),
        {
            let ghost c0 = self.cursor();
            if self.base.peek_class(track) {
                found = true;
                proof {
                    assert(class_spec(track, gs[c0]));
                }
            }
            self.base.next();
            proof {
                if found && !(exists|k: int|
                    old(self).cursor() <= k < c0 && class_spec(track, #[trigger] gs[k])) {
                    assert(class_spec(track, gs[c0]));
                }
            }
        }
        found
    }

    /// Lex one name: a leading run of underscores, then the sub-form that
    /// the following grapheme selects.
    fn lex_name(&mut self) -> (r: Option<Result<Token, LexerError>>)
        requires
            old(self).wf(),
            old(self).marked() == old(self).cursor(),
            old(self).cursor() < old(self).gs().len(),
        ensures
            final(self).wf(),
            final(self).gs() == old(self).gs(),
            final(self).src() == old(self).src(),
            final(self).marked() == old(self).marked(),
            alpha_grapheme(old(self).gs()[old(self).cursor()]) ==> {
                &&& step_matches(
                    r,
                    old(self).gs(),
                    old(self).cursor(),
                    name_scan(old(self).gs(), old(self).cursor()),
                )
                &&& final(self).cursor() == scan_end(
                    name_scan(old(self).gs(), old(self).cursor()),
                )
            },
            !alpha_grapheme(old(self).gs()[old(self).cursor()]) ==> r is None
                && final(self).cursor() == old(self).cursor(),
    {
        let ghost gs = old(self).gs();
        let ghost i = old(self).cursor();
        let is_name = match self.base.peek() {
            Some(g) => is_alpha(g.as_str()),
            None => false,
        };
        if !is_name {
            return None;
        }
        proof {
            lemma_run_end(gs, i, class_pred(GraphemeClass::Underscore));
            lemma_single_scalar_grapheme('_');
        }
        let n = self.base.take_while(GraphemeClass::Underscore);
        let ghost u = self.base.cursor();
        match self.base.peek() {
            Some(g) => {
                if is_lower(g.as_str()) {
                    proof {
                        lemma_run_end(gs, u, class_pred(GraphemeClass::Alphanum));
                    }
                    let has_upper = self.scan_alphanum_tracking(GraphemeClass::Upper);
                    let ghost a = self.base.cursor();
                    if !self.eat('!') {
                        let _ = self.eat('?');
                    }
                    proof {
                        assert(forall|k: int| i <= k < u ==> !upper_grapheme(#[trigger] gs[k]));
                        assert((exists|k: int| i <= k < a && upper_grapheme(#[trigger] gs[k]))
                            == (exists|k: int|
                            u <= k < a && class_spec(GraphemeClass::Upper, #[trigger] gs[k])));
                    }
                    if has_upper {
                        self.base.error(LexerErrorKind::Invalid, Some(TokenKind::NameLower))
                    } else {
                        self.base.extract(TokenKind::NameLower)
                    }
                } else if is_upper(g.as_str()) {
                    proof {
                        lemma_run_end(gs, u, class_pred(GraphemeClass::Alphanum));
                    }
                    self.base.take_while(GraphemeClass::Alphanum);
                    let trailed = if self.eat('!') {
                        true
                    } else {
                        self.eat('?')
                    };
                    if trailed {
                        self.base.error(LexerErrorKind::Invalid, Some(TokenKind::NameUpper))
                    } else {
                        self.base.extract(TokenKind::NameUpper)
                    }
                } else if is_digit(g.as_str()) {
                    proof {
                        lemma_run_end(gs, u, class_pred(GraphemeClass::Alphanum));
                    }
                    self.base.next();
                    proof {
                        assert(class_spec(GraphemeClass::Alphanum, gs[u]));
                        assert(run_end(gs, u, class_pred(GraphemeClass::Alphanum)) == run_end(
                            gs,
                            u + 1,
                            class_pred(GraphemeClass::Alphanum),
                        ));
                    }
                    let has_alpha = self.scan_alphanum_tracking(GraphemeClass::Alpha);
                    let trailed = if self.eat('!') {
                        true
                    } else {
                        self.eat('?')
                    };
                    if trailed || has_alpha {
                        self.base.error(LexerErrorKind::Invalid, Some(TokenKind::NameAnon))
                    } else {
                        self.base.extract(TokenKind::NameAnon)
                    }
                } else {
                    if n == 1 {
                        self.base.extract(TokenKind::NameUnderscore)
                    } else {
                        self.base.error(LexerErrorKind::Invalid, Some(TokenKind::NameUnderscore))
                    }
                }
            },
            None => {
                if n == 1 {
                    self.base.extract(TokenKind::NameUnderscore)
                } else {
                    self.base.error(LexerErrorKind::Invalid, Some(TokenKind::NameUnderscore))
                }
            },
        }
    }

    /// Consume a number body at the cursor: digits of the class, with an
    /// underscore accepted as a digit-group separator only when a digit
    /// follows it.
    fn consume_body(&mut self, class: GraphemeClass)
        requires
            old(self).wf(),
        ensures
            final(self).wf(),
            final(self).gs() == old(self).gs(),
            final(self).src() == old(self).src(),
            final(self).marked() == old(self).marked(),
            final(self).cursor() == body_end(
                old(self).gs(),
                old(self).cursor(),
                class_pred(class),
            ),
    {
        let ghost gs = old(self).gs();
        loop
            invariant
                self.wf(),
                gs == old(self).gs(),
                self.gs() == gs,
                self.src() == old(self).src(),
                self.marked() == old(self).marked(),
                old(self).cursor() <= self.cursor() <= gs.len(),
                body_end(gs, old(self).cursor(), class_pred(class)) == body_end(
                    gs,
                    self.cursor(),
                    class_pred(class),
                ),
            decreases gs.len() - self.cursor(),
        {
            if self.base.peek_class(class) {
                self.base.next();
            } else {
                let under = self.base.peek_class(GraphemeClass::Underscore);
                let follows = match self.base.peek_at(1) {
                    Some(g2) => class_test(class, g2.as_str()),
                    None => false,
                };
                if under && follows {
                    self.base.next();
                    self.base.next();
                } else {
                    return ;
                }
            }
        }
    }

    /// Lex the body of a radix-prefixed integer whose `0b`, `0o`, or `0x`
    /// opener was just consumed.
    fn lex_radix(&mut self, class: GraphemeClass, kind: TokenKind) -> (r: Option<
        Result<Token, LexerError>,
    >)
        requires
            old(self).wf(),
        ensures
            final(self).wf(),
            final(self).gs() == old(self).gs(),
            final(self).src() == old(self).src(),
            final(self).marked() == old(self).marked(),
            step_matches(
                r,
                old(self).gs(),
                old(self).marked(),
                radix_scan(old(self).gs(), old(self).cursor(), class_pred(class), kind),
            ),
            final(self).cursor() == scan_end(
                radix_scan(old(self).gs(), old(self).cursor(), class_pred(class), kind),
            ),
    {
        if self.base.peek_class(class) {
            self.consume_body(class);
            self.base.extract(kind)
        } else {
            self.base.error(LexerErrorKind::Incomplete, Some(kind))
        }
    }

    /// Lex one number: a radix-prefixed integer, or a decimal integer with
    /// an optional fraction and an optional exponent, either of which makes
    /// it a float.
    fn lex_number(&mut self) -> (r: Option<Result<Token, LexerError>>)
        requires
            old(self).wf(),
            old(self).marked() == old(self).cursor(),
            old(self).cursor() < old(self).gs().len(),
        ensures
            final(self).wf(),
            final(self).gs() == old(self).gs(),
            final(self).src() == old(self).src(),
            final(self).marked() == old(self).marked(),
            digit_grapheme(old(self).gs()[old(self).cursor()]) ==> {
                &&& step_matches(
                    r,
                    old(self).gs(),
                    old(self).cursor(),
                    number_scan(old(self).gs(), old(self).cursor()),
                )
                &&& final(self).cursor() == scan_end(
                    number_scan(old(self).gs(), old(self).cursor()),
                )
            },
            !digit_grapheme(old(self).gs()[old(self).cursor()]) ==> r is None
                && final(self).cursor() == old(self).cursor(),
    {
        let is_num = match self.base.peek() {
            Some(g) => is_digit(g.as_str()),
            None => false,
        };
        if !is_num {
            return None;
        }
        if self.eat_pair('0', 'b') {
            return self.lex_radix(GraphemeClass::BinDigit, TokenKind::IntBin);
        }
        if self.eat_pair('0', 'o') {
            proof {
                lemma_single_scalar_grapheme('b');
                lemma_single_scalar_grapheme('o');
            }
            return self.lex_radix(GraphemeClass::OctDigit, TokenKind::IntOct);
        }
        if self.eat_pair('0', 'x') {
            proof {
                lemma_single_scalar_grapheme('b');
                lemma_single_scalar_grapheme('o');
                lemma_single_scalar_grapheme('x');
            }
            return self.lex_radix(GraphemeClass::HexDigit, TokenKind::IntHex);
        }
        self.consume_body(GraphemeClass::Digit);
        let dot = match self.base.peek() {
            Some(g) => grapheme_is(g.as_str(), '.'),
            None => false,
        };
        let digit_after = match self.base.peek_at(1) {
            Some(g2) => is_digit(g2.as_str()),
            None => false,
        };
        let mut isf = false;
        if dot && digit_after {
            self.base.next();
            self.consume_body(GraphemeClass::Digit);
            isf = true;
        }
        let e_here = match self.base.peek() {
            Some(g) => grapheme_is(g.as_str(), 'e'),
            None => false,
        };
        if e_here {
            self.base.next();
            let _minus = self.eat('-');
            let took = self.base.take_while(GraphemeClass::Digit);
            if took == 0 {
                return self.base.error(LexerErrorKind::Incomplete, Some(TokenKind::Float));
            }
            return self.base.extract(TokenKind::Float);
        }
        if isf {
            self.base.extract(TokenKind::Float)
        } else {
            self.base.extract(TokenKind::IntDec)
        }
    }

    /// Lex the rest of a `"""`-closed string whose opener was just
    /// consumed. The escape `\"` is consumed verbatim; every other grapheme
    /// is content.
    fn scan_string_triple(&mut self, kind: TokenKind) -> (r: Option<Result<Token, LexerError>>)
        requires
            old(self).wf(),
        ensures
            final(self).wf(),
            final(self).gs() == old(self).gs(),
            final(self).src() == old(self).src(),
            final(self).marked() == old(self).marked(),
            step_matches(
                r,
                old(self).gs(),
                old(self).marked(),
                triple_scan(old(self).gs(), old(self).cursor(), kind),
            ),
            final(self).cursor() == scan_end(triple_scan(old(self).gs(), old(self).cursor(), kind)),
    {
        let ghost gs = old(self).gs();
        loop
            invariant
                self.wf(),
                gs == old(self).gs(),
                self.gs() == gs,
                self.src() == old(self).src(),
                self.marked() == old(self).marked(),
                old(self).cursor() <= self.cursor() <= gs.len(),
                triple_scan(gs, old(self).cursor(), kind) == triple_scan(gs, self.cursor(), kind),
            decreases gs.len() - self.cursor(),
        {
            let at_end = match self.base.peek() {
                Some(_) => false,
                None => true,
            };
            if at_end {
                return self.base.error(LexerErrorKind::Incomplete, Some(kind));
            }
            if self.eat_pair('\\', '"') {
            } else if self.peek_is(0, '"') && self.peek_is(1, '"') && self.peek_is(2, '"') {
                self.base.advance(3);
                return self.base.extract(kind);
            } else {
                self.base.next();
            }
        }
    }

    /// Lex the rest of a `"`-closed string whose opener was just consumed.
    /// The escape `\"` is consumed verbatim; every other grapheme is
    /// content.
    fn scan_string_single(&mut self) -> (r: Option<Result<Token, LexerError>>)
        requires
            old(self).wf(),
        ensures
            final(self).wf(),
            final(self).gs() == old(self).gs(),
            final(self).src() == old(self).src(),
            final(self).marked() == old(self).marked(),
            step_matches(
                r,
                old(self).gs(),
                old(self).marked(),
                single_scan(old(self).gs(), old(self).cursor()),
            ),
            final(self).cursor() == scan_end(single_scan(old(self).gs(), old(self).cursor())),
    {
        let ghost gs = old(self).gs();
        loop
            invariant
                self.wf(),
                gs == old(self).gs(),
                self.gs() == gs,
                self.src() == old(self).src(),
                self.marked() == old(self).marked(),
                old(self).cursor() <= self.cursor() <= gs.len(),
                single_scan(gs, old(self).cursor()) == single_scan(gs, self.cursor()),
            decreases gs.len() - self.cursor(),
        {
            let at_end = match self.base.peek() {
                Some(_) => false,
                None => true,
            };
            if at_end {
                return self.base.error(
                    LexerErrorKind::Incomplete,
                    Some(TokenKind::StringSingle),
                );
            }
            if self.eat_pair('\\', '"') {
            } else {
                if self.eat('"') {
                    return self.base.extract(TokenKind::StringSingle);
                }
                self.base.next();
            }
        }
    }

    /// Lex one string literal: smart (`@"""`), multiline (`"""`), or
    /// single line (`"`), longer openers checked first.
    fn lex_string(&mut self) -> (r: Option<Result<Token, LexerError>>)
        requires
            old(self).wf(),
            old(self).marked() == old(self).cursor(),
            old(self).cursor() < old(self).gs().len(),
        ensures
            final(self).wf(),
            final(self).gs() == old(self).gs(),
            final(self).src() == old(self).src(),
            final(self).marked() == old(self).marked(),
            string_start(old(self).gs(), old(self).cursor()) ==> {
                &&& step_matches(
                    r,
                    old(self).gs(),
                    old(self).cursor(),
                    string_scan(old(self).gs(), old(self).cursor()),
                )
                &&& final(self).cursor() == scan_end(
                    string_scan(old(self).gs(), old(self).cursor()),
                )
            },
            !string_start(old(self).gs(), old(self).cursor()) ==> r is None
                && final(self).cursor() == old(self).cursor(),
    {
        proof {
            lemma_single_scalar_grapheme('@');
            lemma_single_scalar_grapheme('"');
        }
        if self.peek_is(0, '@') && self.peek_is(1, '"') && self.peek_is(2, '"') && self.peek_is(
            3,
            '"',
        ) {
            self.base.advance(4);
            return self.scan_string_triple(TokenKind::StringSmart);
        }
        if self.peek_is(0, '"') && self.peek_is(1, '"') && self.peek_is(2, '"') {
            self.base.advance(3);
            return self.scan_string_triple(TokenKind::StringMulti);
        }
        if self.eat('"') {
            return self.scan_string_single();
        }
        None
    }

    /// Lex one operator or punctuation token, matching multi-grapheme
    /// operators strictly before their prefixes.
    fn lex_operator(&mut self) -> (r: Option<Result<Token, LexerError>>)
        requires
            old(self).wf(),
            old(self).marked() == old(self).cursor(),
            old(self).cursor() < old(self).gs().len(),
        ensures
            final(self).wf(),
            final(self).gs() == old(self).gs(),
            final(self).src() == old(self).src(),
            final(self).marked() == old(self).marked(),
            match op_scan(old(self).gs(), old(self).cursor()) {
                Some(ke) => step_matches(
                    r,
                    old(self).gs(),
                    old(self).cursor(),
                    (Scan::Token { kind: ke.0, end: ke.1 }),
                ) && final(self).cursor() == ke.1,
                None => r is None && final(self).cursor() == old(self).cursor(),
            },
    {
        if self.eat('&') {
            if self.eat('&') {
                return self.base.extract(TokenKind::AmpAmp);
            }
            return self.base.extract(TokenKind::Amp);
        }
        if self.eat('@') {
            if self.eat('@') {
                return self.base.extract(TokenKind::AtAt);
            }
            if self.eat('{') {
                return self.base.extract(TokenKind::AtBraceL);
            }
            return self.base.extract(TokenKind::At);
        }
        if self.eat('!') {
            if self.eat('=') {
                return self.base.extract(TokenKind::BangEq);
            }
            return self.base.extract(TokenKind::Bang);
        }
        if self.eat('=') {
            if self.eat('=') {
                return self.base.extract(TokenKind::EqEq);
            }
            return self.base.extract(TokenKind::Eq);
        }
        if self.eat('<') {
            if self.eat('=') {
                if self.eat('>') {
                    return self.base.extract(TokenKind::LtEqGt);
                }
                return self.base.extract(TokenKind::LtEq);
            }
            if self.eat('<') {
                return self.base.extract(TokenKind::LtLt);
            }
            return self.base.extract(TokenKind::Lt);
        }
        if self.eat('>') {
            if self.eat('=') {
                return self.base.extract(TokenKind::GtEq);
            }
            if self.eat('>') {
                return self.base.extract(TokenKind::GtGt);
            }
            return self.base.extract(TokenKind::Gt);
        }
        if self.eat('/') {
            if self.eat('/') {
                return self.base.extract(TokenKind::SlashSlash);
            }
            return self.base.extract(TokenKind::Slash);
        }
        if self.eat('*') {
            if self.eat('*') {
                return self.base.extract(TokenKind::StarStar);
            }
            return self.base.extract(TokenKind::Star);
        }
        if self.eat('|') {
            if self.eat('|') {
                return self.base.extract(TokenKind::PipePipe);
            }
            return self.base.extract(TokenKind::Pipe);
        }
        if self.eat('?') {
            if self.eat('=') {
                return self.base.extract(TokenKind::QuestionEq);
            }
            return self.base.extract(TokenKind::Question);
        }
        if self.eat(':') {
            if self.eat(':') {
                return self.base.extract(TokenKind::ColonColon);
            }
            return self.base.extract(TokenKind::Colon);
        }
        if self.eat('[') {
            return self.base.extract(TokenKind::BracketL);
        }
        if self.eat(']') {
            return self.base.extract(TokenKind::BracketR);
        }
        if self.eat('{') {
            return self.base.extract(TokenKind::BraceL);
        }
        if self.eat('}') {
            return self.base.extract(TokenKind::BraceR);
        }
        if self.eat('\\') {
            return self.base.extract(TokenKind::BackSlash);
        }
        if self.eat('^') {
            return self.base.extract(TokenKind::Caret);
        }
        if self.eat(',') {
            return self.base.extract(TokenKind::Comma);
        }
        if self.eat('.') {
            return self.base.extract(TokenKind::Dot);
        }
        if self.eat('-') {
            return self.base.extract(TokenKind::Minus);
        }
        if self.eat('(') {
            return self.base.extract(TokenKind::ParenL);
        }
        if self.eat(')') {
            return self.base.extract(TokenKind::ParenR);
        }
        if self.eat('%') {
            return self.base.extract(TokenKind::Percent);
        }
        if self.eat('+') {
            return self.base.extract(TokenKind::Plus);
        }
        if self.eat(';') {
            return self.base.extract(TokenKind::Semicolon);
        }
        if self.eat('~') {
            return self.base.extract(TokenKind::Tilde);
        }
        None
    }

    /// Test whether some production of the grammar matches at the cursor.
    fn production_check(&self) -> (r: bool)
        requires
            self.wf(),
        ensures
            r == production_at(self.gs(), self.cursor()),
    {
        let g = match self.base.peek() {
            Some(g) => g,
            None => {
                return false;
            },
        };
        let s = g.as_str();
        if grapheme_is(s, ' ') || grapheme_is(s, '\t') {
            return true;
        }
        if grapheme_is(s, '\n') || grapheme_is_pair(s, '\r', '\n') {
            return true;
        }
        if grapheme_is(s, '#') {
            return true;
        }
        if is_alpha(s) {
            return true;
        }
        if is_digit(s) {
            return true;
        }
        if grapheme_is(s, '"') {
            return true;
        }
        if grapheme_is(s, '&') || grapheme_is(s, '@') || grapheme_is(s, '!') || grapheme_is(s, '=')
            || grapheme_is(s, '<') || grapheme_is(s, '>') || grapheme_is(s, '/') || grapheme_is(
            s,
            '*',
        ) || grapheme_is(s, '|') || grapheme_is(s, '?') || grapheme_is(s, ':') || grapheme_is(
            s,
            '[',
        ) || grapheme_is(s, ']') || grapheme_is(s, '{') || grapheme_is(s, '}') || grapheme_is(
            s,
            '\\',
        ) || grapheme_is(s, '^') || grapheme_is(s, ',') || grapheme_is(s, '.') || grapheme_is(
            s,
            '-',
        ) || grapheme_is(s, '(') || grapheme_is(s, ')') || grapheme_is(s, '%') || grapheme_is(
            s,
            '+',
        ) || grapheme_is(s, ';') || grapheme_is(s, '~') {
            return true;
        }
        false
    }

    /// Lex a coalesced run of unrecognized graphemes: the cursor advances
    /// until some production matches or the input ends, and one
    /// unknown-sequence error covers the whole run.
    fn lex_unknown(&mut self) -> (r: Option<Result<Token, LexerError>>)
        requires
            old(self).wf(),
            old(self).marked() == old(self).cursor(),
            old(self).cursor() < old(self).gs().len(),
            !production_at(old(self).gs(), old(self).cursor()),
        ensures
            final(self).wf(),
            final(self).gs() == old(self).gs(),
            final(self).src() == old(self).src(),
            final(self).marked() == old(self).marked(),
            step_matches(
                r,
                old(self).gs(),
                old(self).cursor(),
                (Scan::Error {
                    error: LexerErrorKind::UnknownSequence,
                    token_kind: None,
                    end: unknown_end(old(self).gs(), old(self).cursor() + 1),
                }),
            ),
            final(self).cursor() == unknown_end(old(self).gs(), old(self).cursor() + 1),
    {
        let ghost gs = old(self).gs();
        self.base.next();
        loop
            invariant
                self.wf(),
                gs == old(self).gs(),
                self.gs() == gs,
                self.src() == old(self).src(),
                self.marked() == old(self).marked(),
                self.marked() == old(self).cursor(),
                old(self).cursor() + 1 <= self.cursor() <= gs.len(),
                unknown_end(gs, old(self).cursor() + 1) == unknown_end(gs, self.cursor()),
            decreases gs.len() - self.cursor(),
        {
            let at_end = match self.base.peek() {
                Some(_) => false,
                None => true,
            };
            if at_end {
                return self.base.error(LexerErrorKind::UnknownSequence, None);
            }
            if self.production_check() {
                return self.base.error(LexerErrorKind::UnknownSequence, None);
            }
            self.base.next();
        }
    }

    /// If there are more tokens available, consume the next one and return
    /// it. If the token cannot be determined, an error is returned. When
    /// there are no more tokens left this returns `None`.
    pub fn next_token(&mut self) -> (r: Option<LexerResult>)
        requires
            old(self).wf(),
        ensures
            final(self).wf(),
            final(self).gs() == old(self).gs(),
            final(self).src() == old(self).src(),
            result_reflects(
                r,
                old(self).gs(),
                old(self).cursor(),
                next_spec(old(self).gs(), old(self).cursor()),
            ),
            next_spec(old(self).gs(), old(self).cursor()) is Absent ==> final(self).cursor()
                == old(self).cursor() && final(self).marked() == old(self).marked(),
            !(next_spec(old(self).gs(), old(self).cursor()) is Absent) ==> final(self).marked()
                == old(self).cursor() && final(self).cursor() == scan_end(
                next_spec(old(self).gs(), old(self).cursor()),
            ),
    {
        proof {
            reveal(next_spec);
        }
        let at_end = match self.base.peek() {
            Some(_) => false,
            None => true,
        };
        if at_end {
            return None;
        }
        self.base.mark();
        if let Some(res) = self.lex_space() {
            return Some(lexer_result_of(res));
        }
        if let Some(res) = self.lex_newline() {
            return Some(lexer_result_of(res));
        }
        if let Some(res) = self.lex_comment() {
            return Some(lexer_result_of(res));
        }
        if let Some(res) = self.lex_name() {
            return Some(lexer_result_of(res));
        }
        if let Some(res) = self.lex_number() {
            return Some(lexer_result_of(res));
        }
        if let Some(res) = self.lex_string() {
            return Some(lexer_result_of(res));
        }
        if let Some(res) = self.lex_operator() {
            return Some(lexer_result_of(res));
        }
        let res = self.lex_unknown();
        match res {
            Some(res2) => Some(lexer_result_of(res2)),
            None => None,
        }
    }

    /// Lex one logical line break: `\n`, or the `\r\n` grapheme cluster.
    fn lex_newline(&mut self) -> (r: Option<Result<Token, LexerError>>)
        requires
            old(self).wf(),
            old(self).marked() == old(self).cursor(),
            old(self).cursor() < old(self).gs().len(),
        ensures
            final(self).wf(),
            final(self).gs() == old(self).gs(),
            final(self).src() == old(self).src(),
            final(self).marked() == old(self).marked(),
            newline_grapheme(old(self).gs()[old(self).cursor()]) ==> {
                &&& step_matches(
                    r,
                    old(self).gs(),
                    old(self).cursor(),
                    (Scan::Token { kind: TokenKind::NewLine, end: old(self).cursor() + 1 }),
                )
                &&& final(self).cursor() == old(self).cursor() + 1
            },
            !newline_grapheme(old(self).gs()[old(self).cursor()]) ==> r is None && *final(self) == *old(self),
    {
        match self.base.peek() {
            Some(g) => {
                if grapheme_is(g.as_str(), '\n') || grapheme_is_pair(g.as_str(), '\r', '\n') {
                    self.base.next();
                    self.base.extract(TokenKind::NewLine)
                } else {
                    None
                }
            },
            None => None,
        }
    }
}

impl Lexer for LexerEdition1 {
    open spec fn lexer_wf(&self) -> bool {
        self.wf()
    }

    fn source(&self) -> &str {
        LexerEdition1::source(self)
    }

    fn edition(&self) -> Edition {
        LexerEdition1::edition(self)
    }

    fn next_token(&mut self) -> Option<LexerResult> {
        LexerEdition1::next_token(self)
    }
}

/// The text a stream element covers.
pub open spec fn result_text(x: LexerResult) -> Seq<char> {
    match x {
        LexerResult::Token(t) => t.text@,
        LexerResult::Error(e) => e.text@,
    }
}

/// The start of the span a stream element covers, in grapheme offsets.
pub open spec fn result_start(x: LexerResult) -> int {
    match x {
        LexerResult::Token(t) => t.span.start as int,
        LexerResult::Error(e) => e.span.start as int,
    }
}

/// The end of the span a stream element covers, in grapheme offsets.
pub open spec fn result_end(x: LexerResult) -> int {
    match x {
        LexerResult::Token(t) => t.span.end as int,
        LexerResult::Error(e) => e.span.end as int,
    }
}

/// A stream element that is a coalesced unknown-sequence error.
pub open spec fn result_unknown(x: LexerResult) -> bool {
    x matches LexerResult::Error(e) && e.kind == LexerErrorKind::UnknownSequence
}

/// The collected prefix `out` of a token stream over the graphemes `gs` is
/// lawful, with the engine's cursor at `c`: the texts concatenate to the
/// scanned prefix, the spans tile it from offset zero, every element is the
/// specified step at its start, and unknown-sequence errors never touch.
#[verifier::opaque]
spec fn stream_inv(out: Seq<LexerResult>, gs: Seq<Seq<char>>, c: int) -> bool {
    &&& out.len() <= c
    &&& Seq::new(out.len(), |k: int| result_text(out[k])).flatten() == gs.subrange(0, c).flatten()
    &&& (out.len() > 0 ==> result_start(out[0]) == 0)
    &&& forall|k: int|
        #![trigger out[k], out[k + 1]]
        0 <= k && k + 1 < out.len() ==> result_end(out[k]) == result_start(out[k + 1])
    &&& (out.len() == 0 ==> c == 0)
    &&& (out.len() > 0 ==> result_end(out[out.len() - 1]) == c)
    &&& forall|k: int|
        0 <= k < out.len() ==> 0 <= result_start(#[trigger] out[k]) < result_end(out[k])
            <= gs.len()
    &&& forall|k: int|
        0 <= k < out.len() ==> result_text(#[trigger] out[k]) == gs.subrange(
            result_start(out[k]),
            result_end(out[k]),
        ).flatten()
    &&& forall|k: int|
        0 <= k < out.len() ==> result_reflects(
            Some(#[trigger] out[k]),
            gs,
            result_start(out[k]),
            next_spec(gs, result_start(out[k])),
        )
    &&& forall|k: int|
        #![trigger out[k], out[k + 1]]
        0 <= k && k + 1 < out.len() ==> !(result_unknown(out[k]) && result_unknown(out[k + 1]))
    &&& (out.len() > 0 && result_unknown(out[out.len() - 1]) ==> !(next_spec(gs, c)
        matches Scan::Error { error: LexerErrorKind::UnknownSequence, .. }))
}

/// An empty stream prefix is lawful at cursor zero.
proof fn lemma_stream_init(gs: Seq<Seq<char>>)
    ensures
        stream_inv(Seq::<LexerResult>::empty(), gs, 0),
{
    reveal(stream_inv);
    let out = Seq::<LexerResult>::empty();
    assert(gs.subrange(0, 0) =~= Seq::<Seq<char>>::empty());
    assert(Seq::new(out.len(), |k: int| result_text(out[k])) =~= Seq::<Seq<char>>::empty());
}

/// Appending one more covered text keeps the concatenation of the texts
/// equal to the scanned prefix of the graphemes.
proof fn lemma_texts_push(out: Seq<LexerResult>, gs: Seq<Seq<char>>, c0: int, c1: int, v: LexerResult)
    requires
        Seq::new(out.len(), |k: int| result_text(out[k])).flatten() == gs.subrange(
            0,
            c0,
        ).flatten(),
        result_text(v) == gs.subrange(c0, c1).flatten(),
        0 <= c0 <= c1 <= gs.len(),
    ensures
        Seq::new(out.push(v).len(), |k: int| result_text(out.push(v)[k])).flatten()
            == gs.subrange(0, c1).flatten(),
{
    broadcast use vstd::prelude::Seq::lemma_flatten_push;

    let out1 = out.push(v);
    let texts_new = Seq::new(out1.len(), |k: int| result_text(out1[k]));
    let texts_old = Seq::new(out.len(), |k: int| result_text(out[k]));
    assert(texts_new =~= texts_old.push(result_text(v)));
    vstd::seq_lib::lemma_flatten_concat(gs.subrange(0, c0), gs.subrange(c0, c1));
    assert(gs.subrange(0, c0) + gs.subrange(c0, c1) =~= gs.subrange(0, c1));
}

/// Appending the step taken at the cursor keeps a stream prefix lawful.
#[verifier::rlimit(100)]
proof fn lemma_stream_push(
    out: Seq<LexerResult>,
    gs: Seq<Seq<char>>,
    c0: int,
    c1: int,
    v: LexerResult,
)
    requires
        stream_inv(out, gs, c0),
        0 <= c0 < c1 <= gs.len(),
        !(next_spec(gs, c0) is Absent),
        result_reflects(Some(v), gs, c0, next_spec(gs, c0)),
        c1 == scan_end(next_spec(gs, c0)),
    ensures
        stream_inv(out.push(v), gs, c1),
{
    reveal(stream_inv);
    let out1 = out.push(v);
    let n = out.len() as int;
    assert(result_start(v) == c0 && result_end(v) == c1 && result_text(v) == gs.subrange(
        c0,
        c1,
    ).flatten());
    lemma_texts_push(out, gs, c0, c1, v);
    assert(out1.len() > 0 ==> result_start(out1[0]) == 0) by {
        if n == 0 {
            assert(out1[0] == v);
        } else {
            assert(out1[0] == out[0]);
        }
    }
    assert forall|k: int|
        #![trigger out1[k], out1[k + 1]]
        0 <= k && k + 1 < out1.len() implies result_end(out1[k]) == result_start(out1[k + 1]) by {
        if k + 1 < n {
            assert(out1[k] == out[k]);
            assert(out1[k + 1] == out[k + 1]);
        } else {
            assert(out1[k] == out[n - 1]);
            assert(out1[k + 1] == v);
        }
    }
    assert forall|k: int|
        0 <= k < out1.len() implies 0 <= result_start(#[trigger] out1[k]) < result_end(out1[k])
        <= gs.len() by {
        if k < n {
            assert(out1[k] == out[k]);
        } else {
            assert(out1[k] == v);
        }
    }
    assert forall|k: int|
        0 <= k < out1.len() implies result_text(#[trigger] out1[k]) == gs.subrange(
        result_start(out1[k]),
        result_end(out1[k]),
    ).flatten() by {
        if k < n {
            assert(out1[k] == out[k]);
        } else {
            assert(out1[k] == v);
        }
    }
    assert forall|k: int|
        0 <= k < out1.len() implies result_reflects(
        Some(#[trigger] out1[k]),
        gs,
        result_start(out1[k]),
        next_spec(gs, result_start(out1[k])),
    ) by {
        if k < n {
            assert(out1[k] == out[k]);
        } else {
            assert(out1[k] == v);
        }
    }
    assert forall|k: int|
        #![trigger out1[k], out1[k + 1]]
        0 <= k && k + 1 < out1.len() implies !(result_unknown(out1[k]) && result_unknown(
        out1[k + 1],
    )) by {
        if k + 1 < n {
            assert(out1[k] == out[k]);
            assert(out1[k + 1] == out[k + 1]);
        } else {
            assert(out1[k] == out[n - 1]);
            assert(out1[k + 1] == v);
            if result_unknown(out[n - 1]) && result_unknown(v) {
                assert(next_spec(gs, c0) matches Scan::Error {
                    error: LexerErrorKind::UnknownSequence,
                    ..
                });
                assert(false);
            }
        }
    }
    if out1.len() > 0 && result_unknown(out1[out1.len() - 1]) {
        assert(out1[out1.len() - 1] == v);
        lemma_no_consecutive_unknown(gs, c0);
    }
}

/// A lawful stream prefix that has scanned the whole input satisfies the
/// laws of the stream, stated over the source scalars.
#[verifier::rlimit(100)]
#[verifier::spinoff_prover]
proof fn lemma_stream_done(out: Seq<LexerResult>, gs: Seq<Seq<char>>, src: Seq<char>)
    requires
        stream_inv(out, gs, gs.len() as int),
        gs.flatten() == src,
    ensures
        Seq::new(out.len(), |k: int| result_text(out[k])).flatten() == src,
        out.len() > 0 ==> result_start(out[0]) == 0,
        forall|k: int|
            #![trigger out[k], out[k + 1]]
            0 <= k && k + 1 < out.len() ==> result_end(out[k]) == result_start(out[k + 1]),
        out.len() > 0 ==> result_end(out[out.len() - 1]) == gs.len(),
        forall|k: int|
            0 <= k < out.len() ==> result_text(#[trigger] out[k]) == gs.subrange(
                result_start(out[k]),
                result_end(out[k]),
            ).flatten(),
        forall|k: int|
            0 <= k < out.len() ==> 0 <= result_start(#[trigger] out[k]) < result_end(out[k])
                <= gs.len(),
        out.len() <= gs.len(),
        forall|k: int|
            0 <= k < out.len() ==> result_reflects(
                Some(#[trigger] out[k]),
                gs,
                result_start(out[k]),
                next_spec(gs, result_start(out[k])),
            ),
        forall|k: int|
            #![trigger out[k], out[k + 1]]
            0 <= k && k + 1 < out.len() ==> !(result_unknown(out[k]) && result_unknown(
                out[k + 1],
            )),
{
    reveal(stream_inv);
    assert(gs.subrange(0, gs.len() as int) =~= gs);
}

/// Run the edition 1 engine over a whole source and collect the stream.
///
/// The postconditions state the laws of the stream: the emitted texts
/// concatenate to the source exactly; the spans tile the source without
/// gaps or overlaps, starting at offset zero; every element's text is the
/// source slice its span names, read in graphemes; every element consumes
/// at least one grapheme, so there are at most as many elements as
/// graphemes; every element is the step the grammar specifies at its start
/// offset; and no two consecutive elements are unknown-sequence errors.
#[verifier::rlimit(100)]
pub fn tokenize(source: &str) -> (r: Vec<LexerResult>)
    ensures
        Seq::new(r@.len(), |k: int| result_text(r@[k])).flatten() == source@,
        r@.len() > 0 ==> result_start(r@[0]) == 0,
        forall|k: int|
            #![trigger r@[k], r@[k + 1]]
            0 <= k && k + 1 < r@.len() ==> result_end(r@[k]) == result_start(r@[k + 1]),
        r@.len() > 0 ==> result_end(r@[r@.len() - 1]) == graphemes_of(source@).len(),
        forall|k: int|
            0 <= k < r@.len() ==> result_text(#[trigger] r@[k]) == graphemes_of(
                source@,
            ).subrange(result_start(r@[k]), result_end(r@[k])).flatten(),
        forall|k: int|
            0 <= k < r@.len() ==> 0 <= result_start(#[trigger] r@[k]) < result_end(r@[k])
                <= graphemes_of(source@).len(),
        r@.len() <= graphemes_of(source@).len(),
        forall|k: int|
            0 <= k < r@.len() ==> result_reflects(
                Some(#[trigger] r@[k]),
                graphemes_of(source@),
                result_start(r@[k]),
                next_spec(graphemes_of(source@), result_start(r@[k])),
            ),
        forall|k: int|
            #![trigger r@[k], r@[k + 1]]
            0 <= k && k + 1 < r@.len() ==> !(result_unknown(r@[k]) && result_unknown(r@[k + 1])),
{
    let ghost gs = graphemes_of(source@);
    let mut lx = LexerEdition1::new(source);
    let mut out: Vec<LexerResult> = Vec::new();
    proof {
        lemma_stream_init(gs);
        assert(out@ =~= Seq::<LexerResult>::empty());
    }
    loop
        invariant
            lx.wf(),
            lx.gs() == gs,
            lx.src() == source@,
            gs == graphemes_of(source@),
            0 <= lx.cursor() <= gs.len(),
            stream_inv(out@, gs, lx.cursor()),
        decreases gs.len() - lx.cursor(),
    {
        let ghost c0 = lx.cursor();
        let ghost out0 = out@;
        proof {
            lemma_next_spec_progress(gs, c0);
        }
        let x = lx.next_token();
        match x {
            None => {
                proof {
                    assert(lx.cursor() == gs.len());
                    lemma_stream_done(out@, gs, source@);
                }
                return out;
            },
            Some(v) => {
                out.push(v);
                proof {
                    lemma_stream_push(out0, gs, c0, lx.cursor(), v);
                    assert(out@ =~= out0.push(v));
                }
            },
        }
    }
}

/// Wrap a production's result as an element of the token stream.
fn lexer_result_of(res: Result<Token, LexerError>) -> (r: LexerResult)
    ensures
        match res {
            Ok(t) => r == LexerResult::Token(t),
            Err(e) => r == LexerResult::Error(e),
        },
{
    match res {
        Ok(t) => LexerResult::Token(t),
        Err(e) => LexerResult::Error(e),
    }
}

} // verus!
