//! A lexer which produces tokens for source code. The lexer only produces
//! the minimal information about the token and its location, and does not
//! try to make any decisions on context.
//!
//! The base lexer is a cursor over the grapheme clusters of a source text.
//! Its model is the sequence of those clusters ([`LexerBase::gs`]), the
//! cursor offset, and the marked offset at which the lexeme being built
//! begins; every primitive states exactly how it moves the cursor over that
//! model.

use vstd::prelude::*;
use vstd::string::StrSliceExecFns;
use vstd::string::StringExecFns;
use super::grammar::{class_pred, class_spec, run_end, GraphemeClass};
use super::span::Span;
use super::token::{Token, TokenKind};
use crate::edition::Edition;
use crate::util::text::{
    graphemes,
    graphemes_of,
    is_alpha,
    is_alphanum,
    is_bin_digit,
    is_digit,
    is_hex_digit,
    is_oct_digit,
    is_upper,
};

verus! {

/// The types of errors that can occur during lexing.
#[derive(Clone, Debug, PartialEq, Eq, Structural)]
pub enum LexerErrorKind {
    /// The token was incomplete. For example, this could be missing closing
    /// delimiters on a string.
    Incomplete,

    /// A token was able to be lexed, but its contents are invalid.
    Invalid,

    /// The sequence of graphemes does not match the definitions of any
    /// tokens. This is the fallthrough case where no tokens are able to be
    /// matched; consecutive such graphemes are merged into a single error.
    UnknownSequence,
}

/// An error produced in place of a token of source code.
#[derive(Clone, Debug, PartialEq)]
pub struct LexerError {
    /// The text of the token.
    pub text: String,

    /// The kind of the error.
    pub kind: LexerErrorKind,

    /// The location of the error.
    pub span: Span,

    /// The kind that the token would be (if able to be determined).
    pub token_kind: Option<TokenKind>,
}

/// The result from a partial lexer.
#[derive(Clone, Debug, PartialEq)]
pub enum LexerResult {
    /// A token was successfully lexed.
    Token(Token),

    /// A token was matched, but it contained an error.
    Error(LexerError),
}

/// The grapheme clusters of the pattern `p` stand at offset `i` of `gs`, in
/// order: the pattern's own segmentation is a prefix of the input there.
pub open spec fn pat_matches(gs: Seq<Seq<char>>, i: int, p: Seq<char>) -> bool {
    &&& 0 <= i
    &&& i + graphemes_of(p).len() <= gs.len()
    &&& forall|k: int| 0 <= k < graphemes_of(p).len() ==> gs[i + k] == graphemes_of(p)[k]
}

/// Test that two strings hold the same scalars.
pub(crate) fn string_eq(a: &String, b: &String) -> (r: bool)
    ensures
        r == (a@ == b@),
{
    a.eq(b)
}

/// Test that a grapheme cluster is exactly the single scalar `c`.
pub(crate) fn grapheme_is(g: &str, c: char) -> (r: bool)
    ensures
        r == (g@ == seq![c]),
{
    if g.unicode_len() == 1 {
        let c0 = g.get_char(0);
        proof {
            if c0 == c {
                assert(g@ =~= seq![c]);
            }
        }
        c0 == c
    } else {
        false
    }
}

/// Test that a grapheme cluster is exactly the two scalars `c0`, `c1`.
pub(crate) fn grapheme_is_pair(g: &str, c0: char, c1: char) -> (r: bool)
    ensures
        r == (g@ == seq![c0, c1]),
{
    if g.unicode_len() == 2 {
        let g0 = g.get_char(0);
        let g1 = g.get_char(1);
        proof {
            if g0 == c0 && g1 == c1 {
                assert(g@ =~= seq![c0, c1]);
            }
        }
        g0 == c0 && g1 == c1
    } else {
        false
    }
}

/// Test that a grapheme cluster belongs to a class.
pub(crate) fn class_test(c: GraphemeClass, g: &str) -> (r: bool)
    ensures
        r == class_spec(c, g@),
{
    match c {
        GraphemeClass::SpaceTab => grapheme_is(g, ' ') || grapheme_is(g, '\t'),
        GraphemeClass::Underscore => grapheme_is(g, '_'),
        GraphemeClass::Alpha => is_alpha(g),
        GraphemeClass::Alphanum => is_alphanum(g),
        GraphemeClass::Upper => is_upper(g),
        GraphemeClass::Digit => is_digit(g),
        GraphemeClass::BinDigit => is_bin_digit(g),
        GraphemeClass::OctDigit => is_oct_digit(g),
        GraphemeClass::HexDigit => is_hex_digit(g),
        GraphemeClass::NotNewline => !(grapheme_is(g, '\n') || grapheme_is_pair(g, '\r', '\n')),
    }
}

/// This base lexer implements many common operations that derived lexers
/// will share.
#[derive(Clone)]
pub struct LexerBase {
    /// The previous grapheme consumed by the lexer.
    prev: Option<String>,

    /// The index in the source, measured in graphemes.
    index: usize,

    /// The marked index in the source, measured in graphemes.
    mark: usize,

    /// The source code.
    source: String,

    /// The grapheme clusters of the source, in order.
    graphemes: Vec<String>,
}

impl LexerBase {
    /// The grapheme clusters of the source, as sequences of scalar values.
    pub closed spec fn gs(&self) -> Seq<Seq<char>> {
        self.graphemes.deep_view()
    }

    /// The scalar values of the source.
    pub closed spec fn src(&self) -> Seq<char> {
        self.source@
    }

    /// The cursor, as a grapheme offset into the source.
    pub closed spec fn cursor(&self) -> int {
        self.index as int
    }

    /// The marked position, as a grapheme offset into the source.
    pub closed spec fn marked(&self) -> int {
        self.mark as int
    }

    /// The previous grapheme consumed, if any.
    pub closed spec fn prev_grapheme(&self) -> Option<Seq<char>> {
        self.prev.deep_view()
    }

    /// The lexer is well formed: the mark does not pass the cursor, the
    /// cursor does not pass the end of the source, and the stored grapheme
    /// clusters are exactly the segmentation of the source.
    pub open spec fn wf(&self) -> bool {
        &&& 0 <= self.marked() <= self.cursor() <= self.gs().len() <= usize::MAX
        &&& self.gs() == graphemes_of(self.src())
        &&& self.gs().flatten() == self.src()
        &&& forall|i: int| 0 <= i < self.gs().len() ==> (#[trigger] self.gs()[i]).len() > 0
    }

    /// Create a new lexer for some source.
    ///
    /// # Arguments
    ///
    /// * `source` - The source to lex.
    ///
    /// # Returns
    ///
    /// A new [`LexerBase`] with the cursor and the mark at offset zero.
    pub fn new(source: &str) -> (r: LexerBase)
        ensures
            r.wf(),
            r.src() == source@,
            r.gs() == graphemes_of(source@),
            r.cursor() == 0,
            r.marked() == 0,
            r.prev_grapheme() is None,
    {
        let gr = graphemes(source);
        proof {
            assert(vstd::std_specs::vec::spec_vec_len(&gr) == gr@.len());
            assert(gr.deep_view().len() == gr@.len());
        }
        LexerBase { prev: None, index: 0, mark: 0, source: source.to_owned(), graphemes: gr }
    }

    /// Get the source string that the lexer is working on.
    pub fn source(&self) -> (r: &str)
        ensures
            r@ == self.src(),
    {
        self.source.as_str()
    }

    /// Mark the lexer with the current position.
    pub fn mark(&mut self)
        requires
            old(self).wf(),
        ensures
            final(self).wf(),
            final(self).gs() == old(self).gs(),
            final(self).src() == old(self).src(),
            final(self).cursor() == old(self).cursor(),
            final(self).marked() == old(self).cursor(),
            final(self).prev_grapheme() == old(self).prev_grapheme(),
    {
        self.mark = self.index;
    }

    /// Get the span of the marked to current position.
    pub fn span(&self) -> (r: Span)
        requires
            self.wf(),
        ensures
            r.start == self.marked(),
            r.end == self.cursor(),
    {
        Span::new(self.mark, self.index)
    }

    /// Get the next grapheme and advance the lexer.
    ///
    /// # Returns
    ///
    /// The next grapheme if not at the end of the lexer.
    pub fn next(&mut self) -> (r: Option<String>)
        requires
            old(self).wf(),
        ensures
            final(self).wf(),
            final(self).gs() == old(self).gs(),
            final(self).src() == old(self).src(),
            final(self).marked() == old(self).marked(),
            old(self).cursor() < old(self).gs().len() ==> {
                &&& r matches Some(g) && g@ == old(self).gs()[old(self).cursor()]
                &&& final(self).cursor() == old(self).cursor() + 1
                &&& final(self).prev_grapheme() == Some(old(self).gs()[old(self).cursor()])
            },
            old(self).cursor() >= old(self).gs().len() ==> {
                &&& r is None
                &&& final(self).cursor() == old(self).cursor()
                &&& final(self).prev_grapheme() == old(self).prev_grapheme()
            },
    {
        if self.index < self.graphemes.len() {
            let g = self.graphemes[self.index].clone();
            self.index = self.index + 1;
            self.prev = Some(g.clone());
            Some(g)
        } else {
            None
        }
    }

    /// Get the previous grapheme.
    ///
    /// # Returns
    ///
    /// The previous grapheme consumed, if any was consumed yet.
    pub fn prev(&self) -> (r: Option<String>)
        ensures
            r.deep_view() == self.prev_grapheme(),
    {
        match &self.prev {
            Some(g) => Some(g.clone()),
            None => None,
        }
    }

    /// Peek the next grapheme without advancing the lexer.
    ///
    /// # Returns
    ///
    /// The next grapheme if not at the end of the lexer.
    pub fn peek(&self) -> (r: Option<String>)
        requires
            self.wf(),
        ensures
            self.cursor() < self.gs().len() ==> (r matches Some(g) && g@
                == self.gs()[self.cursor()]),
            self.cursor() >= self.gs().len() ==> r is None,
    {
        if self.index < self.graphemes.len() {
            Some(self.graphemes[self.index].clone())
        } else {
            None
        }
    }

    /// Peek the grapheme `k` positions past the cursor without advancing the
    /// lexer.
    pub(crate) fn peek_at(&self, k: usize) -> (r: Option<String>)
        requires
            self.wf(),
        ensures
            self.cursor() + k < self.gs().len() ==> (r matches Some(g) && g@
                == self.gs()[self.cursor() + k]),
            self.cursor() + k >= self.gs().len() ==> r is None,
    {
        proof {
            assert(vstd::std_specs::vec::spec_vec_len(&self.graphemes) == self.graphemes@.len());
            assert(self.gs().len() == self.graphemes@.len());
        }
        if k < self.graphemes.len() - self.index {
            Some(self.graphemes[self.index + k].clone())
        } else {
            None
        }
    }

    /// Test whether the next grapheme exists and belongs to a class, without
    /// advancing the lexer.
    pub fn peek_class(&self, c: GraphemeClass) -> (r: bool)
        requires
            self.wf(),
        ensures
            r == (self.cursor() < self.gs().len() && class_spec(c, self.gs()[self.cursor()])),
    {
        if self.index < self.graphemes.len() {
            class_test(c, self.graphemes[self.index].as_str())
        } else {
            false
        }
    }

    /// Extract the text between the marked and current position.
    ///
    /// # Returns
    ///
    /// The text between the marked boundaries.
    pub fn text(&self) -> (r: String)
        requires
            self.wf(),
        ensures
            r@ == self.gs().subrange(self.marked(), self.cursor()).flatten(),
    {
        let mut s = String::new();
        let mut j: usize = self.mark;
        proof {
            assert(self.gs().subrange(self.marked(), self.marked()) =~= Seq::<Seq<char>>::empty());
        }
        while j < self.index
            invariant
                self.wf(),
                self.mark <= j <= self.index,
                s@ == self.gs().subrange(self.marked(), j as int).flatten(),
            decreases self.index - j,
        {
            proof {
                broadcast use vstd::prelude::Seq::lemma_flatten_push;

                assert(self.gs().subrange(self.marked(), j + 1) =~= self.gs().subrange(
                    self.marked(),
                    j as int,
                ).push(self.gs()[j as int]));
            }
            s.append(self.graphemes[j].as_str());
            j = j + 1;
        }
        s
    }

    /// Extract a token between the marked and current position.
    ///
    /// # Arguments
    ///
    /// * `kind` - The kind of the token to extract.
    ///
    /// # Returns
    ///
    /// This always returns `Some(Ok(...))` with the [`Token`].
    pub fn extract(&self, kind: TokenKind) -> (r: Option<Result<Token, LexerError>>)
        requires
            self.wf(),
        ensures
            r matches Some(res) && res matches Ok(t) && t.kind == kind && t.span.start
                == self.marked() && t.span.end == self.cursor() && t.text@ == self.gs().subrange(
                self.marked(),
                self.cursor(),
            ).flatten(),
    {
        Some(Ok(Token { text: self.text(), kind, span: self.span() }))
    }

    /// Extract an error between the marked and current position.
    ///
    /// # Arguments
    ///
    /// * `kind` - The kind of the error.
    /// * `token_kind` - The kind of the token that the error occurred in, if
    ///   known.
    ///
    /// # Returns
    ///
    /// This always returns `Some(Err(...))` with a [`LexerError`].
    pub fn error(&self, kind: LexerErrorKind, token_kind: Option<TokenKind>) -> (r: Option<
        Result<Token, LexerError>,
    >)
        requires
            self.wf(),
        ensures
            r matches Some(res) && res matches Err(e) && e.kind == kind && e.token_kind
                == token_kind && e.span.start == self.marked() && e.span.end == self.cursor()
                && e.text@ == self.gs().subrange(self.marked(), self.cursor()).flatten(),
    {
        Some(Err(LexerError { text: self.text(), kind, span: self.span(), token_kind }))
    }

    /// Advance the lexer by `n` graphemes.
    pub(crate) fn advance(&mut self, n: usize)
        requires
            old(self).wf(),
            old(self).cursor() + n <= old(self).gs().len(),
        ensures
            final(self).wf(),
            final(self).gs() == old(self).gs(),
            final(self).src() == old(self).src(),
            final(self).marked() == old(self).marked(),
            final(self).cursor() == old(self).cursor() + n,
            n > 0 ==> final(self).prev_grapheme() == Some(
                old(self).gs()[old(self).cursor() + n - 1],
            ),
            n == 0 ==> final(self).prev_grapheme() == old(self).prev_grapheme(),
    {
        let mut k: usize = 0;
        while k < n
            invariant
                self.wf(),
                self.gs() == old(self).gs(),
                self.src() == old(self).src(),
                self.marked() == old(self).marked(),
                k <= n,
                old(self).cursor() + n <= old(self).gs().len(),
                self.cursor() == old(self).cursor() + k,
                k > 0 ==> self.prev_grapheme() == Some(old(self).gs()[old(self).cursor() + k - 1]),
                k == 0 ==> self.prev_grapheme() == old(self).prev_grapheme(),
            decreases n - k,
        {
            self.next();
            k = k + 1;
        }
    }

    /// Consume graphemes while they belong to a class.
    ///
    /// # Arguments
    ///
    /// * `class` - The class of graphemes to consume.
    ///
    /// # Returns
    ///
    /// The number of graphemes consumed: the cursor ends at the end of the
    /// maximal run of graphemes of the class.
    pub fn take_while(&mut self, class: GraphemeClass) -> (n: usize)
        requires
            old(self).wf(),
        ensures
            final(self).wf(),
            final(self).gs() == old(self).gs(),
            final(self).src() == old(self).src(),
            final(self).marked() == old(self).marked(),
            final(self).cursor() == run_end(old(self).gs(), old(self).cursor(), class_pred(class)),
            n == final(self).cursor() - old(self).cursor(),
            n > 0 ==> final(self).prev_grapheme() == Some(
                old(self).gs()[final(self).cursor() - 1],
            ),
            n == 0 ==> final(self).prev_grapheme() == old(self).prev_grapheme(),
    {
        let mut count: usize = 0;
        while self.peek_class(class)
            invariant
                self.wf(),
                self.gs() == old(self).gs(),
                self.src() == old(self).src(),
                self.marked() == old(self).marked(),
                self.cursor() == old(self).cursor() + count,
                run_end(old(self).gs(), old(self).cursor(), class_pred(class)) == run_end(
                    self.gs(),
                    self.cursor(),
                    class_pred(class),
                ),
                count > 0 ==> self.prev_grapheme() == Some(old(self).gs()[self.cursor() - 1]),
                count == 0 ==> self.prev_grapheme() == old(self).prev_grapheme(),
            decreases self.gs().len() - self.cursor(),
        {
            self.next();
            count = count + 1;
        }
        count
    }

    /// Advance the lexer to consume a sequence if it exists at the current
    /// lexer position: the grapheme clusters of the sequence must stand
    /// there as the next clusters of the source.
    ///
    /// # Arguments
    ///
    /// * `sequence` - The sequence to match.
    ///
    /// # Returns
    ///
    /// `true` when the sequence is matched and the lexer is advanced by as
    /// many graphemes as the sequence holds, `false` otherwise.
    pub fn expect_seq(&mut self, sequence: &str) -> (r: bool)
        requires
            old(self).wf(),
        ensures
            final(self).wf(),
            final(self).gs() == old(self).gs(),
            final(self).src() == old(self).src(),
            final(self).marked() == old(self).marked(),
            r == pat_matches(old(self).gs(), old(self).cursor(), sequence@),
            r ==> final(self).cursor() == old(self).cursor() + graphemes_of(sequence@).len(),
            r && graphemes_of(sequence@).len() > 0 ==> final(self).prev_grapheme() == Some(
                old(self).gs()[old(self).cursor() + graphemes_of(sequence@).len() - 1],
            ),
            !r || graphemes_of(sequence@).len() == 0 ==> final(self).cursor() == old(self).cursor()
                && final(self).prev_grapheme() == old(self).prev_grapheme(),
    {
        let ps = graphemes(sequence);
        let n = ps.len();
        proof {
            assert(vstd::std_specs::vec::spec_vec_len(&ps) == ps@.len());
            assert(ps.deep_view().len() == ps@.len());
        }
        if n > self.graphemes.len() - self.index {
            return false;
        }
        let mut k: usize = 0;
        while k < n
            invariant
                self.wf(),
                *self == *old(self),
                k <= n,
                ps.deep_view() == graphemes_of(sequence@),
                n == graphemes_of(sequence@).len(),
                n == ps@.len(),
                self.cursor() + n <= self.gs().len(),
                forall|j: int|
                    0 <= j < k ==> self.gs()[self.cursor() + j] == graphemes_of(sequence@)[j],
            decreases n - k,
        {
            proof {
                assert(vstd::std_specs::vec::spec_vec_len(&self.graphemes)
                    == self.graphemes@.len());
                assert(self.gs().len() == self.graphemes@.len());
                assert(self.gs()[self.cursor() + k] == self.graphemes@[self.index + k as int]@);
                assert(graphemes_of(sequence@)[k as int] == ps@[k as int]@);
            }
            if !string_eq(&self.graphemes[self.index + k], &ps[k]) {
                return false;
            }
            k = k + 1;
        }
        self.advance(n);
        true
    }

    /// Advance the lexer to consume up to one grapheme at the current
    /// position, matched from a set of graphemes.
    ///
    /// # Arguments
    ///
    /// * `set` - The graphemes to match, which is treated as a set.
    ///
    /// # Returns
    ///
    /// `true` when the next grapheme equals one of the grapheme clusters of
    /// `set` and the lexer is advanced, `false` otherwise.
    pub fn expect_one(&mut self, set: &str) -> (r: bool)
        requires
            old(self).wf(),
        ensures
            final(self).wf(),
            final(self).gs() == old(self).gs(),
            final(self).src() == old(self).src(),
            final(self).marked() == old(self).marked(),
            r == (old(self).cursor() < old(self).gs().len() && exists|k: int|
                0 <= k < graphemes_of(set@).len() && old(self).gs()[old(self).cursor()]
                    == #[trigger] graphemes_of(set@)[k]),
            r ==> final(self).cursor() == old(self).cursor() + 1 && final(self).prev_grapheme()
                == Some(old(self).gs()[old(self).cursor()]),
            !r ==> final(self).cursor() == old(self).cursor() && final(self).prev_grapheme()
                == old(self).prev_grapheme(),
    {
        if self.index >= self.graphemes.len() {
            return false;
        }
        let ss = graphemes(set);
        let n = ss.len();
        proof {
            assert(vstd::std_specs::vec::spec_vec_len(&ss) == ss@.len());
            assert(ss.deep_view().len() == ss@.len());
        }
        let mut k: usize = 0;
        while k < n
            invariant
                self.wf(),
                *self == *old(self),
                k <= n,
                ss.deep_view() == graphemes_of(set@),
                n == graphemes_of(set@).len(),
                n == ss@.len(),
                self.cursor() < self.gs().len(),
                forall|j: int|
                    0 <= j < k ==> self.gs()[self.cursor()] != #[trigger] graphemes_of(set@)[j],
            decreases n - k,
        {
            proof {
                assert(self.gs()[self.cursor()] == self.graphemes@[self.index as int]@);
                assert(graphemes_of(set@)[k as int] == ss@[k as int]@);
            }
            if string_eq(&self.graphemes[self.index], &ss[k]) {
                self.next();
                return true;
            }
            k = k + 1;
        }
        false
    }

    /// Lex an exact pattern if it matches.
    ///
    /// # Arguments
    ///
    /// * `pattern` - The pattern to match.
    /// * `kind` - The kind of the resulting token.
    ///
    /// # Returns
    ///
    /// `Some(Ok(...))` containing a [`Token`] if the pattern was matched,
    /// otherwise `None`.
    pub fn exact(&mut self, pattern: &str, kind: TokenKind) -> (r: Option<
        Result<Token, LexerError>,
    >)
        requires
            old(self).wf(),
        ensures
            final(self).wf(),
            final(self).gs() == old(self).gs(),
            final(self).src() == old(self).src(),
            final(self).marked() == old(self).marked(),
            pat_matches(old(self).gs(), old(self).cursor(), pattern@) ==> {
                &&& final(self).cursor() == old(self).cursor() + graphemes_of(pattern@).len()
                &&& r matches Some(res) && res matches Ok(t) && t.kind == kind && t.span.start
                    == old(self).marked() && t.span.end == final(self).cursor() && t.text@
                    == old(self).gs().subrange(old(self).marked(), final(self).cursor()).flatten()
            },
            !pat_matches(old(self).gs(), old(self).cursor(), pattern@) ==> r is None
                && final(self).cursor() == old(self).cursor()
                && final(self).prev_grapheme() == old(self).prev_grapheme(),
    {
        if self.expect_seq(pattern) {
            self.extract(kind)
        } else {
            None
        }
    }
}

/// The operations that any lexer should be able to perform.
pub trait Lexer {
    /// The lexer is in a state in which its operations may be called.
    spec fn lexer_wf(&self) -> bool;

    /// Get the source code of the lexer.
    fn source(&self) -> &str;

    /// Get the edition of the lexer.
    fn edition(&self) -> Edition;

    /// If there are more tokens available, consume the next one and return
    /// it. If the token cannot be determined, an error is returned. When
    /// there are no more tokens left this returns `None`.
    fn next_token(&mut self) -> (r: Option<LexerResult>)
        requires
            old(self).lexer_wf(),
        ensures
            final(self).lexer_wf(),
    ;
}

} // verus!
