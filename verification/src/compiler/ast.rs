//! Structures which represent parts of the abstract syntax tree of a
//! program. These are data definitions for a downstream parser; no pipeline
//! stage in this crate builds them yet.

use vstd::prelude::*;
use super::span::Span;

verus! {

/// A name in an expression.
#[derive(Clone, Debug, PartialEq)]
pub enum Name {
    /// A name whose first non-underscore character is a lowercase letter.
    Lower(Span, String),
    /// A name whose first non-underscore character is an uppercase letter.
    Upper(Span, String),
    /// A name that starts with `@`, which represents a field.
    Field(Span, String),
    /// A name that starts with `@@`, which represents a static field.
    FieldStatic(Span, String),
    /// A name which is only a single underscore.
    Underscore(Span),
    /// An anonymous name which is either `$` or `$<non-negative>`.
    Anonymous(Span, u32),
}

/// A binary operator in an expression.
#[derive(Clone, Debug, PartialEq)]
pub enum BinaryOp {
    /// The binary `&` operator.
    Amp(Span),
    /// The binary `&&` operator.
    AmpAmp(Span),
    /// The binary `!=` operator.
    BangEq(Span),
    /// The binary `^` operator.
    Caret(Span),
    /// The binary `::` operator.
    ColonColon(Span),
    /// The binary `.` operator.
    Dot(Span),
    /// The binary `=` operator.
    Eq(Span),
    /// The binary `==` operator.
    EqEq(Span),
    /// The binary `>` operator.
    Gt(Span),
    /// The binary `>>` operator.
    GtGt(Span),
    /// The binary `>=` operator.
    GtEq(Span),
    /// The binary `<` operator.
    Lt(Span),
    /// The binary `<<` operator.
    LtLt(Span),
    /// The binary `<=` operator.
    LtEq(Span),
    /// The binary `-` operator.
    Minus(Span),
    /// The binary `%` operator.
    Percent(Span),
    /// The binary `|` operator.
    Pipe(Span),
    /// The binary `||` operator.
    PipePipe(Span),
    /// The binary `+` operator.
    Plus(Span),
    /// The binary `?=` operator.
    QuestionEq(Span),
    /// The binary `/` operator.
    Slash(Span),
    /// The binary `//` operator.
    SlashSlash(Span),
    /// The binary `*` operator.
    Star(Span),
    /// The binary `**` operator.
    StarStar(Span),
}

/// A unary operator in an expression.
#[derive(Clone, Debug, PartialEq)]
pub enum UnaryOp {
    /// The unary `!` operator.
    Bang(Span),
    /// The unary `-` operator.
    Minus(Span),
    /// The unary `*` operator.
    Star(Span),
    /// The unary `**` operator.
    StarStar(Span),
    /// The unary `~` operator.
    Tilde(Span),
}

/// Access modifiers on items within a type.
#[derive(Clone, Debug, PartialEq)]
pub enum TypeAccessModifier {
    /// The item is marked as private, which is the absence of other
    /// modifiers.
    Private,
    /// The item is marked as public.
    Public,
}

/// Access modifiers on items within a trait.
#[derive(Clone, Debug, PartialEq)]
pub enum TraitAccessModifier {
    /// The item is marked as abstract.
    Abstract,
    /// The item is marked as private, which is the absence of other
    /// modifiers.
    Private,
    /// The item is marked as public.
    Public,
}

} // verus!
