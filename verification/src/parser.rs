//! The parser data model: combinator trees, their output values, and
//! the lazy error builders that failing grammars use to report problems.
//!
//! A parser is a value of the [`Parser`] datatype; composing combinators
//! builds a bigger value and never runs anything. Each executable type
//! here has a mathematical view (`GParser`, `GValue`, ...) over
//! sequences instead of vectors and strings; the functional semantics in
//! [`crate::semantics`] is stated over the views, so that every law
//! about a combinator is a theorem about data.

use vstd::prelude::*;

use crate::span::Span;
use crate::stream::AsIter;

verus! {

broadcast use vstd::std_specs::vec::axiom_vec_index_decreases;


/// The tri-state outcome of a parse: `Ok(Some(o))` is a definite match,
/// `Ok(None)` a recoverable absence (the stream is left untouched), and
/// `Err(e)` a hard error that propagates.
pub type ParseResult<O, E> = Result<Option<O>, E>;

/// A pure transformation applied by the `map` combinator to the output
/// of a successful parse.
#[derive(Debug, Clone, PartialEq, Eq)]
pub enum Transform {
    /// Discard the output.
    ToUnit,
    /// Keep the first component of a pair.
    Fst,
    /// Keep the second component of a pair.
    Snd,
    /// Replace the output by a fixed letter.
    ConstChar(char),
    /// Flatten the output into the text it spells.
    Render,
    /// Turn an ASCII digit byte into its numeric value.
    DigitValue,
}

/// One step of a path into a structured output value.
#[derive(Debug, Clone, PartialEq, Eq)]
pub enum Side {
    /// The first component of a pair.
    Fst,
    /// The second component of a pair.
    Snd,
    /// The payload of an optional value.
    Inner,
    /// The last letter of the text the value spells.
    Last,
}

/// What a successful parse yields.
///
/// Combinators of different shapes produce structured values: sequencing
/// pairs them, repetition lists them, optional parses wrap them, and
/// span capture tags them.
#[derive(Debug, PartialEq, Eq)]
pub enum Value {
    /// No payload (discarded output, lookahead checks).
    Unit,
    /// A single input byte, as matched by `any` or `one_of`.
    Byte(u8),
    /// A single decoded letter, as produced by grammar rules.
    Char(char),
    /// A piece of text, as matched by `exact_utf8` or built by `Render`.
    Text(String),
    /// The outputs of two sequenced parsers.
    Pair(Box<Value>, Box<Value>),
    /// The outputs of a repeated parser, in parse order.
    List(Vec<Value>),
    /// The output of an optional parser.
    Maybe(Option<Box<Value>>),
    /// A source span, as captured by `spanned`.
    SpanVal(Span),
}

/// The mathematical shape of a [`Value`]: text as character sequences,
/// lists as sequences.
pub enum GValue {
    Unit,
    Byte(u8),
    Char(char),
    Text(Seq<char>),
    Pair(Box<GValue>, Box<GValue>),
    List(Seq<GValue>),
    Maybe(Option<Box<GValue>>),
    SpanVal(Span),
}

/// The mathematical shape of a [`Value`], recursively.
pub open spec fn view_value(v: Value) -> GValue
    decreases v,
{
    match v {
        Value::Unit => GValue::Unit,
        Value::Byte(b) => GValue::Byte(b),
        Value::Char(c) => GValue::Char(c),
        Value::Text(s) => GValue::Text(s@),
        Value::Pair(a, b) => GValue::Pair(Box::new(view_value(*a)), Box::new(view_value(*b))),
        Value::List(l) => GValue::List(
            Seq::new(
                l@.len(),
                |i: int|
                    if 0 <= i < l@.len() {
                        view_value(l@[i])
                    } else {
                        GValue::Unit
                    },
            ),
        ),
        Value::Maybe(o) => GValue::Maybe(
            match o {
                Some(v2) => Some(Box::new(view_value(*v2))),
                None => None,
            },
        ),
        Value::SpanVal(s) => GValue::SpanVal(s),
    }
}

impl View for Value {
    type V = GValue;

    open spec fn view(&self) -> GValue {
        view_value(*self)
    }
}

/// One piece of an error message: literal text, or text rendered from a
/// part of the offending match or of the enclosing sequence's output.
#[derive(Debug, Clone, PartialEq, Eq)]
pub enum Piece {
    /// Fixed text.
    Lit(String),
    /// The text spelled by the selected part of the matched value.
    Matched(Vec<Side>),
    /// The text spelled by the selected part of the enclosing
    /// `then_with`/`then_peek_with` output.
    Env(Vec<Side>),
}

/// The mathematical shape of a [`Piece`].
pub enum GPiece {
    Lit(Seq<char>),
    Matched(Seq<Side>),
    Env(Seq<Side>),
}

impl View for Piece {
    type V = GPiece;

    open spec fn view(&self) -> GPiece {
        match self {
            Piece::Lit(s) => GPiece::Lit(s@),
            Piece::Matched(p) => GPiece::Matched(p@),
            Piece::Env(p) => GPiece::Env(p@),
        }
    }
}

/// Where an error's span comes from.
#[derive(Debug, Clone, PartialEq, Eq)]
pub enum SpanSource {
    /// The span of the input the offending parse consumed.
    Here,
    /// A span captured earlier by `spanned`, selected out of the
    /// enclosing `then_with`/`then_peek_with` output.
    FromEnv(Vec<Side>),
}

/// The mathematical shape of a [`SpanSource`].
pub enum GSpanSource {
    Here,
    FromEnv(Seq<Side>),
}

impl View for SpanSource {
    type V = GSpanSource;

    open spec fn view(&self) -> GSpanSource {
        match self {
            SpanSource::Here => GSpanSource::Here,
            SpanSource::FromEnv(p) => GSpanSource::FromEnv(p@),
        }
    }
}

/// A lazy error constructor: the combinators that synthesize errors
/// (`or_error`, `then_error`, `deny`) carry one and apply it to the
/// offending span and matched value only when the error actually fires.
#[derive(Debug, Clone, PartialEq, Eq)]
pub struct ErrorBuilder {
    /// Where the reported span comes from.
    pub source: SpanSource,
    /// Grow the reported span this many offsets to the front
    /// (clamped at the start of the input).
    pub before: usize,
    /// Grow the reported span this many offsets to the back.
    pub after: usize,
    /// The message, pieced together when the error fires.
    pub pieces: Vec<Piece>,
}

/// The mathematical shape of an [`ErrorBuilder`].
pub struct GErrorBuilder {
    pub source: GSpanSource,
    pub before: int,
    pub after: int,
    pub pieces: Seq<GPiece>,
}

impl View for ErrorBuilder {
    type V = GErrorBuilder;

    open spec fn view(&self) -> GErrorBuilder {
        GErrorBuilder {
            source: self.source@,
            before: self.before as int,
            after: self.after as int,
            pieces: Seq::new(self.pieces@.len(), |i: int| self.pieces@[i]@),
        }
    }
}

impl ErrorBuilder {
    /// An error builder with the given fixed message, reporting the span
    /// of the offending parse.
    pub fn message(text: &str) -> (r: ErrorBuilder)
        ensures
            r@ == (GErrorBuilder {
                source: GSpanSource::Here,
                before: 0,
                after: 0,
                pieces: seq![GPiece::Lit(text@)],
            }),
    {
        let mut pieces: Vec<Piece> = Vec::new();
        pieces.push(Piece::Lit(text.to_owned()));
        let r = ErrorBuilder { source: SpanSource::Here, before: 0, after: 0, pieces };
        proof {
            assert(r@.pieces =~= seq![GPiece::Lit(text@)]);
        }
        r
    }

    /// Appends fixed text to the message.
    pub fn lit(self, text: &str) -> (r: ErrorBuilder)
        ensures
            r@ == (GErrorBuilder { pieces: self@.pieces.push(GPiece::Lit(text@)), ..self@ }),
    {
        let mut pieces = self.pieces;
        pieces.push(Piece::Lit(text.to_owned()));
        let r = ErrorBuilder { pieces, ..self };
        proof {
            assert(r@.pieces =~= self@.pieces.push(GPiece::Lit(text@)));
        }
        r
    }

    /// Appends the text spelled by the selected part of the matched value.
    pub fn matched_part(self, path: Vec<Side>) -> (r: ErrorBuilder)
        ensures
            r@ == (GErrorBuilder { pieces: self@.pieces.push(GPiece::Matched(path@)), ..self@ }),
    {
        let ghost gp = path@;
        let mut pieces = self.pieces;
        pieces.push(Piece::Matched(path));
        let r = ErrorBuilder { pieces, ..self };
        proof {
            assert(r@.pieces =~= self@.pieces.push(GPiece::Matched(gp)));
        }
        r
    }

    /// Appends the text spelled by the selected part of the enclosing
    /// sequence's output.
    pub fn env_part(self, path: Vec<Side>) -> (r: ErrorBuilder)
        ensures
            r@ == (GErrorBuilder { pieces: self@.pieces.push(GPiece::Env(path@)), ..self@ }),
    {
        let ghost gp = path@;
        let mut pieces = self.pieces;
        pieces.push(Piece::Env(path));
        let r = ErrorBuilder { pieces, ..self };
        proof {
            assert(r@.pieces =~= self@.pieces.push(GPiece::Env(gp)));
        }
        r
    }

    /// Reports a span grown by `n` offsets to the front.
    pub fn before(self, n: usize) -> (r: ErrorBuilder)
        ensures
            r@ == (GErrorBuilder { before: n as int, ..self@ }),
    {
        ErrorBuilder { before: n, ..self }
    }

    /// Reports a span grown by `n` offsets to the back.
    pub fn after(self, n: usize) -> (r: ErrorBuilder)
        ensures
            r@ == (GErrorBuilder { after: n as int, ..self@ }),
    {
        ErrorBuilder { after: n, ..self }
    }

    /// Reports a span captured earlier by `spanned`, selected out of the
    /// enclosing sequence's output.
    pub fn span_from_env(self, path: Vec<Side>) -> (r: ErrorBuilder)
        ensures
            r@ == (GErrorBuilder { source: GSpanSource::FromEnv(path@), ..self@ }),
    {
        ErrorBuilder { source: SpanSource::FromEnv(path), ..self }
    }
}

/// A composable parser over a byte stream.
///
/// Every variant is one combinator of the library; composing them builds
/// the grammar as a value. `SelfRef` is the recursive handle: it stands
/// for the innermost enclosing `Recursive` definition and must not occur
/// outside one (see [`GParser::closed`]).
#[derive(Debug, PartialEq, Eq)]
pub enum Parser {
    /// Matches exactly one arbitrary byte.
    Any,
    /// Matches nothing, always successfully.
    Nil,
    /// Matches the end of the input.
    End,
    /// Matches one byte contained in the set.
    OneOf(Vec<u8>),
    /// Matches the exact UTF-8 bytes of the text.
    ExactUtf8(String),
    /// Sequencing: both in order, rolled back together.
    Then(Box<Parser>, Box<Parser>),
    /// Ordered alternation: the second is tried only if the first does
    /// not match; the first error wins.
    Or(Box<Parser>, Box<Parser>),
    /// Optional parse: always matches, wrapping the inner outcome.
    Opt(Box<Parser>),
    /// Negative lookahead: matches (consuming nothing) exactly when the
    /// inner parser does not.
    Not(Box<Parser>),
    /// Greedy bounded repetition: at least `min` matches, and no further
    /// attempt once the count reaches the cap (`None` caps nothing).
    Repeated(Box<Parser>, u32, Option<u32>),
    /// Applies a transformation to the matched output.
    Mapped(Box<Parser>, Transform),
    /// Captures the consumed span alongside the matched output.
    Spanned(Box<Parser>),
    /// Sequencing with lookahead: the second must match but its
    /// consumption and output are dropped.
    ThenPeek(Box<Parser>, Box<Parser>),
    /// Like `Then`, but the second parser's error builders may refer to
    /// the first parser's output.
    ThenWith(Box<Parser>, Box<Parser>),
    /// Like `ThenPeek`, with the same access for the second parser.
    ThenPeekWith(Box<Parser>, Box<Parser>),
    /// Turns the inner parser's absence into a hard error.
    OrError(Box<Parser>, ErrorBuilder),
    /// Turns the inner parser's match into a hard error, consuming
    /// nothing either way.
    ThenError(Box<Parser>, ErrorBuilder),
    /// Turns any hard error of the inner parser into plain absence.
    DiscardError(Box<Parser>),
    /// The handle of the innermost enclosing `Recursive` definition.
    SelfRef,
    /// A self-referential definition: `SelfRef` inside the body re-enters
    /// the whole definition.
    Recursive(Box<Parser>),
}

/// The mathematical shape of a [`Parser`]; the functional semantics
/// [`crate::semantics::spec_parse`] is defined over this type.
pub enum GParser {
    Any,
    Nil,
    End,
    OneOf(Seq<u8>),
    ExactUtf8(Seq<char>),
    Then(Box<GParser>, Box<GParser>),
    Or(Box<GParser>, Box<GParser>),
    Opt(Box<GParser>),
    Not(Box<GParser>),
    Repeated(Box<GParser>, u32, Option<u32>),
    Mapped(Box<GParser>, Transform),
    Spanned(Box<GParser>),
    ThenPeek(Box<GParser>, Box<GParser>),
    ThenWith(Box<GParser>, Box<GParser>),
    ThenPeekWith(Box<GParser>, Box<GParser>),
    OrError(Box<GParser>, GErrorBuilder),
    ThenError(Box<GParser>, GErrorBuilder),
    DiscardError(Box<GParser>),
    SelfRef,
    Recursive(Box<GParser>),
}

/// The mathematical shape of a [`Parser`], recursively.
pub open spec fn view_parser(p: Parser) -> GParser
    decreases p,
{
    match p {
        Parser::Any => GParser::Any,
        Parser::Nil => GParser::Nil,
        Parser::End => GParser::End,
        Parser::OneOf(v) => GParser::OneOf(v@),
        Parser::ExactUtf8(s) => GParser::ExactUtf8(s@),
        Parser::Then(a, b) => GParser::Then(Box::new(view_parser(*a)), Box::new(view_parser(*b))),
        Parser::Or(a, b) => GParser::Or(Box::new(view_parser(*a)), Box::new(view_parser(*b))),
        Parser::Opt(a) => GParser::Opt(Box::new(view_parser(*a))),
        Parser::Not(a) => GParser::Not(Box::new(view_parser(*a))),
        Parser::Repeated(a, min, cap) => GParser::Repeated(Box::new(view_parser(*a)), min, cap),
        Parser::Mapped(a, t) => GParser::Mapped(Box::new(view_parser(*a)), t),
        Parser::Spanned(a) => GParser::Spanned(Box::new(view_parser(*a))),
        Parser::ThenPeek(a, b) => GParser::ThenPeek(
            Box::new(view_parser(*a)),
            Box::new(view_parser(*b)),
        ),
        Parser::ThenWith(a, b) => GParser::ThenWith(
            Box::new(view_parser(*a)),
            Box::new(view_parser(*b)),
        ),
        Parser::ThenPeekWith(a, b) => GParser::ThenPeekWith(
            Box::new(view_parser(*a)),
            Box::new(view_parser(*b)),
        ),
        Parser::OrError(a, f) => GParser::OrError(Box::new(view_parser(*a)), f@),
        Parser::ThenError(a, f) => GParser::ThenError(Box::new(view_parser(*a)), f@),
        Parser::DiscardError(a) => GParser::DiscardError(Box::new(view_parser(*a))),
        Parser::SelfRef => GParser::SelfRef,
        Parser::Recursive(b) => GParser::Recursive(Box::new(view_parser(*b))),
    }
}

impl View for Parser {
    type V = GParser;

    open spec fn view(&self) -> GParser {
        view_parser(*self)
    }
}

impl GParser {
    /// Does `SelfRef` occur only beneath a `Recursive` definition
    /// (`bound` tells whether one encloses `self` already)?
    pub open spec fn closed_in(self, bound: bool) -> bool
        decreases self,
    {
        match self {
            GParser::SelfRef => bound,
            GParser::Recursive(b) => b.closed_in(true),
            GParser::Then(a, b) => a.closed_in(bound) && b.closed_in(bound),
            GParser::Or(a, b) => a.closed_in(bound) && b.closed_in(bound),
            GParser::Opt(a) => a.closed_in(bound),
            GParser::Not(a) => a.closed_in(bound),
            GParser::Repeated(a, _, _) => a.closed_in(bound),
            GParser::Mapped(a, _) => a.closed_in(bound),
            GParser::Spanned(a) => a.closed_in(bound),
            GParser::ThenPeek(a, b) => a.closed_in(bound) && b.closed_in(bound),
            GParser::ThenWith(a, b) => a.closed_in(bound) && b.closed_in(bound),
            GParser::ThenPeekWith(a, b) => a.closed_in(bound) && b.closed_in(bound),
            GParser::OrError(a, _) => a.closed_in(bound),
            GParser::ThenError(a, _) => a.closed_in(bound),
            GParser::DiscardError(a) => a.closed_in(bound),
            _ => true,
        }
    }

    /// Does the parser contain a recursive handle at all? Parsers
    /// without one never spend recursion fuel, so their outcome does
    /// not depend on it (`lemma_fuel_free`).
    pub open spec fn uses_self_ref(self) -> bool
        decreases self,
    {
        match self {
            GParser::SelfRef => true,
            GParser::Recursive(b) => b.uses_self_ref(),
            GParser::Then(a, b) => a.uses_self_ref() || b.uses_self_ref(),
            GParser::Or(a, b) => a.uses_self_ref() || b.uses_self_ref(),
            GParser::Opt(a) => a.uses_self_ref(),
            GParser::Not(a) => a.uses_self_ref(),
            GParser::Repeated(a, _, _) => a.uses_self_ref(),
            GParser::Mapped(a, _) => a.uses_self_ref(),
            GParser::Spanned(a) => a.uses_self_ref(),
            GParser::ThenPeek(a, b) => a.uses_self_ref() || b.uses_self_ref(),
            GParser::ThenWith(a, b) => a.uses_self_ref() || b.uses_self_ref(),
            GParser::ThenPeekWith(a, b) => a.uses_self_ref() || b.uses_self_ref(),
            GParser::OrError(a, _) => a.uses_self_ref(),
            GParser::ThenError(a, _) => a.uses_self_ref(),
            GParser::DiscardError(a) => a.uses_self_ref(),
            _ => false,
        }
    }

    /// A parser is closed when every recursive handle in it stands
    /// beneath its definition. Only closed parsers may be run: a free
    /// handle is an uninitialized recursive parser, a construction-order
    /// bug rather than a parse outcome.
    pub open spec fn closed(self) -> bool {
        self.closed_in(false)
    }
}

impl GParser {
    /// Sequencing, mathematically.
    pub open spec fn and_then(self, other: GParser) -> GParser {
        GParser::Then(Box::new(self), Box::new(other))
    }

    /// Ordered alternation, mathematically.
    pub open spec fn or(self, other: GParser) -> GParser {
        GParser::Or(Box::new(self), Box::new(other))
    }

    /// Optional parse, mathematically.
    pub open spec fn opt(self) -> GParser {
        GParser::Opt(Box::new(self))
    }

    /// Bounded repetition, mathematically.
    pub open spec fn repeated(self, min: u32, cap: Option<u32>) -> GParser {
        GParser::Repeated(Box::new(self), min, cap)
    }

    /// Output transformation, mathematically.
    pub open spec fn mapped(self, t: Transform) -> GParser {
        GParser::Mapped(Box::new(self), t)
    }

    /// Output discarding, mathematically.
    pub open spec fn discard(self) -> GParser {
        GParser::Mapped(Box::new(self), Transform::ToUnit)
    }

    /// Span capture, mathematically.
    pub open spec fn spanned(self) -> GParser {
        GParser::Spanned(Box::new(self))
    }

    /// Peeking sequence, mathematically.
    pub open spec fn then_peek(self, other: GParser) -> GParser {
        GParser::ThenPeek(Box::new(self), Box::new(other))
    }

    /// Output-sharing sequence, mathematically.
    pub open spec fn then_with(self, other: GParser) -> GParser {
        GParser::ThenWith(Box::new(self), Box::new(other))
    }

    /// Output-sharing peeking sequence, mathematically.
    pub open spec fn then_peek_with(self, other: GParser) -> GParser {
        GParser::ThenPeekWith(Box::new(self), Box::new(other))
    }

    /// Absence-to-error conversion, mathematically.
    pub open spec fn or_error(self, f: GErrorBuilder) -> GParser {
        GParser::OrError(Box::new(self), f)
    }

    /// Match-to-error conversion, mathematically.
    pub open spec fn then_error(self, f: GErrorBuilder) -> GParser {
        GParser::ThenError(Box::new(self), f)
    }

    /// Error swallowing, mathematically.
    pub open spec fn discard_error(self) -> GParser {
        GParser::DiscardError(Box::new(self))
    }
}

/// Negative lookahead, mathematically.
pub open spec fn g_not(p: GParser) -> GParser {
    GParser::Not(Box::new(p))
}

/// The deny shorthand, mathematically.
pub open spec fn g_deny(pattern: GParser, f: GErrorBuilder) -> GParser {
    pattern.then_error(f).opt().discard()
}

impl GErrorBuilder {
    /// Appending fixed text, mathematically.
    pub open spec fn lit(self, text: Seq<char>) -> GErrorBuilder {
        GErrorBuilder { pieces: self.pieces.push(GPiece::Lit(text)), ..self }
    }

    /// Citing the matched value, mathematically.
    pub open spec fn matched_part(self, path: Seq<Side>) -> GErrorBuilder {
        GErrorBuilder { pieces: self.pieces.push(GPiece::Matched(path)), ..self }
    }

    /// Citing the enclosing sequence's output, mathematically.
    pub open spec fn env_part(self, path: Seq<Side>) -> GErrorBuilder {
        GErrorBuilder { pieces: self.pieces.push(GPiece::Env(path)), ..self }
    }

    /// Growing the reported span to the front, mathematically.
    pub open spec fn before(self, n: int) -> GErrorBuilder {
        GErrorBuilder { before: n, ..self }
    }

    /// Growing the reported span to the back, mathematically.
    pub open spec fn after(self, n: int) -> GErrorBuilder {
        GErrorBuilder { after: n, ..self }
    }

    /// Taking the span from a captured value, mathematically.
    pub open spec fn span_from_env(self, path: Seq<Side>) -> GErrorBuilder {
        GErrorBuilder { source: GSpanSource::FromEnv(path), ..self }
    }
}

/// A fixed error message reported at the offending parse's span,
/// mathematically.
pub open spec fn g_msg(text: Seq<char>) -> GErrorBuilder {
    GErrorBuilder {
        source: GSpanSource::Here,
        before: 0,
        after: 0,
        pieces: seq![GPiece::Lit(text)],
    }
}

impl Parser {
    /// Sequence: this parser, then `other` over the same committed
    /// progress; both roll back together. Yields the pair of outputs.
    pub fn and_then(self, other: Parser) -> (r: Parser)
        ensures
            r == Parser::Then(Box::new(self), Box::new(other)),
            r@ == GParser::Then(Box::new(self@), Box::new(other@)),
    {
        Parser::Then(Box::new(self), Box::new(other))
    }

    /// Ordered alternation: `other` is tried only where this parser does
    /// not match; a hard error from this parser short-circuits.
    pub fn or(self, other: Parser) -> (r: Parser)
        ensures
            r == Parser::Or(Box::new(self), Box::new(other)),
            r@ == GParser::Or(Box::new(self@), Box::new(other@)),
    {
        Parser::Or(Box::new(self), Box::new(other))
    }

    /// Optional parse: always matches, wrapping this parser's output in
    /// an optional value; a hard error still propagates.
    pub fn opt(self) -> (r: Parser)
        ensures
            r == Parser::Opt(Box::new(self)),
            r@ == GParser::Opt(Box::new(self@)),
    {
        Parser::Opt(Box::new(self))
    }

    /// Repetition over any of the standard range forms: fails to match
    /// below the range's start, and stops attempting once the count
    /// reaches the range's end.
    pub fn repeated<R: RepeatRange>(self, range: R) -> (r: Parser)
        ensures
            r == Parser::Repeated(Box::new(self), range.min_spec(), range.cap_spec()),
            r@ == GParser::Repeated(Box::new(self@), range.min_spec(), range.cap_spec()),
    {
        let (min, cap) = range.bounds();
        Parser::Repeated(Box::new(self), min, cap)
    }

    /// Transforms this parser's matched output; transparent to absence
    /// and to errors.
    pub fn map(self, f: Transform) -> (r: Parser)
        ensures
            r == Parser::Mapped(Box::new(self), f),
            r@ == GParser::Mapped(Box::new(self@), f),
    {
        Parser::Mapped(Box::new(self), f)
    }

    /// Discards this parser's matched output.
    pub fn discard(self) -> (r: Parser)
        ensures
            r == Parser::Mapped(Box::new(self), Transform::ToUnit),
            r@ == GParser::Mapped(Box::new(self@), Transform::ToUnit),
    {
        Parser::Mapped(Box::new(self), Transform::ToUnit)
    }

    /// Captures the span this parser consumed alongside its output.
    pub fn spanned(self) -> (r: Parser)
        ensures
            r == Parser::Spanned(Box::new(self)),
            r@ == GParser::Spanned(Box::new(self@)),
    {
        Parser::Spanned(Box::new(self))
    }

    /// Sequence with lookahead: `other` must match, but its consumption
    /// is rolled back and only this parser's output is kept.
    pub fn then_peek(self, other: Parser) -> (r: Parser)
        ensures
            r == Parser::ThenPeek(Box::new(self), Box::new(other)),
            r@ == GParser::ThenPeek(Box::new(self@), Box::new(other@)),
    {
        Parser::ThenPeek(Box::new(self), Box::new(other))
    }

    /// Like `then`, with `other`'s error builders given access to this
    /// parser's matched output.
    pub fn then_with(self, other: Parser) -> (r: Parser)
        ensures
            r == Parser::ThenWith(Box::new(self), Box::new(other)),
            r@ == GParser::ThenWith(Box::new(self@), Box::new(other@)),
    {
        Parser::ThenWith(Box::new(self), Box::new(other))
    }

    /// Like `then_peek`, with `other`'s error builders given access to
    /// this parser's matched output.
    pub fn then_peek_with(self, other: Parser) -> (r: Parser)
        ensures
            r == Parser::ThenPeekWith(Box::new(self), Box::new(other)),
            r@ == GParser::ThenPeekWith(Box::new(self@), Box::new(other@)),
    {
        Parser::ThenPeekWith(Box::new(self), Box::new(other))
    }

    /// Converts this parser's absence into a hard error built by `f`
    /// from the span of the failed attempt.
    pub fn or_error(self, f: ErrorBuilder) -> (r: Parser)
        ensures
            r == Parser::OrError(Box::new(self), f),
            r@ == GParser::OrError(Box::new(self@), f@),
    {
        Parser::OrError(Box::new(self), f)
    }

    /// Converts this parser's match into a hard error built by `f` from
    /// the span and output of the match; used to reject input that is
    /// positively recognized as invalid.
    pub fn then_error(self, f: ErrorBuilder) -> (r: Parser)
        ensures
            r == Parser::ThenError(Box::new(self), f),
            r@ == GParser::ThenError(Box::new(self@), f@),
    {
        Parser::ThenError(Box::new(self), f)
    }

    /// Converts any hard error of this parser into plain absence. Use
    /// sparingly: it can mask genuine grammar errors.
    pub fn discard_error(self) -> (r: Parser)
        ensures
            r == Parser::DiscardError(Box::new(self)),
            r@ == GParser::DiscardError(Box::new(self@)),
    {
        Parser::DiscardError(Box::new(self))
    }
}

/// Matches exactly one arbitrary byte; does not match only at the end
/// of the input.
pub fn any() -> (r: Parser)
    ensures
        r@ == GParser::Any,
{
    Parser::Any
}

/// Matches nothing, always successfully; useful to anchor `then_peek`
/// chains for pure lookahead checks.
pub fn nil() -> (r: Parser)
    ensures
        r@ == GParser::Nil,
{
    Parser::Nil
}

/// Matches the end of the input, consuming nothing.
pub fn end() -> (r: Parser)
    ensures
        r@ == GParser::End,
{
    Parser::End
}

/// Matches one byte equal to any byte of `group`.
pub fn one_of<T: AsIter>(group: T) -> (r: Parser)
    ensures
        r@ == GParser::OneOf(group.seq()),
{
    Parser::OneOf(group.as_iter())
}

/// Matches the exact UTF-8 byte sequence of `text`.
pub fn exact_utf8(text: &str) -> (r: Parser)
    ensures
        r@ == GParser::ExactUtf8(text@),
{
    Parser::ExactUtf8(text.to_owned())
}

/// Negative lookahead: matches (consuming nothing) exactly when
/// `parser` does not; a hard error still propagates.
pub fn not(parser: Parser) -> (r: Parser)
    ensures
        r == Parser::Not(Box::new(parser)),
        r@ == GParser::Not(Box::new(parser@)),
{
    Parser::Not(Box::new(parser))
}

/// The members of a `choice`, folded right-to-left into ordered
/// alternation over a parser that never matches.
pub open spec fn g_choice(members: Seq<GParser>) -> GParser
    decreases members.len(),
{
    if members.len() == 0 {
        GParser::Not(Box::new(GParser::Nil))
    } else {
        GParser::Or(Box::new(members[0]), Box::new(g_choice(members.drop_first())))
    }
}

/// The views of a list of parsers.
pub open spec fn views_of(members: Seq<Parser>) -> Seq<GParser> {
    Seq::new(members.len(), |i: int| members[i]@)
}

/// Ordered alternation over a list of parsers: tries each member
/// left-to-right, keeps the first match, short-circuits on the first
/// hard error, and does not match when no member does.
pub fn choice(members: Vec<Parser>) -> (r: Parser)
    ensures
        r@ == g_choice(views_of(members@)),
{
    let ghost all = views_of(members@);
    let mut members = members;
    let mut acc = Parser::Not(Box::new(Parser::Nil));
    proof {
        assert(views_of(members@) =~= all.subrange(0, members@.len() as int));
        let e = all.subrange(all.len() as int, all.len() as int);
        assert(e.len() == 0);
        assert(g_choice(e) == GParser::Not(Box::new(GParser::Nil)));
        assert(view_parser(Parser::Nil) == GParser::Nil);
        assert(acc@ == GParser::Not(Box::new(GParser::Nil)));
    }
    while members.len() > 0
        invariant
            members@.len() <= all.len(),
            views_of(members@) =~= all.subrange(0, members@.len() as int),
            acc@ == g_choice(all.subrange(members@.len() as int, all.len() as int)),
        decreases members@.len(),
    {
        let ghost pre = members@;
        let last = members.pop().unwrap();
        proof {
            let n = pre.len() as int - 1;
            assert(views_of(pre)[n] == pre[n]@);
            assert(last@ == all[n]);
            assert(views_of(members@) =~= all.subrange(0, n)) by {
                assert forall|i: int| 0 <= i < n implies views_of(members@)[i] == all.subrange(
                    0,
                    n,
                )[i] by {
                    assert(views_of(members@)[i] == members@[i]@);
                    assert(members@[i] == pre[i]);
                    assert(views_of(pre)[i] == pre[i]@);
                }
            };
            let tail = all.subrange(n, all.len() as int);
            assert(tail[0] == all[n]);
            assert(tail.drop_first() =~= all.subrange(n + 1, all.len() as int));
            assert(g_choice(tail) == GParser::Or(
                Box::new(all[n]),
                Box::new(g_choice(tail.drop_first())),
            ));
        }
        acc = Parser::Or(Box::new(last), Box::new(acc));
    }
    proof {
        assert(acc@ == g_choice(all.subrange(0, all.len() as int)));
        assert(all.subrange(0, all.len() as int) =~= all);
    }
    acc
}

/// If `pattern` is encountered, fail with the error `f` builds;
/// otherwise match nothing successfully, consuming no input.
pub fn deny(pattern: Parser, f: ErrorBuilder) -> (r: Parser)
    ensures
        r@ == GParser::Mapped(
            Box::new(GParser::Opt(Box::new(GParser::ThenError(Box::new(pattern@), f@)))),
            Transform::ToUnit,
        ),
{
    pattern.then_error(f).opt().discard()
}

/// Builds a self-referential parser: `f` receives the recursive handle
/// and returns the full definition, which the handle then re-enters.
/// The handle stands for the innermost enclosing definition only, and
/// must not be parsed before the definition is installed - which this
/// two-phase construction makes impossible from outside.
pub fn recursive<F: FnOnce(Parser) -> Parser>(f: F) -> (r: Parser)
    requires
        call_requires(f, (Parser::SelfRef,)),
    ensures
        exists|body: Parser|
            call_ensures(f, (Parser::SelfRef,), body) && r == Parser::Recursive(Box::new(body)),
{
    let body = f(Parser::SelfRef);
    Parser::Recursive(Box::new(body))
}

/// A range argument accepted by [`Parser::repeated`]: the start bound
/// is the least number of matches, the end bound the count at which
/// repetition stops attempting.
pub trait RepeatRange {
    /// The least number of matches required.
    spec fn min_spec(&self) -> u32;

    /// The count at which repetition stops, if the range is bounded.
    spec fn cap_spec(&self) -> Option<u32>;

    /// Produces both bounds.
    fn bounds(&self) -> (r: (u32, Option<u32>))
        ensures
            r.0 == self.min_spec(),
            r.1 == self.cap_spec(),
    ;
}

impl RepeatRange for core::ops::Range<u32> {
    open spec fn min_spec(&self) -> u32 {
        self.start
    }

    open spec fn cap_spec(&self) -> Option<u32> {
        Some(self.end)
    }

    fn bounds(&self) -> (r: (u32, Option<u32>))
        ensures
            r.0 == self.min_spec(),
            r.1 == self.cap_spec(),
    {
        (self.start, Some(self.end))
    }
}

/// Relies on `core::ops::RangeFrom` being a plain record with a public
/// `start` field, as its definition in core shows.
#[verifier::external_type_specification]
#[verifier::reject_recursive_types(Idx)]
pub struct ExRangeFrom<Idx>(core::ops::RangeFrom<Idx>);

impl RepeatRange for core::ops::RangeFrom<u32> {
    open spec fn min_spec(&self) -> u32 {
        self.start
    }

    open spec fn cap_spec(&self) -> Option<u32> {
        None
    }

    fn bounds(&self) -> (r: (u32, Option<u32>))
        ensures
            r.0 == self.min_spec(),
            r.1 == self.cap_spec(),
    {
        (self.start, None)
    }
}

/// Relies on `core::ops::RangeFull` being a plain unit struct, as its
/// definition in core shows.
#[verifier::external_type_specification]
pub struct ExRangeFull(core::ops::RangeFull);

impl RepeatRange for core::ops::RangeFull {
    open spec fn min_spec(&self) -> u32 {
        0
    }

    open spec fn cap_spec(&self) -> Option<u32> {
        None
    }

    fn bounds(&self) -> (r: (u32, Option<u32>))
        ensures
            r.0 == self.min_spec(),
            r.1 == self.cap_spec(),
    {
        (0, None)
    }
}

} // verus!
