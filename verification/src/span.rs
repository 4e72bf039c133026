//! Half-open offset ranges over the source input, and the error value
//! that failed parses carry.

use vstd::prelude::*;

verus! {

/// A half-open range `start..end` of offsets into the source input.
///
/// Spans locate tokens and errors in the input. A span never has
/// `end < start`; derived spans are built by the pure operations below.
#[derive(Clone, Copy, Debug, PartialEq, Eq, Structural)]
pub struct Span {
    pub start: usize,
    pub end: usize,
}

impl Span {
    /// The span `start..end`.
    pub fn new(start: usize, end: usize) -> (s: Span)
        ensures
            s.start == start,
            s.end == end,
    {
        Span { start, end }
    }

    /// Expands the span to cover `more` offsets before it.
    ///
    /// Spans are only expanded over input that is known to have been
    /// consumed, so running past the start of the input is a caller error
    /// and is ruled out here.
    pub fn expand_before(self, more: usize) -> (s: Span)
        requires
            more <= self.start,
        ensures
            s.start == self.start - more,
            s.end == self.end,
    {
        Span { start: self.start - more, end: self.end }
    }

    /// Expands the span to cover `more` offsets after it.
    pub fn expand_after(self, more: usize) -> (s: Span)
        requires
            self.end + more <= usize::MAX,
        ensures
            s.start == self.start,
            s.end == self.end + more,
    {
        Span { start: self.start, end: self.end + more }
    }

    /// The span of length `len` that ends where this span starts.
    pub fn preceding(self, len: usize) -> (s: Span)
        requires
            len <= self.start,
        ensures
            s.start == self.start - len,
            s.end == self.start,
    {
        Span { start: self.start - len, end: self.start }
    }

    /// The span of length `len` that starts where this span ends.
    pub fn following(self, len: usize) -> (s: Span)
        requires
            self.end + len <= usize::MAX,
        ensures
            s.start == self.end,
            s.end == self.end + len,
    {
        Span { start: self.end, end: self.end + len }
    }

    /// Does the span cover no input at all?
    pub fn is_empty(&self) -> (r: bool)
        ensures
            r == (self.start == self.end),
    {
        self.start == self.end
    }

    /// Attaches a value to this span.
    pub fn wrap<T>(self, value: T) -> (r: crate::lexer::utils::Spanned<T>)
        ensures
            r.span == self,
            r.value == value,
    {
        crate::lexer::utils::Spanned { span: self, value }
    }

    /// The smallest span covering both spans.
    pub fn merge(self, other: Span) -> (r: Span)
        ensures
            r.start == if self.start <= other.start { self.start } else { other.start },
            r.end == if self.end >= other.end { self.end } else { other.end },
    {
        Span {
            start: if self.start <= other.start { self.start } else { other.start },
            end: if self.end >= other.end { self.end } else { other.end },
        }
    }

    /// Attaches an error message to this span.
    pub fn error(self, text: String) -> (e: Error)
        ensures
            e.span == self,
            e.text == text,
    {
        Error { span: self, text }
    }
}

/// A user-reportable syntax error: a message tied to the span of input
/// it complains about.
#[derive(Clone, Debug, PartialEq, Eq)]
pub struct Error {
    pub span: Span,
    pub text: String,
}

/// The mathematical shape of an [`Error`]: its message as a character
/// sequence.
pub struct GError {
    pub span: Span,
    pub text: Seq<char>,
}

impl View for Error {
    type V = GError;

    open spec fn view(&self) -> GError {
        GError { span: self.span, text: self.text@ }
    }
}

} // verus!
