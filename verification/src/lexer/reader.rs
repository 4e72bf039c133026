//! A positioned reader over borrowed items, and the parsing interface
//! the symbol tables implement.

use vstd::prelude::*;

verus! {

/// A half-open offset range, as the symbol tables report positions.
pub type Span = core::ops::Range<usize>;

/// A value with the input range it was read from.
#[derive(Debug, PartialEq, Eq)]
pub struct Spanned<T> {
    pub inner: T,
    pub span: Span,
}

/// Tags any value with a span.
pub trait SpannedExt: Sized {
    /// This value, located at `span`.
    fn spanned(self, span: Span) -> (r: Spanned<Self>)
        ensures
            r.inner == self,
            r.span == span,
    ;
}

impl<T> SpannedExt for T {
    fn spanned(self, span: Span) -> (r: Spanned<Self>)
        ensures
            r.inner == self,
            r.span == span,
    {
        Spanned { inner: self, span }
    }
}

/// A read head over a borrowed byte slice that hands out positions.
#[derive(Copy, Clone, Debug)]
pub struct SpannedReader<'input> {
    input: &'input [u8],
    /// Position of the next item to read (equal to the input's length
    /// when all items are read).
    cursor: usize,
}

impl<'input> SpannedReader<'input> {
    /// The whole input.
    pub closed spec fn input_spec(&self) -> Seq<u8> {
        self.input@
    }

    /// The offset of the next item to read.
    pub closed spec fn cursor_spec(&self) -> int {
        self.cursor as int
    }

    /// The cursor lies within the input.
    pub open spec fn wf(&self) -> bool {
        0 <= self.cursor_spec() <= self.input_spec().len()
    }

    /// A reader over the given input, at its start.
    pub fn new(input: &'input [u8]) -> (r: SpannedReader<'input>)
        ensures
            r.wf(),
            r.input_spec() == input@,
            r.cursor_spec() == 0,
    {
        SpannedReader { input, cursor: 0 }
    }

    /// Reads the next item, if any.
    pub fn next(&mut self) -> (r: Option<&'input u8>)
        requires
            old(self).wf(),
        ensures
            final(self).wf(),
            final(self).input_spec() == old(self).input_spec(),
            old(self).cursor_spec() < old(self).input_spec().len() ==> (r matches Some(b) && *b
                == old(self).input_spec()[old(self).cursor_spec()] && final(self).cursor_spec()
                == old(self).cursor_spec() + 1),
            old(self).cursor_spec() == old(self).input_spec().len() ==> (r is None && *final(self)
                == *old(self)),
    {
        if self.cursor < self.input.len() {
            let item = &self.input[self.cursor];
            self.cursor = self.cursor + 1;
            Some(item)
        } else {
            None
        }
    }

    /// The offset of the next item to read.
    pub fn cursor(&self) -> (c: usize)
        ensures
            c == self.cursor_spec(),
    {
        self.cursor
    }

    /// How many items are left to read.
    pub fn remaining(&self) -> (r: usize)
        requires
            self.wf(),
        ensures
            r == self.input_spec().len() - self.cursor_spec(),
    {
        self.input.len() - self.cursor
    }

    /// Skips the next `delta` items; skipping past the end of the
    /// input would break the reader and is ruled out here.
    pub fn forward(&mut self, delta: usize)
        requires
            old(self).wf(),
            old(self).cursor_spec() + delta <= old(self).input_spec().len(),
        ensures
            final(self).wf(),
            final(self).input_spec() == old(self).input_spec(),
            final(self).cursor_spec() == old(self).cursor_spec() + delta,
    {
        let n = self.input.len();
        proof {
            assert(self.input@.len() == n as int);
        }
        self.cursor = self.cursor + delta;
    }

    /// The whole input.
    pub fn input(&self) -> (r: &'input [u8])
        ensures
            r@ == self.input_spec(),
    {
        self.input
    }

    /// The items already read.
    pub fn input_before(&self) -> (r: &'input [u8])
        requires
            self.wf(),
        ensures
            r@ == self.input_spec().subrange(0, self.cursor_spec()),
    {
        vstd::slice::slice_subrange(self.input, 0, self.cursor)
    }

    /// The items still to read.
    pub fn input_after(&self) -> (r: &'input [u8])
        requires
            self.wf(),
        ensures
            r@ == self.input_spec().subrange(self.cursor_spec(), self.input_spec().len() as int),
    {
        vstd::slice::slice_subrange(self.input, self.cursor, self.input.len())
    }
}

/// What the symbol tables implement: an attempt to read one value from
/// the reader, which may move the reader forward even on failure.
pub trait Parse<T>: Sized {
    /// A name for what it tries to parse.
    fn describe() -> &'static str;

    /// Tries to parse from the reader.
    fn parse(reader: &mut SpannedReader, state: &mut ()) -> (r: Result<Self, ()>)
        requires
            old(reader).wf(),
        ensures
            final(reader).wf(),
            final(reader).input_spec() == old(reader).input_spec(),
            old(reader).cursor_spec() <= final(reader).cursor_spec(),
    ;
}

} // verus!
