//! The transactional input stream that parsers consume, and the adapter
//! that turns ordinary containers into its input.

use vstd::prelude::*;
use vstd::slice::slice_to_vec;
use vstd::string::{StrSliceExecFns, StringSliceAdditionalSpecFns};

use crate::span::Span;

verus! {

/// Converts a concrete input container into the byte sequence an
/// [`IterStream`] reads.
///
/// Owned and borrowed byte containers hand over their elements; text is
/// handed over as its UTF-8 bytes.
pub trait AsIter {
    /// The byte sequence this input stands for.
    spec fn seq(&self) -> Seq<u8>;

    /// Produces the bytes of this input as an owned vector.
    fn as_iter(&self) -> (v: Vec<u8>)
        ensures
            v@ == self.seq(),
    ;
}

impl AsIter for Vec<u8> {
    open spec fn seq(&self) -> Seq<u8> {
        self@
    }

    fn as_iter(&self) -> (v: Vec<u8>)
        ensures
            v@ == self.seq(),
    {
        self.clone()
    }
}

impl AsIter for &[u8] {
    open spec fn seq(&self) -> Seq<u8> {
        self@
    }

    fn as_iter(&self) -> (v: Vec<u8>)
        ensures
            v@ == self.seq(),
    {
        slice_to_vec(self)
    }
}

impl<const N: usize> AsIter for [u8; N] {
    open spec fn seq(&self) -> Seq<u8> {
        self@
    }

    fn as_iter(&self) -> (v: Vec<u8>)
        ensures
            v@ == self.seq(),
    {
        slice_to_vec(self.as_slice())
    }
}

impl<const N: usize> AsIter for &[u8; N] {
    open spec fn seq(&self) -> Seq<u8> {
        (*self)@
    }

    fn as_iter(&self) -> (v: Vec<u8>)
        ensures
            v@ == self.seq(),
    {
        slice_to_vec(self.as_slice())
    }
}

impl AsIter for String {
    open spec fn seq(&self) -> Seq<u8> {
        vstd::utf8::encode_utf8(self@)
    }

    fn as_iter(&self) -> (v: Vec<u8>)
        ensures
            v@ == self.seq(),
    {
        self.as_str().as_bytes_vec()
    }
}

impl AsIter for &str {
    open spec fn seq(&self) -> Seq<u8> {
        self.spec_bytes()
    }

    fn as_iter(&self) -> (v: Vec<u8>)
        ensures
            v@ == self.seq(),
    {
        self.as_bytes_vec()
    }
}

/// The mutable read head over an input sequence.
///
/// A stream owns the whole input, a cursor for the next byte to read,
/// and the offset at which the present span window opened. Parsers
/// speculate by remembering the cursor and putting it back if the
/// attempt does not commit, so a failed attempt leaves the stream
/// exactly as it found it.
pub struct IterStream {
    items: Vec<u8>,
    cursor: usize,
    start: usize,
}

impl IterStream {
    /// The whole input sequence.
    pub closed spec fn input(&self) -> Seq<u8> {
        self.items@
    }

    /// The offset of the next byte to read.
    pub closed spec fn cursor_spec(&self) -> int {
        self.cursor as int
    }

    /// The offset at which the present span window opened.
    pub closed spec fn start_spec(&self) -> int {
        self.start as int
    }

    /// The stream's cursor and window lie within the input.
    pub open spec fn wf(&self) -> bool {
        0 <= self.start_spec() <= self.cursor_spec() <= self.input().len()
    }

    /// Creates a stream over the given input, positioned at its start.
    pub fn new<T: AsIter>(source: T) -> (s: IterStream)
        ensures
            s.wf(),
            s.input() == source.seq(),
            s.cursor_spec() == 0,
            s.start_spec() == 0,
    {
        IterStream { items: source.as_iter(), cursor: 0, start: 0 }
    }

    /// Reads the next byte if any, advancing the cursor by one; yields
    /// nothing when the input is exhausted, leaving the stream unchanged.
    pub fn next(&mut self) -> (r: Option<u8>)
        requires
            old(self).wf(),
        ensures
            final(self).wf(),
            final(self).input() == old(self).input(),
            final(self).start_spec() == old(self).start_spec(),
            old(self).cursor_spec() < old(self).input().len() ==> r == Some(
                old(self).input()[old(self).cursor_spec()],
            ) && final(self).cursor_spec() == old(self).cursor_spec() + 1,
            old(self).cursor_spec() == old(self).input().len() ==> r is None && *final(self)
                == *old(self),
    {
        if self.cursor < self.items.len() {
            let b = self.items[self.cursor];
            self.cursor = self.cursor + 1;
            Some(b)
        } else {
            None
        }
    }

    /// The span of all input consumed since the present window opened.
    pub fn span(&self) -> (s: Span)
        ensures
            s.start == self.start_spec(),
            s.end == self.cursor_spec(),
    {
        Span { start: self.start, end: self.cursor }
    }

    /// The offset of the next byte to read.
    pub fn cursor(&self) -> (c: usize)
        ensures
            c == self.cursor_spec(),
    {
        self.cursor
    }

    /// How many bytes are left to read.
    pub fn remaining(&self) -> (r: usize)
        requires
            self.wf(),
        ensures
            r == self.input().len() - self.cursor_spec(),
    {
        self.items.len() - self.cursor
    }

    /// Puts the cursor back to a position remembered before a failed
    /// speculative attempt.
    pub(crate) fn rewind(&mut self, cursor: usize)
        requires
            old(self).wf(),
            old(self).start_spec() <= cursor <= old(self).cursor_spec(),
        ensures
            final(self).wf(),
            final(self).input() == old(self).input(),
            final(self).start_spec() == old(self).start_spec(),
            final(self).cursor_spec() == cursor,
    {
        self.cursor = cursor;
    }
}

} // verus!
