//! The byte reader the lexer consumes, and span-tagged values.

use vstd::prelude::*;

use crate::span::Span;

verus! {

/// A value located in the source input.
#[derive(Copy, Clone, Debug, PartialEq, Eq)]
pub struct Spanned<T> {
    pub value: T,
    pub span: Span,
}

/// A lexing error: a message located in the source input.
pub type Error = Spanned<String>;

/// Builds an error outcome from a span and a message.
pub fn err<T>(span: Span, message: &str) -> (r: Result<T, Error>)
    ensures
        r matches Err(e) && e.span == span && e.value@ == message@,
{
    Err(Spanned { span, value: message.to_owned() })
}

/// Builds a successful span-tagged outcome.
pub fn ok<T>(span: Span, value: T) -> (r: Result<Spanned<T>, Error>)
    ensures
        r matches Ok(s) && s.span == span && s.value == value,
{
    Ok(Spanned { span, value })
}

/// A plain read head over a borrowed byte slice, with peeking.
pub struct Reader<'a> {
    input: &'a [u8],
    cursor: usize,
}

impl<'a> Reader<'a> {
    /// The whole input.
    pub closed spec fn input_spec(&self) -> Seq<u8> {
        self.input@
    }

    /// The offset of the next byte to read.
    pub closed spec fn cursor_spec(&self) -> int {
        self.cursor as int
    }

    /// The cursor lies within the input.
    pub open spec fn wf(&self) -> bool {
        0 <= self.cursor_spec() <= self.input_spec().len()
    }

    /// A reader over the given input, at its start.
    pub fn new(input: &'a [u8]) -> (r: Reader<'a>)
        ensures
            r.wf(),
            r.input_spec() == input@,
            r.cursor_spec() == 0,
    {
        Reader { input, cursor: 0 }
    }

    /// The next byte, if any, without consuming it.
    pub fn peek(&self) -> (r: Option<u8>)
        requires
            self.wf(),
        ensures
            self.cursor_spec() < self.input_spec().len() ==> r == Some(
                self.input_spec()[self.cursor_spec()],
            ),
            self.cursor_spec() == self.input_spec().len() ==> r is None,
    {
        if self.cursor < self.input.len() {
            Some(self.input[self.cursor])
        } else {
            None
        }
    }

    /// Reads the next byte, if any.
    pub fn consume(&mut self) -> (r: Option<u8>)
        requires
            old(self).wf(),
        ensures
            final(self).wf(),
            final(self).input_spec() == old(self).input_spec(),
            old(self).cursor_spec() < old(self).input_spec().len() ==> r == Some(
                old(self).input_spec()[old(self).cursor_spec()],
            ) && final(self).cursor_spec() == old(self).cursor_spec() + 1,
            old(self).cursor_spec() == old(self).input_spec().len() ==> (r is None && *final(self)
                == *old(self)),
    {
        if self.cursor < self.input.len() {
            let b = self.input[self.cursor];
            self.cursor = self.cursor + 1;
            Some(b)
        } else {
            None
        }
    }

    /// The next `n` bytes, if that many remain, without consuming them.
    pub fn peek_many(&self, n: usize) -> (r: Option<&'a [u8]>)
        requires
            self.wf(),
        ensures
            self.cursor_spec() + n <= self.input_spec().len() ==> (r matches Some(s) && s@
                == self.input_spec().subrange(self.cursor_spec(), self.cursor_spec() + n)),
            self.cursor_spec() + n > self.input_spec().len() ==> r is None,
    {
        if n <= self.input.len() - self.cursor {
            Some(vstd::slice::slice_subrange(self.input, self.cursor, self.cursor + n))
        } else {
            None
        }
    }

    /// Reads the next `n` bytes, if that many remain.
    pub fn consume_many(&mut self, n: usize) -> (r: Option<&'a [u8]>)
        requires
            old(self).wf(),
        ensures
            final(self).wf(),
            final(self).input_spec() == old(self).input_spec(),
            old(self).cursor_spec() + n <= old(self).input_spec().len() ==> (r matches Some(s)
                && s@ == old(self).input_spec().subrange(
                old(self).cursor_spec(),
                old(self).cursor_spec() + n,
            ) && final(self).cursor_spec() == old(self).cursor_spec() + n),
            old(self).cursor_spec() + n > old(self).input_spec().len() ==> (r is None && (*final(self))
                == *old(self)),
    {
        if n <= self.input.len() - self.cursor {
            let s = vstd::slice::slice_subrange(self.input, self.cursor, self.cursor + n);
            self.cursor = self.cursor + n;
            Some(s)
        } else {
            None
        }
    }

    /// Does the input continue with exactly these bytes?
    pub fn peek_exact(&self, exact: &[u8]) -> (r: bool)
        requires
            self.wf(),
        ensures
            r == matches_at(self.input_spec(), self.cursor_spec(), exact@),
    {
        match self.peek_many(exact.len()) {
            None => false,
            Some(data) => eq_bytes(data, exact),
        }
    }

    /// The length of the first of `among` that the input continues
    /// with, if any.
    pub fn peek_exact_among(&self, among: &[&[u8]]) -> (r: Option<usize>)
        requires
            self.wf(),
        ensures
            r == first_match(self.input_spec(), self.cursor_spec(), views_of_slices(among@)),
    {
        let ghost cands = views_of_slices(among@);
        proof {
            assert(cands.skip(0) =~= cands);
        }
        let mut i: usize = 0;
        while i < among.len()
            invariant
                self.wf(),
                i <= among@.len(),
                cands == views_of_slices(among@),
                cands.len() == among@.len(),
                forall|k: int| 0 <= k < cands.len() ==> cands[k] == among@[k]@,
                first_match(self.input_spec(), self.cursor_spec(), cands) == first_match(
                    self.input_spec(),
                    self.cursor_spec(),
                    cands.skip(i as int),
                ),
            decreases among@.len() - i,
        {
            proof {
                assert(cands.skip(i as int)[0] == cands[i as int]);
                assert(cands.skip(i as int).drop_first() =~= cands.skip(i as int + 1));
            }
            if self.peek_exact(among[i]) {
                return Some(among[i].len());
            }
            i = i + 1;
        }
        proof {
            assert(cands.skip(cands.len() as int).len() == 0);
        }
        None
    }

    /// The offset of the next byte to read.
    pub fn cursor(&self) -> (c: usize)
        ensures
            c == self.cursor_spec(),
    {
        self.cursor
    }
}

/// Do the bytes at `pos` in `input` spell out `pat`?
pub open spec fn matches_at(input: Seq<u8>, pos: int, pat: Seq<u8>) -> bool {
    pos + pat.len() <= input.len() && input.subrange(pos, pos + pat.len()) == pat
}

/// The length of the first of `cands` spelled out at `pos`, if any.
pub open spec fn first_match(input: Seq<u8>, pos: int, cands: Seq<Seq<u8>>) -> Option<usize>
    decreases cands.len(),
{
    if cands.len() == 0 {
        None
    } else if matches_at(input, pos, cands[0]) {
        Some(cands[0].len() as usize)
    } else {
        first_match(input, pos, cands.drop_first())
    }
}

/// The byte sequences of a list of byte slices.
pub open spec fn views_of_slices(among: Seq<&[u8]>) -> Seq<Seq<u8>> {
    Seq::new(among.len(), |i: int| among[i]@)
}

/// Are two byte slices equal, byte for byte?
fn eq_bytes(a: &[u8], b: &[u8]) -> (r: bool)
    ensures
        r == (a@ == b@),
{
    if a.len() != b.len() {
        proof {
            assert(a@.len() != b@.len());
        }
        return false;
    }
    let mut i: usize = 0;
    while i < a.len()
        invariant
            a@.len() == b@.len(),
            i <= a@.len(),
            forall|k: int| 0 <= k < i ==> a@[k] == b@[k],
        decreases a@.len() - i,
    {
        if a[i] != b[i] {
            return false;
        }
        i = i + 1;
    }
    proof {
        assert(a@ =~= b@);
    }
    true
}

} // verus!
