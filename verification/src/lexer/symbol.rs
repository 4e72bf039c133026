//! Symbol-level lexing: classifying bytes and reading one symbol.

use vstd::prelude::*;

use crate::lexer::utils::{err, first_match, ok, views_of_slices, Error, Reader, Spanned};
use crate::span::Span;

verus! {

/// One lexical symbol: a classified letter run, a pause, a hyphen, or
/// a run of anything else.
#[derive(Copy, Clone, Debug, PartialEq, Eq)]
pub enum Symbol {
    Vowel(u8),
    Consonant(u8),
    Sonorant(u8),
    H,
    Pause,
    Hyphen,
    Space,
}

/// The vowels.
pub open spec fn spec_is_vowel(c: u8) -> bool {
    c == 105 || c == 101 || c == 97 || c == 111 || c == 117
}

/// Is the byte a vowel letter?
pub fn is_vowel(c: u8) -> (r: bool)
    ensures
        r == spec_is_vowel(c),
{
    c == 105 || c == 101 || c == 97 || c == 111 || c == 117
}

/// The sonorants.
pub open spec fn spec_is_sonorant(c: u8) -> bool {
    c == 110 || c == 114 || c == 108
}

/// Is the byte a sonorant letter?
pub fn is_sonorant(c: u8) -> (r: bool)
    ensures
        r == spec_is_sonorant(c),
{
    c == 110 || c == 114 || c == 108
}

/// The non-sonorant consonants.
pub open spec fn spec_is_consonant(c: u8) -> bool {
    c == 109 || c == 112 || c == 98 || c == 102 || c == 118 || c == 116 || c == 100 || c == 115
        || c == 122 || c == 99 || c == 106 || c == 103 || c == 107
}

/// Is the byte a non-sonorant consonant letter?
pub fn is_consonant(c: u8) -> (r: bool)
    ensures
        r == spec_is_consonant(c),
{
    c == 109 || c == 112 || c == 98 || c == 102 || c == 118 || c == 116 || c == 100 || c == 115
        || c == 122 || c == 99 || c == 106 || c == 103 || c == 107
}

/// The letters of the alphabet, h included.
pub open spec fn spec_is_letter(c: u8) -> bool {
    spec_is_vowel(c) || spec_is_sonorant(c) || spec_is_consonant(c) || c == 104
}

fn is_letter(c: u8) -> (r: bool)
    ensures
        r == spec_is_letter(c),
{
    is_vowel(c) || is_sonorant(c) || is_consonant(c) || c == 104
}

/// The symbol a letter byte stands for.
pub open spec fn spec_classify_letter(c: u8) -> Symbol {
    if spec_is_vowel(c) {
        Symbol::Vowel(c)
    } else if spec_is_sonorant(c) {
        Symbol::Sonorant(c)
    } else if spec_is_consonant(c) {
        Symbol::Consonant(c)
    } else {
        Symbol::H
    }
}

/// Classifies a letter byte; only letters are classified, so anything
/// else is ruled out here.
fn classify_letter(c: u8) -> (r: Symbol)
    requires
        spec_is_letter(c),
    ensures
        r == spec_classify_letter(c),
{
    if is_vowel(c) {
        Symbol::Vowel(c)
    } else if is_sonorant(c) {
        Symbol::Sonorant(c)
    } else if is_consonant(c) {
        Symbol::Consonant(c)
    } else {
        Symbol::H
    }
}

/// The lowercase form of an ASCII byte.
pub open spec fn spec_to_lower(c: u8) -> u8 {
    if 65 <= c <= 90 {
        (c + 32) as u8
    } else {
        c
    }
}

fn to_lower(c: u8) -> (r: u8)
    ensures
        r == spec_to_lower(c),
{
    if 65 <= c && c <= 90 {
        c + 32
    } else {
        c
    }
}

/// The accepted hyphen glyphs, as byte sequences: hyphen-minus, en
/// dash, em dash, minus sign.
pub open spec fn hyphen_glyphs() -> Seq<Seq<u8>> {
    seq![seq![45u8], seq![226u8, 128u8, 147u8], seq![226u8, 128u8, 148u8], seq![
        226u8,
        136u8,
        146u8,
    ]]
}

/// The length of the hyphen glyph the input continues with, if any.
pub fn peek_hyphen(r: &mut Reader) -> (res: Option<usize>)
    requires
        old(r).wf(),
    ensures
        *final(r) == *old(r),
        res == first_match(old(r).input_spec(), old(r).cursor_spec(), hyphen_glyphs()),
{
    let dash = [45u8];
    let en = [226u8, 128u8, 147u8];
    let em = [226u8, 128u8, 148u8];
    let minus = [226u8, 136u8, 146u8];
    let among = [dash.as_slice(), en.as_slice(), em.as_slice(), minus.as_slice()];
    let res = r.peek_exact_among(among.as_slice());
    proof {
        assert(views_of_slices(among@) =~= hyphen_glyphs()) by {
            assert(views_of_slices(among@)[0] =~= hyphen_glyphs()[0]);
            assert(views_of_slices(among@)[1] =~= hyphen_glyphs()[1]);
            assert(views_of_slices(among@)[2] =~= hyphen_glyphs()[2]);
            assert(views_of_slices(among@)[3] =~= hyphen_glyphs()[3]);
        }
    }
    res
}

/// The accepted pause glyphs, as byte sequences: apostrophe, right
/// single quotation mark, backtick.
pub open spec fn pause_glyphs() -> Seq<Seq<u8>> {
    seq![seq![39u8], seq![226u8, 128u8, 153u8], seq![96u8]]
}

/// The length of the pause glyph the input continues with, if any.
pub fn peek_pause(r: &mut Reader) -> (res: Option<usize>)
    requires
        old(r).wf(),
    ensures
        *final(r) == *old(r),
        res == first_match(old(r).input_spec(), old(r).cursor_spec(), pause_glyphs()),
{
    let apo = [39u8];
    let quo = [226u8, 128u8, 153u8];
    let tick = [96u8];
    let among = [apo.as_slice(), quo.as_slice(), tick.as_slice()];
    let res = r.peek_exact_among(among.as_slice());
    proof {
        assert(views_of_slices(among@) =~= pause_glyphs()) by {
            assert(views_of_slices(among@)[0] =~= pause_glyphs()[0]);
            assert(views_of_slices(among@)[1] =~= pause_glyphs()[1]);
            assert(views_of_slices(among@)[2] =~= pause_glyphs()[2]);
        }
    }
    res
}

/// Reads one symbol from the reader: a hyphen or pause glyph (not
/// doubled), a run of one repeated letter, or a run of anything else
/// as a space. At the end of the input, or on a doubled hyphen or
/// pause, an error.
///
/// A successful read consumes at least one byte and reports exactly
/// the span it consumed.
pub fn parse_symbol(r: &mut Reader) -> (res: Result<Spanned<Symbol>, Error>)
    requires
        old(r).wf(),
    ensures
        final(r).wf(),
        final(r).input_spec() == old(r).input_spec(),
        old(r).cursor_spec() <= final(r).cursor_spec(),
        res matches Ok(s) ==> old(r).cursor_spec() < final(r).cursor_spec() && s.span.start == old(
            r,
        ).cursor_spec() && s.span.end == final(r).cursor_spec(),
{
    let ghost input = r.input_spec();
    let start = r.cursor();

    // Multi-byte glyphs first: hyphens and pauses, which may not repeat.
    if let Some(len) = peek_hyphen(r) {
        let _ = r.consume_many(len);
        if let Some(len2) = peek_hyphen(r) {
            let end = if r.cursor() <= usize::MAX - len2 {
                r.cursor() + len2
            } else {
                usize::MAX
            };
            return err(Span::new(start, end), "2 hyphens cannot appear in a row");
        }
        return ok(Span::new(start, r.cursor()), Symbol::Hyphen);
    }

    if let Some(len) = peek_pause(r) {
        let _ = r.consume_many(len);
        if let Some(len2) = peek_pause(r) {
            let end = if r.cursor() <= usize::MAX - len2 {
                r.cursor() + len2
            } else {
                usize::MAX
            };
            return err(Span::new(start, end), "2 pauses cannot appear in a row");
        }
        return ok(Span::new(start, r.cursor()), Symbol::Pause);
    }

    // One byte: a letter opens a letter run, anything else a space run.
    let c = match r.consume() {
        None => {
            return err(Span::new(start, start), "End of input");
        },
        Some(b) => to_lower(b),
    };

    if is_letter(c) {
        // Absorb further occurrences of the same letter.
        loop
            invariant
                r.wf(),
                r.input_spec() == input,
                start < r.cursor_spec() <= input.len(),
            decreases input.len() - r.cursor_spec(),
        {
            match r.peek() {
                None => {
                    break ;
                },
                Some(c2) => {
                    if to_lower(c2) != c {
                        break ;
                    }
                    let _ = r.consume();
                },
            }
        }
        return ok(Span::new(start, r.cursor()), classify_letter(c));
    }

    // A space run: consume until a hyphen, pause or letter starts.
    loop
        invariant
            r.wf(),
            r.input_spec() == input,
            start < r.cursor_spec() <= input.len(),
        decreases input.len() - r.cursor_spec(),
    {
        if peek_hyphen(r).is_some() || peek_pause(r).is_some() {
            break ;
        }
        match r.peek() {
            None => {
                break ;
            },
            Some(c2) => {
                if is_letter(c2) {
                    break ;
                }
                let _ = r.consume();
            },
        }
    }
    ok(Span::new(start, r.cursor()), Symbol::Space)
}

} // verus!
