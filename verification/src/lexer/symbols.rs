//! Symbol tables: the glyph alternatives of each letter class, a
//! tokenizer that turns raw text into classified symbols, and a legend
//! that lines the classification up under the source text.

use unicode_segmentation::UnicodeSegmentation;
use vstd::prelude::*;
use vstd::string::StringExecFns;

use crate::lexer::reader::{Parse, Spanned, SpannedExt, SpannedReader};
use crate::lexer::utils::{first_match, matches_at};

verus! {

/// The byte sequences of a list of owned glyphs.
pub open spec fn glyph_views(cands: Seq<Vec<u8>>) -> Seq<Seq<u8>> {
    Seq::new(cands.len(), |i: int| cands[i]@)
}

/// The length of the first of `cands` that `input` opens with, if any.
fn read_symbol_among(input: &[u8], cands: &Vec<Vec<u8>>) -> (r: Option<usize>)
    ensures
        r == first_match(input@, 0, glyph_views(cands@)),
{
    let ghost views = glyph_views(cands@);
    proof {
        assert(views.skip(0) =~= views);
    }
    let mut i: usize = 0;
    while i < cands.len()
        invariant
            i <= cands@.len(),
            views == glyph_views(cands@),
            views.len() == cands@.len(),
            forall|k: int| 0 <= k < views.len() ==> views[k] == cands@[k]@,
            first_match(input@, 0, views) == first_match(input@, 0, views.skip(i as int)),
        decreases cands@.len() - i,
    {
        proof {
            assert(views.skip(i as int)[0] == views[i as int]);
            assert(views.skip(i as int).drop_first() =~= views.skip(i as int + 1));
        }
        let c = &cands[i];
        if starts_with(input, c.as_slice()) {
            return Some(c.len());
        }
        i = i + 1;
    }
    proof {
        assert(views.skip(views.len() as int).len() == 0);
    }
    None
}

/// Does `input` open with exactly the bytes of `pat`?
fn starts_with(input: &[u8], pat: &[u8]) -> (r: bool)
    ensures
        r == matches_at(input@, 0, pat@),
{
    if pat.len() > input.len() {
        return false;
    }
    let mut i: usize = 0;
    while i < pat.len()
        invariant
            pat@.len() <= input@.len(),
            i <= pat@.len(),
            forall|k: int| 0 <= k < i ==> input@[k] == pat@[k],
        decreases pat@.len() - i,
    {
        if input[i] != pat[i] {
            proof {
                if matches_at(input@, 0, pat@) {
                    assert(input@.subrange(0, pat@.len() as int)[i as int] == input@[i as int]);
                }
            }
            return false;
        }
        i = i + 1;
    }
    proof {
        assert(input@.subrange(0, pat@.len() as int) =~= pat@);
    }
    true
}

/// The length of the run of glyphs from `cands` that `input` opens
/// with, if it opens with at least one.
fn read_repeated_symbol_among(input: &[u8], cands: &Vec<Vec<u8>>) -> (r: Option<usize>)
    ensures
        r matches Some(l) ==> 0 < l <= input@.len(),
        first_match(input@, 0, glyph_views(cands@)) is None ==> r is None,
{
    let first = match read_symbol_among(input, cands) {
        None => {
            return None;
        },
        Some(l) => l,
    };
    proof {
        lemma_first_match_len(input@, 0, glyph_views(cands@));
    }
    if first == 0 {
        return None;
    }
    let mut len = first;
    loop
        invariant
            0 < len <= input@.len(),
        decreases input@.len() - len,
    {
        let rest = vstd::slice::slice_subrange(input, len, input.len());
        match read_symbol_among(rest, cands) {
            None => {
                break ;
            },
            Some(more) => {
                proof {
                    lemma_first_match_len(rest@, 0, glyph_views(cands@));
                }
                if more == 0 {
                    break ;
                }
                len = len + more;
            },
        }
    }
    Some(len)
}

/// A matching glyph is never empty and fits the input.
proof fn lemma_first_match_len(input: Seq<u8>, pos: int, cands: Seq<Seq<u8>>)
    requires
        0 <= pos <= input.len(),
    ensures
        match first_match(input, pos, cands) {
            Some(l) => l <= input.len() - pos,
            None => true,
        },
    decreases cands.len(),
{
    if cands.len() > 0 && !matches_at(input, pos, cands[0]) {
        lemma_first_match_len(input, pos, cands.drop_first());
    }
}

/// The vowel glyph classes.
#[derive(Copy, Clone, Debug, PartialEq, Eq)]
pub enum Vowel {
    I,
    E,
    A,
    O,
    U,
}

impl Vowel {
    /// The glyphs this vowel accepts: both cases, and the dotless i.
    pub fn accepted_symbols(self) -> (r: Vec<Vec<u8>>)
        ensures
            r@.len() > 0,
    {
        let (lo, up) = match self {
            Vowel::I => (105u8, 73u8),
            Vowel::E => (101u8, 69u8),
            Vowel::A => (97u8, 65u8),
            Vowel::O => (111u8, 79u8),
            Vowel::U => (117u8, 85u8),
        };
        let mut r: Vec<Vec<u8>> = Vec::new();
        r.push(one_byte(lo));
        r.push(one_byte(up));
        if matches!(self, Vowel::I) {
            // The dotless i.
            let mut dotless: Vec<u8> = Vec::new();
            dotless.push(196);
            dotless.push(177);
            r.push(dotless);
        }
        r
    }

    /// The canonical spelling of this vowel.
    pub fn text(self) -> (r: &'static str) {
        match self {
            Vowel::I => "i",
            Vowel::E => "e",
            Vowel::A => "a",
            Vowel::O => "o",
            Vowel::U => "u",
        }
    }
}

/// A single-byte glyph.
fn one_byte(b: u8) -> (r: Vec<u8>)
    ensures
        r@ == seq![b],
{
    let mut v: Vec<u8> = Vec::new();
    v.push(b);
    proof {
        assert(v@ =~= seq![b]);
    }
    v
}

/// The sonorant glyph classes.
#[derive(Copy, Clone, Debug, PartialEq, Eq)]
pub enum Sonorant {
    N,
    R,
    L,
}

impl Sonorant {
    /// The glyphs this sonorant accepts: both cases.
    pub fn accepted_symbols(self) -> (r: Vec<Vec<u8>>)
        ensures
            r@.len() > 0,
    {
        let (lo, up) = match self {
            Sonorant::N => (110u8, 78u8),
            Sonorant::R => (114u8, 82u8),
            Sonorant::L => (108u8, 76u8),
        };
        let mut r: Vec<Vec<u8>> = Vec::new();
        r.push(one_byte(lo));
        r.push(one_byte(up));
        r
    }

    /// The canonical spelling of this sonorant.
    pub fn text(self) -> (r: &'static str) {
        match self {
            Sonorant::N => "n",
            Sonorant::R => "r",
            Sonorant::L => "l",
        }
    }
}

/// The non-sonorant consonant glyph classes.
#[derive(Copy, Clone, Debug, PartialEq, Eq)]
pub enum NonSonorant {
    M,
    P,
    B,
    F,
    V,
    T,
    D,
    S,
    Z,
    C,
    J,
    G,
    K,
}

impl NonSonorant {
    /// The lowercase byte of this consonant.
    fn lower(self) -> u8 {
        match self {
            NonSonorant::M => 109,
            NonSonorant::P => 112,
            NonSonorant::B => 98,
            NonSonorant::F => 102,
            NonSonorant::V => 118,
            NonSonorant::T => 116,
            NonSonorant::D => 100,
            NonSonorant::S => 115,
            NonSonorant::Z => 122,
            NonSonorant::C => 99,
            NonSonorant::J => 106,
            NonSonorant::G => 103,
            NonSonorant::K => 107,
        }
    }

    /// The glyphs this consonant accepts: both cases.
    pub fn accepted_symbols(self) -> (r: Vec<Vec<u8>>)
        ensures
            r@.len() > 0,
    {
        let lo = self.lower();
        let up = if lo >= 32 {
            lo - 32
        } else {
            lo
        };
        let mut r: Vec<Vec<u8>> = Vec::new();
        r.push(one_byte(lo));
        r.push(one_byte(up));
        r
    }

    /// The canonical spelling of this consonant.
    pub fn text(self) -> (r: &'static str) {
        match self {
            NonSonorant::M => "m",
            NonSonorant::P => "p",
            NonSonorant::B => "b",
            NonSonorant::F => "f",
            NonSonorant::V => "v",
            NonSonorant::T => "t",
            NonSonorant::D => "d",
            NonSonorant::S => "s",
            NonSonorant::Z => "z",
            NonSonorant::C => "c",
            NonSonorant::J => "j",
            NonSonorant::G => "g",
            NonSonorant::K => "k",
        }
    }
}

/// The glyphs of the letter h, the pauses, and the hyphens.
fn h_symbols() -> (r: Vec<Vec<u8>>)
    ensures
        r@.len() > 0,
{
    let mut r: Vec<Vec<u8>> = Vec::new();
    r.push(one_byte(104));
    r.push(one_byte(72));
    r
}

fn pause_symbols() -> (r: Vec<Vec<u8>>)
    ensures
        r@.len() > 0,
{
    let mut r: Vec<Vec<u8>> = Vec::new();
    r.push(one_byte(39));
    r.push(one_byte(96));
    r.push(three_bytes(226, 128, 152));
    r.push(three_bytes(226, 128, 153));
    r.push(three_bytes(226, 128, 178));
    r
}

fn hyphen_symbols() -> (r: Vec<Vec<u8>>)
    ensures
        r@.len() > 0,
{
    let mut r: Vec<Vec<u8>> = Vec::new();
    r.push(one_byte(45));
    let mut armenian: Vec<u8> = Vec::new();
    armenian.push(214);
    armenian.push(138);
    r.push(armenian);
    r.push(three_bytes(226, 128, 144));
    r.push(three_bytes(226, 128, 145));
    r
}

/// A three-byte glyph.
fn three_bytes(a: u8, b: u8, c: u8) -> (r: Vec<u8>)
    ensures
        r@ == seq![a, b, c],
{
    let mut v: Vec<u8> = Vec::new();
    v.push(a);
    v.push(b);
    v.push(c);
    proof {
        assert(v@ =~= seq![a, b, c]);
    }
    v
}

/// One classified symbol of the raw text.
#[derive(Copy, Clone, Debug, PartialEq, Eq)]
pub enum Symbol {
    Vowel(Vowel),
    Sonorant(Sonorant),
    NonSonorant(NonSonorant),
    H,
    Pause,
    Hyphen,
    Space,
}

impl Symbol {
    /// The one-character spelling the legend prints for this symbol.
    pub fn text(self) -> (r: &'static str) {
        match self {
            Symbol::Vowel(s) => s.text(),
            Symbol::Sonorant(s) => s.text(),
            Symbol::NonSonorant(s) => s.text(),
            Symbol::H => "h",
            Symbol::Pause => "'",
            Symbol::Hyphen => "-",
            Symbol::Space => "_",
        }
    }
}

/// Tries to read a run of one non-space symbol class at the reader.
fn parse_non_space(reader: &mut SpannedReader) -> (r: Option<Symbol>)
    requires
        old(reader).wf(),
    ensures
        final(reader).wf(),
        final(reader).input_spec() == old(reader).input_spec(),
        old(reader).cursor_spec() <= final(reader).cursor_spec(),
        r is Some ==> old(reader).cursor_spec() < final(reader).cursor_spec(),
{
    let input = reader.input_after();
    let vowels = [Vowel::I, Vowel::E, Vowel::A, Vowel::O, Vowel::U];
    let mut i: usize = 0;
    while i < 5
        invariant
            reader.wf(),
            reader.input_spec() == old(reader).input_spec(),
            reader.cursor_spec() == old(reader).cursor_spec(),
            input@.len() == reader.input_spec().len() - reader.cursor_spec(),
            i <= 5,
        decreases 5 - i,
    {
        if let Some(len) = read_repeated_symbol_among(input, &vowels[i].accepted_symbols()) {
            reader.forward(len);
            return Some(Symbol::Vowel(vowels[i]));
        }
        i = i + 1;
    }
    let sonorants = [Sonorant::N, Sonorant::R, Sonorant::L];
    let mut i: usize = 0;
    while i < 3
        invariant
            reader.wf(),
            reader.input_spec() == old(reader).input_spec(),
            reader.cursor_spec() == old(reader).cursor_spec(),
            input@.len() == reader.input_spec().len() - reader.cursor_spec(),
            i <= 3,
        decreases 3 - i,
    {
        if let Some(len) = read_repeated_symbol_among(input, &sonorants[i].accepted_symbols()) {
            reader.forward(len);
            return Some(Symbol::Sonorant(sonorants[i]));
        }
        i = i + 1;
    }
    let consonants = [
        NonSonorant::M,
        NonSonorant::P,
        NonSonorant::B,
        NonSonorant::F,
        NonSonorant::V,
        NonSonorant::T,
        NonSonorant::D,
        NonSonorant::S,
        NonSonorant::Z,
        NonSonorant::C,
        NonSonorant::J,
        NonSonorant::G,
        NonSonorant::K,
    ];
    let mut i: usize = 0;
    while i < 13
        invariant
            reader.wf(),
            reader.input_spec() == old(reader).input_spec(),
            reader.cursor_spec() == old(reader).cursor_spec(),
            input@.len() == reader.input_spec().len() - reader.cursor_spec(),
            i <= 13,
        decreases 13 - i,
    {
        if let Some(len) = read_repeated_symbol_among(input, &consonants[i].accepted_symbols()) {
            reader.forward(len);
            return Some(Symbol::NonSonorant(consonants[i]));
        }
        i = i + 1;
    }
    if let Some(len) = read_repeated_symbol_among(input, &h_symbols()) {
        reader.forward(len);
        return Some(Symbol::H);
    }
    if let Some(len) = read_repeated_symbol_among(input, &pause_symbols()) {
        reader.forward(len);
        return Some(Symbol::Pause);
    }
    if let Some(len) = read_repeated_symbol_among(input, &hyphen_symbols()) {
        reader.forward(len);
        return Some(Symbol::Hyphen);
    }
    None
}

/// A raw text cut into classified, positioned symbols.
pub struct TextAsSymbols(pub Vec<Spanned<Symbol>>);

/// Skips unclassified bytes, then reads one symbol run; nothing is
/// left when only unclassified bytes remain.
fn next_symbol(reader: &mut SpannedReader) -> (r: Option<(Symbol, usize)>)
    requires
        old(reader).wf(),
    ensures
        final(reader).wf(),
        final(reader).input_spec() == old(reader).input_spec(),
        old(reader).cursor_spec() <= final(reader).cursor_spec(),
        r matches Some((sym, st)) ==> old(reader).cursor_spec() <= st < final(reader).cursor_spec(),
        r is None ==> final(reader).cursor_spec() == final(reader).input_spec().len(),
{
    let ghost input = old(reader).input_spec();
    loop
        invariant
            input == old(reader).input_spec(),
            reader.wf(),
            reader.input_spec() == input,
            old(reader).cursor_spec() <= reader.cursor_spec(),
        decreases input.len() - reader.cursor_spec(),
    {
        let symbol_start = reader.cursor();
        match parse_non_space(reader) {
            None => {
                if reader.remaining() == 0 {
                    return None;
                }
                reader.forward(1);
            },
            Some(symbol) => {
                return Some((symbol, symbol_start));
            },
        }
    }
}

impl Parse<u8> for TextAsSymbols {
    fn describe() -> (r: &'static str) {
        "text as symbols"
    }

    /// Reads the whole input: runs of recognized glyphs become their
    /// symbols, and every stretch between them becomes a space symbol.
    fn parse(reader: &mut SpannedReader, _state: &mut ()) -> (r: Result<Self, ()>) {
        let ghost input = old(reader).input_spec();
        let mut symbols: Vec<Spanned<Symbol>> = Vec::new();

        while reader.remaining() > 0
            invariant
                input == old(reader).input_spec(),
                reader.wf(),
                reader.input_spec() == input,
                old(reader).cursor_spec() <= reader.cursor_spec(),
            decreases input.len() - reader.cursor_spec(),
        {
            let space_start = reader.cursor();
            match next_symbol(reader) {
                None => {
                    // The text ends in unclassified bytes: keep them as
                    // one final space symbol.
                    if space_start != reader.cursor() {
                        symbols.push(
                            Symbol::Space.spanned(
                                core::ops::Range { start: space_start, end: reader.cursor() },
                            ),
                        );
                    }
                    return Ok(TextAsSymbols(symbols));
                },
                Some((symbol, symbol_start)) => {
                    if symbol_start != space_start {
                        symbols.push(
                            Symbol::Space.spanned(
                                core::ops::Range { start: space_start, end: symbol_start },
                            ),
                        );
                    }
                    symbols.push(
                        symbol.spanned(
                            core::ops::Range { start: symbol_start, end: reader.cursor() },
                        ),
                    );
                },
            }
        }

        Ok(TextAsSymbols(symbols))
    }
}

/// How many extended grapheme clusters a text displays as; the count
/// depends on the characters alone.
pub uninterp spec fn grapheme_count_of(s: Seq<char>) -> nat;

/// Relies on `unicode_segmentation::UnicodeSegmentation::graphemes`:
/// counting a string's extended grapheme clusters is a pure function
/// of its characters.
#[verifier::external_body]
fn grapheme_count(s: &str) -> (r: usize)
    ensures
        r as nat == grapheme_count_of(s@),
{
    s.graphemes(true).count()
}

/// Relies on `core::str::from_utf8`: the decoded text, if the bytes
/// are valid UTF-8, encodes back to exactly those bytes.
#[verifier::external_body]
fn decode_utf8_bytes(v: &[u8]) -> (r: Option<String>)
    ensures
        r matches Some(s) ==> vstd::utf8::encode_utf8(s@) == v@,
{
    match core::str::from_utf8(v) {
        Ok(s) => Some(s.to_string()),
        Err(_) => None,
    }
}

impl TextAsSymbols {
    /// A line that spells, under each glyph of the input, the class of
    /// the symbol it belongs to: one classification letter per symbol,
    /// padded with one space for every further grapheme the symbol's
    /// source displays as.
    pub fn legend(&self, input: &[u8]) -> (out: String) {
        let mut out_legend = String::new();

        let mut i: usize = 0;
        while i < self.0.len()
            decreases self.0@.len() - i,
        {
            let span = &self.0[i].span;
            let inner = self.0[i].inner;

            out_legend.append(inner.text());

            if span.start <= span.end && span.end <= input.len() {
                let source = vstd::slice::slice_subrange(input, span.start, span.end);
                let display_len = match decode_utf8_bytes(source) {
                    Some(text) => grapheme_count(text.as_str()),
                    None => 0,
                };
                if display_len >= 1 {
                    let mut dashes = display_len - 1;
                    while dashes > 0
                        decreases dashes,
                    {
                        out_legend.append(" ");
                        dashes = dashes - 1;
                    }
                }
            }
            i = i + 1;
        }

        out_legend
    }
}

} // verus!
