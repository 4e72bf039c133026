//! The lexer: a state machine over classified symbols that cuts the
//! input into lexemes (particles, roots, borrowings, compounds).

use vstd::prelude::*;

pub mod reader;
pub mod symbol;
pub mod symbols;
pub mod utils;

use crate::span::Span;
use symbol::{parse_symbol, Symbol};
use utils::{err, Error, Reader, Spanned};
use vstd::string::StringExecFns;

verus! {

/// One lexeme of the language.
#[derive(Debug, PartialEq, Eq)]
pub enum Lexeme {
    Particle(String),
    Root(String),
    Borrowing(String),
    FreeformVariable(String),
    Compound { parts: Vec<Spanned<Lexeme>>, invert_transitivity: bool },
    ForeignQuote { delimiter: String, quote: Vec<u8> },
    SpellingQuote(Vec<String>),
}

/// Where the lexer stands between symbols.
#[derive(Clone, Copy, Debug, PartialEq, Eq)]
enum LexerState {
    /// Start of the lexing stage, or after a word ending with a space.
    Space,
    /// Encountered one consonant.
    C(usize, u8),
    /// Encountered an initial consonant pair.
    CI(usize, u8, u8),
    /// After a vowel has been processed.
    V(usize),
    /// Hyphen after a vowel.
    VH(usize),
    /// Sonorant after a vowel.
    VS(usize, u8),
}

/// What kind of word the letters seen so far can still form.
#[derive(Clone, Copy, PartialEq, Eq)]
enum Mode {
    ParticleOrRoot,
    Root,
    Freeform { borrowing: bool },
}

impl Mode {
    /// A shape only roots have was seen.
    fn root_pattern_detected(&mut self)
        ensures
            *old(self) == Mode::ParticleOrRoot ==> *final(self) == Mode::Root,
            *old(self) != Mode::ParticleOrRoot ==> *final(self) == *old(self),
    {
        if matches!(*self, Mode::ParticleOrRoot) {
            *self = Mode::Root;
        }
    }
}

/// The sibilants.
pub open spec fn spec_is_sibilant(c: u8) -> bool {
    c == 99 || c == 115 || c == 106 || c == 122
}

fn is_sibilant(c: u8) -> (r: bool)
    ensures
        r == spec_is_sibilant(c),
{
    c == 99 || c == 115 || c == 106 || c == 122
}

/// The plosives.
pub open spec fn spec_is_plosive(c: u8) -> bool {
    c == 116 || c == 100 || c == 107 || c == 103 || c == 112 || c == 98
}

fn is_plosive(c: u8) -> (r: bool)
    ensures
        r == spec_is_plosive(c),
{
    c == 116 || c == 100 || c == 107 || c == 103 || c == 112 || c == 98
}

/// The `other` consonant group.
pub open spec fn spec_is_other(c: u8) -> bool {
    c == 112 || c == 98 || c == 116 || c == 100 || c == 118 || c == 102 || c == 107 || c == 103
        || c == 109 || c == 110
}

fn is_other(c: u8) -> (r: bool)
    ensures
        r == spec_is_other(c),
{
    c == 112 || c == 98 || c == 116 || c == 100 || c == 118 || c == 102 || c == 107 || c == 103
        || c == 109 || c == 110
}

/// The liquids.
pub open spec fn spec_is_liquid(c: u8) -> bool {
    c == 108 || c == 114
}

fn is_liquid(c: u8) -> (r: bool)
    ensures
        r == spec_is_liquid(c),
{
    c == 108 || c == 114
}

/// The voiced consonants.
pub open spec fn spec_is_voiced(c: u8) -> bool {
    c == 98 || c == 100 || c == 103 || c == 118 || c == 122 || c == 106
}

fn is_voiced(c: u8) -> (r: bool)
    ensures
        r == spec_is_voiced(c),
{
    c == 98 || c == 100 || c == 103 || c == 118 || c == 122 || c == 106
}

/// The unvoiced consonants.
pub open spec fn spec_is_unvoiced(c: u8) -> bool {
    c == 112 || c == 116 || c == 107 || c == 102 || c == 115 || c == 99
}

fn is_unvoiced(c: u8) -> (r: bool)
    ensures
        r == spec_is_unvoiced(c),
{
    c == 112 || c == 116 || c == 107 || c == 102 || c == 115 || c == 99
}

/// The initial-pair relation: which two consonants may open a word
/// together.
pub open spec fn spec_is_initial_pair(c1: u8, c2: u8) -> bool {
    if c1 == c2 {
        false
    } else if (spec_is_voiced(c1) && spec_is_unvoiced(c2)) || (spec_is_unvoiced(c1)
        && spec_is_voiced(c2)) {
        false
    } else if (spec_is_plosive(c1) || c1 == 102 || c1 == 118) && spec_is_sibilant(c2) {
        true
    } else if spec_is_sibilant(c1) && (spec_is_other(c2) || symbol::spec_is_sonorant(c2)) {
        true
    } else if ((c1 == 112 || c1 == 98) && c2 == 110) || (c1 == 110 && spec_is_liquid(c2)) || ((c1
        == 116 || c1 == 100) && (c2 == 110 || c2 == 108)) {
        false
    } else if spec_is_other(c1) && symbol::spec_is_sonorant(c2) {
        true
    } else {
        false
    }
}

/// Do the two consonants form an initial pair?
pub fn is_initial_pair(c1: u8, c2: u8) -> (r: bool)
    ensures
        r == spec_is_initial_pair(c1, c2),
{
    if c1 == c2 {
        return false;
    }
    if (is_voiced(c1) && is_unvoiced(c2)) || (is_unvoiced(c1) && is_voiced(c2)) {
        return false;
    }
    if (is_plosive(c1) || c1 == 102 || c1 == 118) && is_sibilant(c2) {
        return true;
    }
    if is_sibilant(c1) && (is_other(c2) || symbol::is_sonorant(c2)) {
        return true;
    }
    if ((c1 == 112 || c1 == 98) && c2 == 110) || (c1 == 110 && is_liquid(c2)) || ((c1 == 116 || c1
        == 100) && (c2 == 110 || c2 == 108)) {
        return false;
    }
    if is_other(c1) && symbol::is_sonorant(c2) {
        return true;
    }
    false
}

/// The medial-pair relation: which two consonants may continue a word
/// together.
pub open spec fn spec_is_medial_pair(c1: u8, c2: u8) -> bool {
    let base = (spec_is_liquid(c1) && c2 == 110) || (c1 == 110 && spec_is_liquid(c2)) || ((c1
        == 102 || c1 == 118) && (c2 == 109 || spec_is_plosive(c2))) || (spec_is_plosive(c1) && (c2
        == 102 || c2 == 118 || c2 == 109 || spec_is_plosive(c2)));
    base && c1 != c2 && !(spec_is_voiced(c1) && spec_is_unvoiced(c2)) && !(spec_is_unvoiced(c1)
        && spec_is_voiced(c2))
}

fn is_medial_pair(c1: u8, c2: u8) -> (r: bool)
    ensures
        r == spec_is_medial_pair(c1, c2),
{
    let base = (is_liquid(c1) && c2 == 110) || (c1 == 110 && is_liquid(c2)) || ((c1 == 102 || c1
        == 118) && (c2 == 109 || is_plosive(c2))) || (is_plosive(c1) && (c2 == 102 || c2 == 118
        || c2 == 109 || is_plosive(c2)));
    base && c1 != c2 && !(is_voiced(c1) && is_unvoiced(c2)) && !(is_unvoiced(c1) && is_voiced(c2))
}

/// The lexer: reads symbols and assembles lexemes, carrying the word
/// collected so far and the state of its shape.
pub struct Lexer<'a> {
    reader: Reader<'a>,
    state: LexerState,
    current_word: String,
    word_start: usize,
    mode: Mode,
    in_compound: bool,
}

impl<'a> Lexer<'a> {
    /// The lexer's reader stays within its input.
    pub closed spec fn wf(&self) -> bool {
        self.reader.wf()
    }

    /// The input being lexed.
    pub closed spec fn input_spec(&self) -> Seq<u8> {
        self.reader.input_spec()
    }

    /// The offset of the next byte to read.
    pub closed spec fn cursor_spec(&self) -> int {
        self.reader.cursor_spec()
    }

    /// A lexer over the given reader, with no word in progress.
    pub fn new(reader: Reader<'a>) -> (r: Lexer<'a>)
        requires
            reader.wf(),
        ensures
            r.wf(),
            r.input_spec() == reader.input_spec(),
            r.cursor_spec() == reader.cursor_spec(),
    {
        let word_start = reader.cursor();
        Lexer {
            reader,
            state: LexerState::Space,
            current_word: String::new(),
            word_start,
            mode: Mode::ParticleOrRoot,
            in_compound: false,
        }
    }

    /// Closes the word collected so far as a lexeme of the current
    /// mode, and prepares for the next one.
    fn end_lexeme(&mut self, word_end: usize, new_state: LexerState) -> (r: Result<
        Option<Spanned<Lexeme>>,
        Error,
    >)
        requires
            old(self).wf(),
        ensures
            final(self).wf(),
            final(self).input_spec() == old(self).input_spec(),
            final(self).cursor_spec() == old(self).cursor_spec(),
            r matches Ok(Some(_)),
    {
        let word = self.current_word.clone();
        self.current_word = String::new();

        let span = Span::new(self.word_start, word_end);
        let lexeme = match self.mode {
            Mode::ParticleOrRoot => Lexeme::Particle(word),
            Mode::Root => Lexeme::Root(word),
            Mode::Freeform { borrowing: true } => Lexeme::Borrowing(word),
            Mode::Freeform { borrowing: false } => Lexeme::FreeformVariable(word),
        };

        self.mode = Mode::ParticleOrRoot;
        self.state = new_state;
        self.word_start = word_end;

        Ok(Some(span.wrap(lexeme)))
    }

    /// Appends one letter to the word collected so far.
    fn push_letter(&mut self, c: u8)
        requires
            old(self).wf(),
        ensures
            final(self).wf(),
            final(self).input_spec() == old(self).input_spec(),
            final(self).cursor_spec() == old(self).cursor_spec(),
    {
        crate::semantics::push_char(&mut self.current_word, c as char);
    }

    /// Reads the next lexeme, if any input is left; lexing never moves
    /// backwards through the input.
    ///
    /// The state machine follows the symbol classes: words open with a
    /// consonant or an initial pair, vowels and checked sonorants
    /// continue them, spaces end them; the vowel e opens a compound of
    /// two further lexemes.
    #[verifier::loop_isolation(false)]
    pub fn next_lexeme(&mut self) -> (r: Result<Option<Spanned<Lexeme>>, Error>)
        requires
            old(self).wf(),
        ensures
            final(self).wf(),
            final(self).input_spec() == old(self).input_spec(),
            old(self).cursor_spec() <= final(self).cursor_spec(),
            r matches Ok(None) ==> final(self).cursor_spec() == final(self).input_spec().len(),
        decreases old(self).input_spec().len() - old(self).cursor_spec(),
    {
        let ghost input = self.reader.input_spec();
        let ghost entry = self.reader.cursor_spec();
        loop
            invariant
                self.wf(),
                self.input_spec() == input,
                entry <= self.cursor_spec() <= input.len(),
            decreases input.len() - self.cursor_spec(),
        {
            if self.reader.peek().is_none() {
                let end = self.reader.cursor();
                let span = Span::new(self.word_start, end);

                match self.state {
                    LexerState::Space => {
                        return Ok(None);
                    },
                    LexerState::V(_) => {},
                    LexerState::C(_, _) => {
                        return err(span, "TODO: Text ending with consonant");
                    },
                    LexerState::VS(_, s) => {
                        self.push_letter(s);
                        self.mode.root_pattern_detected();
                    },
                    LexerState::CI(s, _, _) => {
                        return err(
                            Span::new(s, end),
                            "Text ended with incomplete lexeme: lexemes cannot end with a consonant pair.",
                        );
                    },
                    LexerState::VH(s) => {
                        return err(
                            Span::new(s, end),
                            "Text ended with incomplete lexeme: lexemes cannot end with H.",
                        );
                    },
                }

                return self.end_lexeme(end, LexerState::Space);
            }
            let symbol = match parse_symbol(&mut self.reader) {
                Err(e) => {
                    return Err(e);
                },
                Ok(s) => s,
            };
            let value = symbol.value;
            let start = symbol.span.start;
            let end = symbol.span.end;

            let next_state = match (self.state, value) {
                (LexerState::Space, Symbol::Space) => {
                    self.word_start = end;
                    LexerState::Space
                },
                (LexerState::Space, Symbol::Consonant(c)) => LexerState::C(start, c),
                (LexerState::Space, Symbol::Vowel(101u8)) => {
                    if self.in_compound {
                        return err(symbol.span, "Compounds cannot be nested.");
                    }
                    let mut parts: Vec<Spanned<Lexeme>> = Vec::new();

                    self.in_compound = true;
                    let mut i: usize = 0;
                    while i < 2
                        invariant
                            self.wf(),
                            self.input_spec() == input,
                            i <= 2,
                            parts@.len() == i,
                            entry < self.cursor_spec() <= input.len(),
                        decreases 2 - i,
                    {
                        let part = match self.next_lexeme() {
                            Err(e) => {
                                return Err(e);
                            },
                            Ok(None) => {
                                let m = if i == 0 {
                                    "Reached end of text after 0/2 expected compound parts"
                                } else {
                                    "Reached end of text after 1/2 expected compound parts"
                                };
                                return err(Span::new(start, self.reader.cursor()), m);
                            },
                            Ok(Some(part)) => part,
                        };

                        match &part.value {
                            Lexeme::Root(_) => {},
                            Lexeme::Particle(_) => {},
                            Lexeme::Borrowing(_) => {
                                if i != 0 {
                                    return err(
                                        part.span,
                                        "Borrowings cannot appear in a compound except in first position.",
                                    );
                                }
                            },
                            _ => {
                                return err(
                                    part.span,
                                    "todo other lexeme types inside a compound",
                                );
                            },
                        }

                        parts.push(part);
                        i = i + 1;
                    }
                    self.in_compound = false;

                    let last_end = parts[parts.len() - 1].span.end;
                    let span = Span::new(start, last_end);

                    return Ok(
                        Some(span.wrap(Lexeme::Compound { parts, invert_transitivity: false })),
                    );
                },
                (LexerState::Space, Symbol::Vowel(_)) => {
                    return err(symbol.span, "todo word starting with a plain vowel");
                },
                (LexerState::Space, Symbol::Pause) => {
                    return err(symbol.span, "todo space + pause");
                },
                (LexerState::Space, Symbol::Sonorant(_)) => {
                    return err(symbol.span, "A word cannot start with a sonorant.");
                },
                (LexerState::Space, Symbol::Hyphen) => {
                    return err(symbol.span, "A word cannot start with an hyphen.");
                },
                (LexerState::Space, Symbol::H) => {
                    return err(symbol.span, "A word cannot start with an H.");
                },
                // C
                (LexerState::C(s, c1), Symbol::Consonant(c2)) => {
                    if is_initial_pair(c1, c2) {
                        self.mode.root_pattern_detected();
                        LexerState::CI(s, c1, c2)
                    } else {
                        let mut m = String::from_str(
                            "A word can only start with 2 consonants if they form an initial pair, which '",
                        );
                        crate::semantics::push_char(&mut m, c1 as char);
                        crate::semantics::push_char(&mut m, c2 as char);
                        m.append("' is not.");
                        return err(Span::new(s, end), m.as_str());
                    }
                },
                (LexerState::C(s, c), Symbol::Vowel(v)) => {
                    self.push_letter(c);
                    self.push_letter(v);
                    self.word_start = s;
                    LexerState::V(start)
                },
                (LexerState::C(s, _), Symbol::H) => {
                    return err(
                        Span::new(s, end),
                        "An H cannot appear after the first consonant of a word.",
                    );
                },
                (LexerState::C(s, _), Symbol::Hyphen) => {
                    return err(
                        Span::new(s, end),
                        "An hyphen cannot appear after the first consonant of a word.",
                    );
                },
                (LexerState::C(s, _), Symbol::Space) => {
                    return err(
                        Span::new(s, end),
                        "A space cannot appear after the first consonant of a word.",
                    );
                },
                (LexerState::C(s, _), Symbol::Pause) => {
                    return err(
                        Span::new(s, end),
                        "A pause cannot appear after the first consonant of a word.",
                    );
                },
                (LexerState::C(s, c1), Symbol::Sonorant(c2)) => {
                    if !is_initial_pair(c1, c2) {
                        let mut m = String::from_str(
                            "A word can only start with a consonant followed by a sonorant if they form an initial pair, which '",
                        );
                        crate::semantics::push_char(&mut m, c1 as char);
                        crate::semantics::push_char(&mut m, c2 as char);
                        m.append("' is not.");
                        return err(Span::new(s, end), m.as_str());
                    }
                    return err(Span::new(s, end), "TODO: CS");
                },
                // CI
                (LexerState::CI(_, c1, c2), Symbol::Vowel(v)) => {
                    self.push_letter(c1);
                    self.push_letter(c2);
                    self.push_letter(v);
                    LexerState::V(start)
                },
                (LexerState::CI(s, _, _), Symbol::H) => {
                    return err(Span::new(s, end), "An H cannot appear after an initial pair.");
                },
                (LexerState::CI(s, _, _), Symbol::Hyphen) => {
                    return err(
                        Span::new(s, end),
                        "An hyphen cannot appear after an initial pair.",
                    );
                },
                (LexerState::CI(s, _, _), Symbol::Space) => {
                    return err(Span::new(s, end), "A space cannot appear after an initial pair.");
                },
                (LexerState::CI(s, _, _), Symbol::Consonant(_)) => {
                    return err(
                        Span::new(s, end),
                        "A consonant cannot appear after an initial pair.",
                    );
                },
                (LexerState::CI(s, _, _), Symbol::Sonorant(_)) => {
                    return err(
                        Span::new(s, end),
                        "A sonorant cannot appear after an initial pair.",
                    );
                },
                (LexerState::CI(s, _, _), Symbol::Pause) => {
                    return err(Span::new(s, end), "A pause cannot appear after an initial pair.");
                },
                // V
                (LexerState::V(_), Symbol::Vowel(v)) => {
                    self.push_letter(v);
                    LexerState::V(start)
                },
                (LexerState::V(_), Symbol::Consonant(_)) => {
                    return err(symbol.span, "todo vowel + consonant");
                },
                (LexerState::V(s), Symbol::Sonorant(c)) => {
                    self.mode.root_pattern_detected();
                    LexerState::VS(s, c)
                },
                (LexerState::V(_), Symbol::Pause) => {
                    return err(symbol.span, "todo vowel + pause");
                },
                (LexerState::V(_), Symbol::Hyphen) => {
                    return err(symbol.span, "todo vowel + hyphen");
                },
                (LexerState::V(_), Symbol::Space) => {
                    return self.end_lexeme(start, LexerState::Space);
                },
                (LexerState::V(s), Symbol::H) => LexerState::VH(s),
                // VH
                (LexerState::VH(_), Symbol::Vowel(v)) => {
                    self.push_letter(104);
                    self.push_letter(v);
                    LexerState::V(start)
                },
                (LexerState::VH(s), _) => {
                    return err(Span::new(s, end), "An H can only be followed by a vowel.");
                },
                // VS
                (LexerState::VS(_, c), Symbol::Vowel(v)) => {
                    self.push_letter(c);
                    self.push_letter(v);
                    LexerState::V(start)
                },
                (LexerState::VS(_, c), Symbol::Consonant(c1)) => {
                    self.push_letter(c);
                    return self.end_lexeme(start, LexerState::C(start, c1));
                },
                (LexerState::VS(_, c1), Symbol::Sonorant(c2)) => {
                    if is_medial_pair(c1, c2) {
                        return err(symbol.span, "todo sonorant medial pair");
                    }
                    let mut m = String::from_str(
                        "2 sonorants are only allowed in a row if they form a medial pair, which is not the case of '",
                    );
                    crate::semantics::push_char(&mut m, c1 as char);
                    crate::semantics::push_char(&mut m, c2 as char);
                    m.append("'");
                    return err(Span::new(start, end), m.as_str());
                },
                (LexerState::VS(s, _), Symbol::H) => {
                    return err(Span::new(s, end), "An H can only appear between 2 vowels.");
                },
                (LexerState::VS(_, _), Symbol::Pause) => {
                    return err(symbol.span, "todo sonorant followed by pause");
                },
                (LexerState::VS(_, _), Symbol::Hyphen) => {
                    return err(symbol.span, "todo sonorant followed by hyphen");
                },
                (LexerState::VS(_, c), Symbol::Space) => {
                    self.push_letter(c);
                    return self.end_lexeme(start, LexerState::Space);
                },
            };
            self.state = next_state;
        }
    }
}

} // verus!
