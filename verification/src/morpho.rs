//! The morphology grammar: word-shape rules for a small constructed
//! language, built entirely from the combinator library.
//!
//! Each rule function builds a parser value and is proved to build
//! exactly the grammar its `g_`-mirror states; what the parser then
//! does with any input is fixed by [`crate::semantics::spec_parse`].

use vstd::prelude::*;

use crate::parser::{
    any, choice, end, deny, exact_utf8, g_choice, g_deny, g_msg, g_not, nil, not, one_of, views_of,
    ErrorBuilder, GParser, Parser, Side, Transform,
};

verus! {

/// A word recognized by the word-level rules: either a root or a
/// particle, carrying its normalized spelling.
#[derive(Debug, Clone, PartialEq, Eq)]
pub enum Word {
    Root(String),
    Particle(String),
}

/// The lowercase form of an ASCII letter byte.
pub open spec fn spec_lower(c: u8) -> u8 {
    if 65 <= c <= 90 {
        (c + 32) as u8
    } else {
        c
    }
}

/// The uppercase form of an ASCII letter byte.
pub open spec fn spec_upper(c: u8) -> u8 {
    if 97 <= c <= 122 {
        (c - 32) as u8
    } else {
        c
    }
}

/// The lowercase form of an ASCII letter byte.
fn lower_byte(c: u8) -> (r: u8)
    ensures
        r == spec_lower(c),
{
    if 65 <= c && c <= 90 {
        c + 32
    } else {
        c
    }
}

/// The uppercase form of an ASCII letter byte.
fn upper_byte(c: u8) -> (r: u8)
    ensures
        r == spec_upper(c),
{
    if 97 <= c && c <= 122 {
        c - 32
    } else {
        c
    }
}


/// A single hyphen glyph: any of the accepted hyphen code points.
pub open spec fn g_single_hyphen() -> GParser {
    g_choice(
        seq![
            GParser::ExactUtf8("\u{2010}"@),
            GParser::ExactUtf8("\u{2014}"@),
            GParser::ExactUtf8("\u{002D}"@),
        ],
    )
}

fn single_hyphen() -> (r: Parser)
    ensures
        r@ == g_single_hyphen(),
{
    let members = vec![exact_utf8("\u{2010}"), exact_utf8("\u{2014}"), exact_utf8("\u{002D}")];
    proof {
        assert(views_of(members@) =~= seq![
            GParser::ExactUtf8("\u{2010}"@),
            GParser::ExactUtf8("\u{2014}"@),
            GParser::ExactUtf8("\u{002D}"@),
        ]);
    }
    choice(members)
}

/// Forbids two hyphens in a row.
pub open spec fn g_deny_repeated_hyphen() -> GParser {
    g_deny(g_single_hyphen(), g_msg("Only one hyphen is allowed in a row."@))
}

fn deny_repeated_hyphen() -> (r: Parser)
    ensures
        r@ == g_deny_repeated_hyphen(),
{
    deny(single_hyphen(), ErrorBuilder::message("Only one hyphen is allowed in a row."))
}

/// Any run of line breaks.
pub open spec fn g_new_lines() -> GParser {
    GParser::OneOf(seq![10u8, 13u8]).repeated(0, None).discard()
}

/// Parses any run of line breaks, possibly empty.
pub fn new_lines() -> (r: Parser)
    ensures
        r@ == g_new_lines(),
{
    let set = [10u8, 13u8];
    proof {
        assert(set@ =~= seq![10u8, 13u8]);
    }
    one_of(set).repeated(..).discard()
}

/// One hyphen, not doubled, absorbing following line breaks.
pub open spec fn g_hyphen() -> GParser {
    g_single_hyphen().then_peek(g_deny_repeated_hyphen()).and_then(g_new_lines()).discard()
}

fn hyphen() -> (r: Parser)
    ensures
        r@ == g_hyphen(),
{
    single_hyphen().then_peek(deny_repeated_hyphen()).and_then(new_lines()).discard()
}

/// An optional hyphen.
pub open spec fn g_hyphen_opt() -> GParser {
    g_hyphen().opt().discard()
}

/// Parses an optional hyphen: at most one hyphen glyph, absorbing
/// following line breaks.
pub fn hyphen_opt() -> (r: Parser)
    ensures
        r@ == g_hyphen_opt(),
{
    hyphen().opt().discard()
}


/// The path to the first component of a nested pair's first component.
fn path_ff() -> (r: Vec<Side>)
    ensures
        r@ == seq![Side::Fst, Side::Fst],
{
    let mut v: Vec<Side> = Vec::new();
    v.push(Side::Fst);
    v.push(Side::Fst);
    proof {
        assert(v@ =~= seq![Side::Fst, Side::Fst]);
    }
    v
}

/// The path to a pair's second component.
fn path_snd() -> (r: Vec<Side>)
    ensures
        r@ == seq![Side::Snd],
{
    let mut v: Vec<Side> = Vec::new();
    v.push(Side::Snd);
    proof {
        assert(v@ =~= seq![Side::Snd]);
    }
    v
}

/// The path to a pair's first component.
fn path_fst() -> (r: Vec<Side>)
    ensures
        r@ == seq![Side::Fst],
{
    let mut v: Vec<Side> = Vec::new();
    v.push(Side::Fst);
    proof {
        assert(v@ =~= seq![Side::Fst]);
    }
    v
}

/// The path to a value's trailing letter.
fn path_last() -> (r: Vec<Side>)
    ensures
        r@ == seq![Side::Last],
{
    let mut v: Vec<Side> = Vec::new();
    v.push(Side::Last);
    proof {
        assert(v@ =~= seq![Side::Last]);
    }
    v
}

/// Forbids the same letter on both sides of a hyphen.
pub open spec fn g_deny_letter_repeat(p0: u8, p1: u8) -> GParser {
    g_deny(
        g_hyphen_opt().and_then(GParser::OneOf(seq![p0, p1])),
        g_msg("The same letter cannot appear both before and after an hyphen."@),
    )
}

fn deny_letter_repeat_after_pattern(pattern: [u8; 2]) -> (r: Parser)
    ensures
        r@ == g_deny_letter_repeat(pattern@[0], pattern@[1]),
{
    proof {
        assert(pattern@ =~= seq![pattern@[0], pattern@[1]]);
    }
    deny(
        hyphen_opt().and_then(one_of(pattern)),
        ErrorBuilder::message("The same letter cannot appear both before and after an hyphen."),
    )
}

/// One letter of the grammar: a run of the letter in either case,
/// yielding the lowercase letter, not repeated across a hyphen.
pub open spec fn g_letter_choice(c: u8) -> GParser {
    GParser::OneOf(seq![spec_lower(c), spec_upper(c)]).repeated(1, None).then_peek(
        g_deny_letter_repeat(spec_lower(c), spec_upper(c)),
    ).mapped(Transform::ConstChar(c as char))
}

fn letter_choice(c: u8) -> (r: Parser)
    ensures
        r@ == g_letter_choice(c),
{
    let pattern = [lower_byte(c), upper_byte(c)];
    proof {
        assert(pattern@ =~= seq![spec_lower(c), spec_upper(c)]);
    }
    one_of(pattern).repeated(1..).then_peek(deny_letter_repeat_after_pattern(pattern)).map(
        Transform::ConstChar(c as char),
    )
}

/// A letter among `choices`, with repetition and case folding.
pub open spec fn g_raw_letter(choices: Seq<u8>) -> GParser {
    g_choice(Seq::new(choices.len(), |i: int| g_letter_choice(choices[i])))
}

/// Parses one letter among `choices`: the letter may repeat, in either
/// case, and yields its canonical lowercase form; the same letter may
/// not continue after a hyphen.
pub fn raw_letter(choices: &[u8]) -> (r: Parser)
    ensures
        r@ == g_raw_letter(choices@),
{
    let mut members: Vec<Parser> = Vec::new();
    let mut idx: usize = 0;
    while idx < choices.len()
        invariant
            idx <= choices@.len(),
            members@.len() == idx,
            forall|k: int| 0 <= k < idx ==> #[trigger] members@[k]@ == g_letter_choice(
                choices@[k],
            ),
        decreases choices@.len() - idx,
    {
        members.push(letter_choice(choices[idx]));
        idx = idx + 1;
    }
    let r = choice(members);
    proof {
        assert(views_of(members@) =~= Seq::new(
            choices@.len(),
            |i: int| g_letter_choice(choices@[i]),
        ));
    }
    r
}

/// The vowels.
pub open spec fn g_vowel() -> GParser {
    g_raw_letter(seq![105u8, 101u8, 97u8, 111u8, 117u8])
}

/// Parses one vowel.
pub fn vowel() -> (r: Parser)
    ensures
        r@ == g_vowel(),
{
    let set = [105u8, 101u8, 97u8, 111u8, 117u8];
    proof {
        assert(set@ =~= seq![105u8, 101u8, 97u8, 111u8, 117u8]);
    }
    raw_letter(set.as_slice())
}

/// The voiced consonants.
pub open spec fn g_voiced() -> GParser {
    g_raw_letter(seq![98u8, 100u8, 103u8, 118u8, 122u8, 106u8])
}

/// Parses one voiced consonant.
pub fn voiced() -> (r: Parser)
    ensures
        r@ == g_voiced(),
{
    let set = [98u8, 100u8, 103u8, 118u8, 122u8, 106u8];
    proof {
        assert(set@ =~= seq![98u8, 100u8, 103u8, 118u8, 122u8, 106u8]);
    }
    raw_letter(set.as_slice())
}

/// The unvoiced consonants.
pub open spec fn g_unvoiced() -> GParser {
    g_raw_letter(seq![112u8, 116u8, 107u8, 102u8, 115u8, 99u8])
}

/// Parses one unvoiced consonant.
pub fn unvoiced() -> (r: Parser)
    ensures
        r@ == g_unvoiced(),
{
    let set = [112u8, 116u8, 107u8, 102u8, 115u8, 99u8];
    proof {
        assert(set@ =~= seq![112u8, 116u8, 107u8, 102u8, 115u8, 99u8]);
    }
    raw_letter(set.as_slice())
}

/// The sibilants.
pub open spec fn g_sibilant() -> GParser {
    g_raw_letter(seq![115u8, 122u8, 99u8, 106u8])
}

/// Parses one sibilant.
pub fn sibilant() -> (r: Parser)
    ensures
        r@ == g_sibilant(),
{
    let set = [115u8, 122u8, 99u8, 106u8];
    proof {
        assert(set@ =~= seq![115u8, 122u8, 99u8, 106u8]);
    }
    raw_letter(set.as_slice())
}

/// The plosives.
pub open spec fn g_plosive() -> GParser {
    g_raw_letter(seq![116u8, 100u8, 107u8, 103u8, 112u8, 98u8])
}

/// Parses one plosive.
pub fn plosive() -> (r: Parser)
    ensures
        r@ == g_plosive(),
{
    let set = [116u8, 100u8, 107u8, 103u8, 112u8, 98u8];
    proof {
        assert(set@ =~= seq![116u8, 100u8, 107u8, 103u8, 112u8, 98u8]);
    }
    raw_letter(set.as_slice())
}

/// The sonorants.
pub open spec fn g_sonorant() -> GParser {
    g_raw_letter(seq![110u8, 114u8, 108u8])
}

/// Parses one sonorant.
pub fn sonorant() -> (r: Parser)
    ensures
        r@ == g_sonorant(),
{
    let set = [110u8, 114u8, 108u8];
    proof {
        assert(set@ =~= seq![110u8, 114u8, 108u8]);
    }
    raw_letter(set.as_slice())
}

/// The liquids.
pub open spec fn g_liquid() -> GParser {
    g_raw_letter(seq![108u8, 114u8])
}

/// Parses one liquid.
pub fn liquid() -> (r: Parser)
    ensures
        r@ == g_liquid(),
{
    let set = [108u8, 114u8];
    proof {
        assert(set@ =~= seq![108u8, 114u8]);
    }
    raw_letter(set.as_slice())
}

/// All consonants, without pairing checks.
pub open spec fn g_raw_consonant() -> GParser {
    g_raw_letter(
        seq![
            110u8, 114u8, 108u8, 109u8, 112u8, 98u8, 102u8, 118u8, 116u8, 100u8, 115u8, 122u8, 99u8, 106u8,
            103u8, 107u8,
        ],
    )
}

fn raw_consonant() -> (r: Parser)
    ensures
        r@ == g_raw_consonant(),
{
    let set = [
        110u8, 114u8, 108u8, 109u8, 112u8, 98u8, 102u8, 118u8, 116u8, 100u8, 115u8, 122u8, 99u8, 106u8, 103u8,
        107u8,
    ];
    proof {
        assert(set@ =~= seq![
            110u8, 114u8, 108u8, 109u8, 112u8, 98u8, 102u8, 118u8, 116u8, 100u8, 115u8, 122u8, 99u8, 106u8,
            103u8, 107u8,
        ]);
    }
    raw_letter(set.as_slice())
}

/// Two letter classes, a possible hyphen between them.
pub open spec fn g_pair_hyphen_opt(a: GParser, b: GParser) -> GParser {
    a.and_then(g_hyphen_opt()).and_then(b)
}

fn pair_hyphen_opt(first: Parser, second: Parser) -> (r: Parser)
    ensures
        r@ == g_pair_hyphen_opt(first@, second@),
{
    first.and_then(hyphen_opt()).and_then(second)
}

/// Forbids the consonant pairings that no word shape allows as an
/// `other` pair.
pub open spec fn g_deny_other_forbidden() -> GParser {
    g_deny(
        g_choice(
            seq![
                g_pair_hyphen_opt(g_raw_letter(seq![112u8, 98u8]), g_raw_letter(seq![110u8])),
                g_pair_hyphen_opt(g_raw_letter(seq![116u8, 100u8]), g_raw_letter(seq![110u8, 108u8])),
                g_pair_hyphen_opt(g_raw_letter(seq![110u8]), g_liquid()),
            ],
        ),
        g_msg(""@).matched_part(seq![Side::Fst, Side::Fst]).lit(
            " cannot be followed by "@,
        ).matched_part(seq![Side::Snd]).lit(" in an initial pair."@),
    )
}

fn deny_other_forbidden_patterns() -> (r: Parser)
    ensures
        r@ == g_deny_other_forbidden(),
{
    let pb = [112u8, 98u8];
    let n1 = [110u8];
    let td = [116u8, 100u8];
    let nl = [110u8, 108u8];
    proof {
        assert(pb@ =~= seq![112u8, 98u8]);
        assert(n1@ =~= seq![110u8]);
        assert(td@ =~= seq![116u8, 100u8]);
        assert(nl@ =~= seq![110u8, 108u8]);
    }
    let members = vec![
        pair_hyphen_opt(raw_letter(pb.as_slice()), raw_letter(n1.as_slice())),
        pair_hyphen_opt(raw_letter(td.as_slice()), raw_letter(nl.as_slice())),
        pair_hyphen_opt(raw_letter(n1.as_slice()), liquid()),
    ];
    let ghost gm = seq![
        g_pair_hyphen_opt(g_raw_letter(seq![112u8, 98u8]), g_raw_letter(seq![110u8])),
        g_pair_hyphen_opt(g_raw_letter(seq![116u8, 100u8]), g_raw_letter(seq![110u8, 108u8])),
        g_pair_hyphen_opt(g_raw_letter(seq![110u8]), g_liquid()),
    ];
    proof {
        assert(views_of(members@) =~= gm);
    }
    deny(
        choice(members),
        ErrorBuilder::message("").matched_part(path_ff()).lit(
            " cannot be followed by ",
        ).matched_part(path_snd()).lit(" in an initial pair."),
    )
}

/// The `other` consonant group, with its forbidden pairings checked
/// ahead.
pub open spec fn g_other() -> GParser {
    GParser::Nil.then_peek(g_deny_other_forbidden()).and_then(
        g_raw_letter(seq![112u8, 98u8, 116u8, 100u8, 118u8, 102u8, 107u8, 103u8, 109u8, 110u8]),
    ).mapped(Transform::Snd)
}

/// Parses one consonant of the `other` group.
pub fn other() -> (r: Parser)
    ensures
        r@ == g_other(),
{
    let set = [112u8, 98u8, 116u8, 100u8, 118u8, 102u8, 107u8, 103u8, 109u8, 110u8];
    proof {
        assert(set@ =~= seq![112u8, 98u8, 116u8, 100u8, 118u8, 102u8, 107u8, 103u8, 109u8, 110u8]);
    }
    nil().then_peek(deny_other_forbidden_patterns()).and_then(raw_letter(set.as_slice())).map(
        Transform::Snd,
    )
}

/// The letter h, not followed by a hyphen.
pub open spec fn g_letter_h() -> GParser {
    g_raw_letter(seq![104u8]).then_peek(
        g_deny(
            GParser::OneOf(seq![45u8]),
            g_msg("An hyphen cannot appear after an 'h', and should appear before instead."@),
        ),
    )
}

/// Parses the letter h; a following hyphen is a reported error.
pub fn letter_h() -> (r: Parser)
    ensures
        r@ == g_letter_h(),
{
    let h = [104u8];
    let dash = [45u8];
    proof {
        assert(h@ =~= seq![104u8]);
        assert(dash@ =~= seq![45u8]);
    }
    raw_letter(h.as_slice()).then_peek(
        deny(
            one_of(dash),
            ErrorBuilder::message(
                "An hyphen cannot appear after an 'h', and should appear before instead.",
            ),
        ),
    )
}

/// A consonant, after checking the pairings that are never allowed:
/// sibilant before sibilant, voiced before unvoiced, unvoiced before
/// voiced.
pub open spec fn g_consonant() -> GParser {
    GParser::Nil.then_peek(
        g_choice(
            seq![
                g_pair_hyphen_opt(g_sibilant(), g_sibilant()).then_error(
                    g_msg("A sibilant ("@).matched_part(seq![Side::Fst, Side::Fst]).lit(
                        ") cannot be followed by another sibilant ("@,
                    ).matched_part(seq![Side::Snd]).lit(")."@),
                ),
                g_pair_hyphen_opt(g_voiced(), g_unvoiced()).then_error(
                    g_msg("A voiced consonant ("@).matched_part(seq![Side::Fst, Side::Fst]).lit(
                        ") cannot be followed by an unvoiced one ("@,
                    ).matched_part(seq![Side::Snd]).lit(")."@),
                ),
                g_pair_hyphen_opt(g_unvoiced(), g_voiced()).then_error(
                    g_msg("An unvoiced consonant ("@).matched_part(seq![Side::Fst, Side::Fst]).lit(
                        ") cannot be followed by an voiced one ("@,
                    ).matched_part(seq![Side::Snd]).lit(")."@),
                ),
                GParser::Nil,
            ],
        ),
    ).and_then(g_raw_consonant()).mapped(Transform::Snd)
}

/// Parses one consonant with the morphology checks.
#[verifier::rlimit(100)]
pub fn consonant() -> (r: Parser)
    ensures
        r@ == g_consonant(),
{
    let members = vec![
        pair_hyphen_opt(sibilant(), sibilant()).then_error(
            ErrorBuilder::message("A sibilant (").matched_part(path_ff()).lit(
                ") cannot be followed by another sibilant (",
            ).matched_part(path_snd()).lit(")."),
        ),
        pair_hyphen_opt(voiced(), unvoiced()).then_error(
            ErrorBuilder::message("A voiced consonant (").matched_part(
                path_ff(),
            ).lit(") cannot be followed by an unvoiced one (").matched_part(path_snd()).lit(
                ").",
            ),
        ),
        pair_hyphen_opt(unvoiced(), voiced()).then_error(
            ErrorBuilder::message("An unvoiced consonant (").matched_part(
                path_ff(),
            ).lit(") cannot be followed by an voiced one (").matched_part(path_snd()).lit(
                ").",
            ),
        ),
        nil(),
    ];
    proof {
        assert(views_of(members@) =~= g_consonant_members());
    }
    nil().then_peek(choice(members)).and_then(raw_consonant()).map(Transform::Snd)
}

/// The checked pairings of [`g_consonant`].
pub open spec fn g_consonant_members() -> Seq<GParser> {
    seq![
        g_pair_hyphen_opt(g_sibilant(), g_sibilant()).then_error(
            g_msg("A sibilant ("@).matched_part(seq![Side::Fst, Side::Fst]).lit(
                ") cannot be followed by another sibilant ("@,
            ).matched_part(seq![Side::Snd]).lit(")."@),
        ),
        g_pair_hyphen_opt(g_voiced(), g_unvoiced()).then_error(
            g_msg("A voiced consonant ("@).matched_part(seq![Side::Fst, Side::Fst]).lit(
                ") cannot be followed by an unvoiced one ("@,
            ).matched_part(seq![Side::Snd]).lit(")."@),
        ),
        g_pair_hyphen_opt(g_unvoiced(), g_voiced()).then_error(
            g_msg("An unvoiced consonant ("@).matched_part(seq![Side::Fst, Side::Fst]).lit(
                ") cannot be followed by an voiced one ("@,
            ).matched_part(seq![Side::Snd]).lit(")."@),
        ),
        GParser::Nil,
    ]
}

/// A consonant that may open a word: not a sonorant.
pub open spec fn g_initial_consonant() -> GParser {
    GParser::Nil.then_peek(
        g_sonorant().then_error(g_msg("A word cannot start with a sonorant."@)).opt(),
    ).and_then(g_consonant()).mapped(Transform::Snd)
}

/// Parses a consonant that may open a word; an opening sonorant is a
/// reported error.
pub fn initial_consonant() -> (r: Parser)
    ensures
        r@ == g_initial_consonant(),
{
    nil().then_peek(
        sonorant().then_error(ErrorBuilder::message("A word cannot start with a sonorant.")).opt(),
    ).and_then(consonant()).map(Transform::Snd)
}

/// The valid shapes of an initial consonant pair.
pub open spec fn g_initial_pair_members() -> Seq<GParser> {
    seq![
        g_plosive().or(g_raw_letter(seq![102u8, 118u8])).and_then(g_sibilant()).discard(),
        g_sibilant().and_then(g_other().or(g_sonorant())).discard(),
        g_other().and_then(g_sonorant()).discard(),
        g_medial_pair().then_error(
            g_msg("Expected an initial consonant pair but found '"@).matched_part(
                Seq::<Side>::empty(),
            ).lit("' which is a medial consonant pair."@),
        ),
    ]
}

/// An initial consonant pair: two consonants that may open a word
/// together.
pub open spec fn g_initial_pair() -> GParser {
    GParser::Nil.then_peek(g_choice(g_initial_pair_members())).and_then(g_consonant()).mapped(
        Transform::Snd,
    ).and_then(g_consonant()).then_peek_with(
        g_raw_consonant().then_error(
            g_msg("'"@).env_part(Seq::<Side>::empty()).lit(
                "' is a valid initial pair, but it must not be followed by another consonant."@,
            ),
        ).opt(),
    ).then_peek_with(
        GParser::OneOf(seq![45u8]).then_error(
            g_msg("'"@).env_part(Seq::<Side>::empty()).lit(
                "' is a valid initial pair, but it cannot be followed by an hyphen (only a vowel)."@,
            ),
        ).opt(),
    )
}

/// Parses an initial consonant pair; a following consonant or hyphen
/// is a reported error.
#[verifier::rlimit(100)]
pub fn initial_pair() -> (r: Parser)
    ensures
        r@ == g_initial_pair(),
{
    let fv = [102u8, 118u8];
    let dash = [45u8];
    proof {
        assert(fv@ =~= seq![102u8, 118u8]);
        assert(dash@ =~= seq![45u8]);
    }
    let members = vec![
        plosive().or(raw_letter(fv.as_slice())).and_then(sibilant()).discard(),
        sibilant().and_then(other().or(sonorant())).discard(),
        other().and_then(sonorant()).discard(),
        medial_pair().then_error(
            ErrorBuilder::message("Expected an initial consonant pair but found '").matched_part(
                Vec::new(),
            ).lit("' which is a medial consonant pair."),
        ),
    ];
    proof {
        assert(views_of(members@) =~= g_initial_pair_members());
    }
    nil().then_peek(choice(members)).and_then(consonant()).map(Transform::Snd).and_then(
        consonant(),
    ).then_peek_with(
        raw_consonant().then_error(
            ErrorBuilder::message("'").env_part(Vec::new()).lit(
                "' is a valid initial pair, but it must not be followed by another consonant.",
            ),
        ).opt(),
    ).then_peek_with(
        one_of(dash).then_error(
            ErrorBuilder::message("'").env_part(Vec::new()).lit(
                "' is a valid initial pair, but it cannot be followed by an hyphen (only a vowel).",
            ),
        ).opt(),
    )
}

/// The valid shapes of a medial consonant pair.
pub open spec fn g_medial_pair_members() -> Seq<GParser> {
    seq![
        g_liquid().and_then(g_hyphen_opt()).and_then(g_raw_letter(seq![110u8])).discard(),
        g_raw_letter(seq![110u8]).and_then(g_hyphen_opt()).and_then(g_liquid()).discard(),
        g_raw_letter(seq![102u8, 118u8]).and_then(g_hyphen_opt()).and_then(
            g_raw_letter(seq![109u8]).or(g_plosive()),
        ).discard(),
        g_plosive().and_then(g_hyphen_opt()).and_then(
            g_raw_letter(seq![102u8, 118u8, 109u8]).or(g_plosive()),
        ).discard(),
    ]
}

/// A medial consonant pair: two consonants that may continue a word,
/// with a possible hyphen between them.
pub open spec fn g_medial_pair() -> GParser {
    GParser::Nil.then_peek(g_choice(g_medial_pair_members())).and_then(g_consonant()).mapped(
        Transform::Snd,
    ).and_then(g_hyphen_opt()).mapped(Transform::Fst).and_then(g_consonant())
}

/// Parses a medial consonant pair.
#[verifier::rlimit(100)]
pub fn medial_pair() -> (r: Parser)
    ensures
        r@ == g_medial_pair(),
{
    let n1 = [110u8];
    let fv = [102u8, 118u8];
    let m1 = [109u8];
    let fvm = [102u8, 118u8, 109u8];
    proof {
        assert(n1@ =~= seq![110u8]);
        assert(fv@ =~= seq![102u8, 118u8]);
        assert(m1@ =~= seq![109u8]);
        assert(fvm@ =~= seq![102u8, 118u8, 109u8]);
    }
    let members = vec![
        liquid().and_then(hyphen_opt()).and_then(raw_letter(n1.as_slice())).discard(),
        raw_letter(n1.as_slice()).and_then(hyphen_opt()).and_then(liquid()).discard(),
        raw_letter(fv.as_slice()).and_then(hyphen_opt()).and_then(
            raw_letter(m1.as_slice()).or(plosive()),
        ).discard(),
        plosive().and_then(hyphen_opt()).and_then(
            raw_letter(fvm.as_slice()).or(plosive()),
        ).discard(),
    ];
    proof {
        assert(views_of(members@) =~= g_medial_pair_members());
    }
    nil().then_peek(choice(members)).and_then(consonant()).map(Transform::Snd).and_then(
        hyphen_opt(),
    ).map(Transform::Fst).and_then(consonant())
}

/// A triplet of consonants: a medial pair not ending in a sonorant,
/// then an initial pair, all to be followed by a vowel.
pub open spec fn g_consonant_triplet() -> GParser {
    GParser::Nil.then_peek(
        g_choice(
            seq![
                GParser::Nil.then_peek(g_medial_pair()).then_peek(g_not(g_sonorant())).and_then(
                    g_consonant(),
                ).and_then(g_hyphen_opt()).and_then(g_initial_pair()),
            ],
        ),
    ).and_then(g_consonant()).and_then(g_consonant()).and_then(g_consonant()).spanned()
        .then_peek_with(
        g_not(g_vowel()).then_error(
            g_msg("'"@).span_from_env(seq![Side::Fst]).env_part(seq![Side::Snd]).lit(
                "' is a valid triplet, but it should be followed by a vowel."@,
            ),
        ),
    ).mapped(Transform::Snd)
}

/// Parses a consonant triplet; one not followed by a vowel is a
/// reported error.
#[verifier::rlimit(100)]
pub fn consonant_triplet() -> (r: Parser)
    ensures
        r@ == g_consonant_triplet(),
{
    let members = vec![
        nil().then_peek(medial_pair()).then_peek(not(sonorant())).and_then(consonant()).and_then(
            hyphen_opt(),
        ).and_then(initial_pair()),
    ];
    proof {
        assert(views_of(members@) =~= seq![
            GParser::Nil.then_peek(g_medial_pair()).then_peek(g_not(g_sonorant())).and_then(
                g_consonant(),
            ).and_then(g_hyphen_opt()).and_then(g_initial_pair()),
        ]);
    }
    nil().then_peek(choice(members)).and_then(consonant()).and_then(consonant()).and_then(
        consonant(),
    ).spanned().then_peek_with(
        not(vowel()).then_error(
            ErrorBuilder::message("'").span_from_env(path_fst()).env_part(
                path_snd(),
            ).lit("' is a valid triplet, but it should be followed by a vowel."),
        ),
    ).map(Transform::Snd)
}

/// A vowel cluster: a vowel, then any number of further vowels, each
/// allowed a hyphen and an h before it.
pub open spec fn g_hieaou() -> GParser {
    g_vowel().and_then(
        g_hyphen_opt().and_then(g_letter_h().opt()).and_then(g_vowel()).mapped(
            Transform::Render,
        ).repeated(0, None),
    ).mapped(Transform::Render)
}

/// Parses a vowel cluster, yielding its normalized spelling.
pub fn hieaou() -> (r: Parser)
    ensures
        r@ == g_hieaou(),
{
    vowel().and_then(
        hyphen_opt().and_then(letter_h().opt()).and_then(vowel()).map(Transform::Render).repeated(
            ..,
        ),
    ).map(Transform::Render)
}

/// A pause glyph.
pub open spec fn g_pause() -> GParser {
    g_choice(
        seq![
            GParser::ExactUtf8("'"@),
            GParser::ExactUtf8("\u{2019}"@),
            GParser::ExactUtf8("`"@),
        ],
    ).discard()
}

/// Parses one pause glyph.
pub fn pause() -> (r: Parser)
    ensures
        r@ == g_pause(),
{
    let members = vec![exact_utf8("'"), exact_utf8("\u{2019}"), exact_utf8("`")];
    proof {
        assert(views_of(members@) =~= seq![
            GParser::ExactUtf8("'"@),
            GParser::ExactUtf8("\u{2019}"@),
            GParser::ExactUtf8("`"@),
        ]);
    }
    choice(members).discard()
}

/// A single pause, not doubled.
pub open spec fn g_single_pause() -> GParser {
    g_pause().then_peek(
        g_pause().then_error(
            g_msg("Only a single pause symbol can be used in a row."@).before(1),
        ).opt(),
    )
}

/// Parses a single pause; a doubled pause is a reported error.
pub fn single_pause() -> (r: Parser)
    ensures
        r@ == g_single_pause(),
{
    pause().then_peek(
        pause().then_error(
            ErrorBuilder::message("Only a single pause symbol can be used in a row.").before(1),
        ).opt(),
    )
}

/// A decimal digit, as its numeric value.
pub open spec fn g_digit() -> GParser {
    GParser::OneOf(
        seq![48u8, 49u8, 50u8, 51u8, 52u8, 53u8, 54u8, 55u8, 56u8, 57u8],
    ).mapped(Transform::DigitValue)
}

/// Parses one decimal digit, yielding its numeric value.
pub fn digit() -> (r: Parser)
    ensures
        r@ == g_digit(),
{
    let set = [48u8, 49u8, 50u8, 51u8, 52u8, 53u8, 54u8, 55u8, 56u8, 57u8];
    proof {
        assert(set@ =~= seq![48u8, 49u8, 50u8, 51u8, 52u8, 53u8, 54u8, 55u8, 56u8, 57u8]);
    }
    one_of(set).map(Transform::DigitValue)
}

/// Everything that is not a space: pauses, digits, hyphens, letters.
pub open spec fn g_non_space() -> GParser {
    g_choice(
        seq![
            g_pause(),
            g_digit().discard(),
            g_hyphen(),
            GParser::OneOf(lower_range()).discard(),
            GParser::OneOf(upper_range()).discard(),
        ],
    )
}

/// The lowercase ASCII letters.
pub open spec fn lower_range() -> Seq<u8> {
    Seq::new(26, |i: int| (97u8 + i) as u8)
}

/// The uppercase ASCII letters.
pub open spec fn upper_range() -> Seq<u8> {
    Seq::new(26, |i: int| (65u8 + i) as u8)
}

/// The byte range `from..=from + 25`.
fn letter_bytes(from: u8) -> (r: Vec<u8>)
    requires
        from + 26 <= 256,
    ensures
        r@ == Seq::new(26, |i: int| (from + i) as u8),
    decreases 0int,
{
    let mut v: Vec<u8> = Vec::new();
    let mut i: usize = 0;
    while i < 26
        invariant
            i <= 26,
            from + 26 <= 256,
            v@.len() == i,
            forall|k: int| 0 <= k < i ==> v@[k] == (from + k) as u8,
        decreases 26 - i,
    {
        v.push(from + (i as u8));
        i = i + 1;
    }
    proof {
        assert(v@ =~= Seq::new(26, |i: int| (from + i) as u8));
    }
    v
}

fn non_space() -> (r: Parser)
    ensures
        r@ == g_non_space(),
{
    let lows = letter_bytes(97u8);
    let ups = letter_bytes(65u8);
    let members = vec![
        pause(),
        digit().discard(),
        hyphen(),
        Parser::OneOf(lows).discard(),
        Parser::OneOf(ups).discard(),
    ];
    proof {
        assert(views_of(members@) =~= seq![
            g_pause(),
            g_digit().discard(),
            g_hyphen(),
            GParser::OneOf(lower_range()).discard(),
            GParser::OneOf(upper_range()).discard(),
        ]);
    }
    choice(members)
}

/// One space: any input item that opens no non-space token.
pub open spec fn g_space() -> GParser {
    GParser::Nil.then_peek(g_not(g_non_space())).and_then(GParser::Any).discard()
}

/// Parses one space: any byte at which no pause, digit, hyphen or
/// letter starts.
pub fn space() -> (r: Parser)
    ensures
        r@ == g_space(),
{
    nil().then_peek(not(non_space())).and_then(any()).discard()
}

/// A particle: an initial consonant and a vowel cluster, not followed
/// by a sonorant or a medial pair (which would make it a root).
pub open spec fn g_particle_form() -> GParser {
    g_initial_consonant().and_then(g_hieaou()).then_peek(
        g_not(g_choice(seq![g_sonorant().discard(), g_medial_pair().discard()])),
    ).mapped(Transform::Render)
}

/// Parses a particle, yielding its normalized spelling.
pub fn particle_form() -> (r: Parser)
    ensures
        r@ == g_particle_form(),
{
    let members = vec![sonorant().discard(), medial_pair().discard()];
    proof {
        assert(views_of(members@) =~= seq![g_sonorant().discard(), g_medial_pair().discard()]);
    }
    initial_consonant().and_then(hieaou()).then_peek(not(choice(members))).map(Transform::Render)
}

/// A root segment: a medial pair (to be followed by a vowel) or a
/// hyphenated sonorant, then a vowel cluster.
pub open spec fn g_root_segment() -> GParser {
    g_choice(
        seq![
            g_medial_pair().mapped(Transform::Render).then_peek(
                g_not(g_vowel()).then_error(
                    g_msg("Inside roots a medial pair must be followed by a vowel."@).after(1),
                ).opt(),
            ),
            g_hyphen_opt().and_then(g_sonorant()).mapped(Transform::Render),
        ],
    ).and_then(g_hieaou()).mapped(Transform::Render)
}

fn root_segment() -> (r: Parser)
    ensures
        r@ == g_root_segment(),
{
    let members = vec![
        medial_pair().map(Transform::Render).then_peek(
            not(vowel()).then_error(
                ErrorBuilder::message(
                    "Inside roots a medial pair must be followed by a vowel.",
                ).after(1),
            ).opt(),
        ),
        hyphen_opt().and_then(sonorant()).map(Transform::Render),
    ];
    proof {
        assert(views_of(members@) =~= seq![
            g_medial_pair().mapped(Transform::Render).then_peek(
                g_not(g_vowel()).then_error(
                    g_msg("Inside roots a medial pair must be followed by a vowel."@).after(1),
                ).opt(),
            ),
            g_hyphen_opt().and_then(g_sonorant()).mapped(Transform::Render),
        ]);
    }
    choice(members).and_then(hieaou()).map(Transform::Render)
}

/// An optional final sonorant, as text.
pub open spec fn g_sonorant_opt() -> GParser {
    g_sonorant().opt().mapped(Transform::Render)
}

fn sonorant_opt() -> (r: Parser)
    ensures
        r@ == g_sonorant_opt(),
{
    sonorant().opt().map(Transform::Render)
}

/// The error reported when a root runs into a trailing sonorant.
pub open spec fn g_root_sonorant_error() -> crate::parser::GErrorBuilder {
    g_msg("Found word '"@).env_part(Seq::<Side>::empty()).lit(
        "', which cannot be followed by a sonorant ("@,
    ).env_part(seq![Side::Last]).matched_part(Seq::<Side>::empty()).lit(
        " is not a medial pair)."@,
    ).before(1)
}

/// The shapes of a root.
pub open spec fn g_root_form_members() -> Seq<GParser> {
    seq![
        g_initial_consonant().and_then(g_hieaou()).and_then(
            g_root_segment().repeated(1, None),
        ).and_then(g_sonorant_opt()).mapped(Transform::Render),
        g_initial_consonant().and_then(g_hieaou()).and_then(g_sonorant()).mapped(
            Transform::Render,
        ),
        g_initial_pair().and_then(g_hieaou()).and_then(
            g_root_segment().repeated(0, None),
        ).and_then(g_sonorant_opt()).mapped(Transform::Render),
    ]
}

/// A root: an initial consonant or pair, a vowel cluster, then further
/// segments and an optional final sonorant; what follows must not be a
/// sonorant.
pub open spec fn g_root_form() -> GParser {
    g_choice(g_root_form_members()).then_peek_with(
        g_sonorant().then_error(g_root_sonorant_error()).opt(),
    )
}

/// Parses a root, yielding its normalized spelling; a trailing
/// sonorant that pairs with nothing is a reported error.
pub fn root_form() -> (r: Parser)
    ensures
        r@ == g_root_form(),
{
    let members = vec![
        initial_consonant().and_then(hieaou()).and_then(root_segment().repeated(1..)).and_then(
            sonorant_opt(),
        ).map(Transform::Render),
        initial_consonant().and_then(hieaou()).and_then(sonorant()).map(Transform::Render),
        initial_pair().and_then(hieaou()).and_then(root_segment().repeated(..)).and_then(
            sonorant_opt(),
        ).map(Transform::Render),
    ];
    proof {
        assert(views_of(members@) =~= g_root_form_members());
    }
    choice(members).then_peek_with(
        sonorant().then_error(
            ErrorBuilder::message("Found word '").env_part(Vec::new()).lit(
                "', which cannot be followed by a sonorant (",
            ).env_part(path_last()).matched_part(Vec::new()).lit(
                " is not a medial pair).",
            ).before(1),
        ).opt(),
    )
}

/// A pause that must introduce a vowel.
pub open spec fn g_pause_before_vowel() -> GParser {
    g_single_pause().then_peek(
        g_not(g_vowel()).then_error(
            g_msg("Expected a vowel after pause symbol"@).before(1),
        ),
    )
}

fn pause_before_vowel() -> (r: Parser)
    ensures
        r@ == g_pause_before_vowel(),
{
    single_pause().then_peek(
        not(vowel()).then_error(
            ErrorBuilder::message("Expected a vowel after pause symbol").before(1),
        ),
    )
}

/// A hesitation sound: the letter n on its own before a space.
pub open spec fn g_hesitation() -> GParser {
    g_raw_letter(seq![110u8]).then_peek(g_space())
}

fn hesitation() -> (r: Parser)
    ensures
        r@ == g_hesitation(),
{
    let n1 = [110u8];
    proof {
        assert(n1@ =~= seq![110u8]);
    }
    raw_letter(n1.as_slice()).then_peek(space())
}

/// What may separate words: spaces with hesitation sounds, a pause
/// introducing a vowel, or the end of the input.
pub open spec fn g_spaces() -> GParser {
    g_choice(
        seq![
            g_space().and_then(g_hesitation().opt()).repeated(1, None).and_then(
                g_pause_before_vowel().opt(),
            ).discard(),
            g_pause_before_vowel(),
            GParser::End,
        ],
    ).discard()
}

/// Parses the separation between words.
pub fn spaces() -> (r: Parser)
    ensures
        r@ == g_spaces(),
{
    let members = vec![
        space().and_then(hesitation().opt()).repeated(1..).and_then(
            pause_before_vowel().opt(),
        ).discard(),
        pause_before_vowel(),
        end(),
    ];
    proof {
        assert(views_of(members@) =~= seq![
            g_space().and_then(g_hesitation().opt()).repeated(1, None).and_then(
                g_pause_before_vowel().opt(),
            ).discard(),
            g_pause_before_vowel(),
            GParser::End,
        ]);
    }
    choice(members).discard()
}

/// What may legally follow a word once it stops: a pause before a
/// vowel, a non-sonorant consonant, or separation - but never a vowel,
/// which would mean the word was cut short.
pub open spec fn g_post_word_check() -> GParser {
    GParser::Nil.then_peek(
        g_choice(
            seq![
                g_vowel().then_error(
                    g_msg("Stopped parsing word then found a vowel (bug)"@),
                ).opt().discard(),
                g_pause_before_vowel(),
                GParser::Nil.then_peek(g_not(g_sonorant())).then_peek(g_consonant()),
                g_spaces(),
            ],
        ),
    )
}

/// Checks the boundary after a parsed word, consuming nothing.
pub fn post_word_check() -> (r: Parser)
    ensures
        r@ == g_post_word_check(),
{
    let members = vec![
        vowel().then_error(
            ErrorBuilder::message("Stopped parsing word then found a vowel (bug)"),
        ).opt().discard(),
        pause_before_vowel(),
        nil().then_peek(not(sonorant())).then_peek(consonant()),
        spaces(),
    ];
    proof {
        assert(views_of(members@) =~= seq![
            g_vowel().then_error(
                g_msg("Stopped parsing word then found a vowel (bug)"@),
            ).opt().discard(),
            g_pause_before_vowel(),
            GParser::Nil.then_peek(g_not(g_sonorant())).then_peek(g_consonant()),
            g_spaces(),
        ]);
    }
    nil().then_peek(choice(members))
}

} // verus!
