//! The laws of the combinator engine, proved once and for all over the
//! functional semantics: rollback on failure, left bias and error
//! short-circuiting of alternation, repetition bounds, and the
//! behaviour of the end-of-input parser.

use vstd::prelude::*;

use crate::parser::{g_choice, GParser, GValue};
use crate::semantics::{advance, rep_measure, spec_parse, spec_rep};
use crate::span::GError;

verus! {

/// The rollback law: a parse either matches, or leaves the cursor
/// exactly where it started - no combinator lets partial progress from
/// a failed or error-raising attempt escape. Either way the cursor
/// never leaves the input.
#[verifier::rlimit(100)]
pub proof fn lemma_rollback(
    p: GParser,
    rec: Option<GParser>,
    env: GValue,
    input: Seq<u8>,
    pos: int,
    fuel: nat,
)
    requires
        0 <= pos <= input.len(),
    ensures
        match spec_parse(p, rec, env, input, pos, fuel) {
            Some((r, c)) => pos <= c <= input.len() && (!(r matches Ok(Some(_))) ==> c == pos),
            None => true,
        },
    decreases fuel, input.len() - pos, p, 1int,
{
    let len = input.len() as int;
    match p {
        GParser::Then(a, b) => {
            lemma_rollback(*a, rec, env, input, pos, fuel);
            match spec_parse(*a, rec, env, input, pos, fuel) {
                Some((Ok(Some(_)), ca)) => {
                    lemma_rollback(*b, rec, env, input, advance(pos, ca, len), fuel);
                },
                _ => {},
            }
        },
        GParser::Or(a, b) => {
            lemma_rollback(*a, rec, env, input, pos, fuel);
            match spec_parse(*a, rec, env, input, pos, fuel) {
                Some((Ok(None), _)) => {
                    lemma_rollback(*b, rec, env, input, pos, fuel);
                },
                _ => {},
            }
        },
        GParser::Opt(a) => {
            lemma_rollback(*a, rec, env, input, pos, fuel);
        },
        GParser::Not(a) => {
            lemma_rollback(*a, rec, env, input, pos, fuel);
        },
        GParser::Repeated(a, min, cap) => {
            lemma_rollback_rep(*a, rec, env, input, pos, 0, min, cap, fuel);
        },
        GParser::Mapped(a, _) => {
            lemma_rollback(*a, rec, env, input, pos, fuel);
        },
        GParser::Spanned(a) => {
            lemma_rollback(*a, rec, env, input, pos, fuel);
        },
        GParser::ThenPeek(a, b) => {
            lemma_rollback(*a, rec, env, input, pos, fuel);
            match spec_parse(*a, rec, env, input, pos, fuel) {
                Some((Ok(Some(_)), ca)) => {
                    lemma_rollback(*b, rec, env, input, advance(pos, ca, len), fuel);
                },
                _ => {},
            }
        },
        GParser::ThenWith(a, b) => {
            lemma_rollback(*a, rec, env, input, pos, fuel);
            match spec_parse(*a, rec, env, input, pos, fuel) {
                Some((Ok(Some(va)), ca)) => {
                    lemma_rollback(*b, rec, va, input, advance(pos, ca, len), fuel);
                },
                _ => {},
            }
        },
        GParser::ThenPeekWith(a, b) => {
            lemma_rollback(*a, rec, env, input, pos, fuel);
            match spec_parse(*a, rec, env, input, pos, fuel) {
                Some((Ok(Some(va)), ca)) => {
                    lemma_rollback(*b, rec, va, input, advance(pos, ca, len), fuel);
                },
                _ => {},
            }
        },
        GParser::OrError(a, _) => {
            lemma_rollback(*a, rec, env, input, pos, fuel);
        },
        GParser::ThenError(a, _) => {
            lemma_rollback(*a, rec, env, input, pos, fuel);
        },
        GParser::DiscardError(a) => {
            lemma_rollback(*a, rec, env, input, pos, fuel);
        },
        GParser::SelfRef => {
            match rec {
                Some(def) => {
                    if fuel > 0 {
                        lemma_rollback(def, rec, env, input, pos, (fuel - 1) as nat);
                    }
                },
                None => {},
            }
        },
        GParser::Recursive(b) => {
            lemma_rollback(*b, Some(p), env, input, pos, fuel);
        },
        _ => {},
    }
}

/// The rollback law for the repetition loop: the loop only moves the
/// cursor forward within the input, and moves it at all only when the
/// repetition as a whole matches.
pub proof fn lemma_rollback_rep(
    a: GParser,
    rec: Option<GParser>,
    env: GValue,
    input: Seq<u8>,
    pos: int,
    i: nat,
    min: u32,
    cap: Option<u32>,
    fuel: nat,
)
    requires
        0 <= pos <= input.len(),
    ensures
        match spec_rep(a, rec, env, input, pos, i, min, cap, fuel) {
            Some((r, c)) => pos <= c <= input.len() && (!(r matches Ok(Some(_))) ==> c == pos),
            None => true,
        },
    decreases fuel, input.len() - pos, a, rep_measure(cap, i),
{
    if !(cap matches Some(c) && i >= c) {
        lemma_rollback(a, rec, env, input, pos, fuel);
        match spec_parse(a, rec, env, input, pos, fuel) {
            Some((Ok(Some(_)), c1)) => {
                if pos < c1 <= input.len() {
                    lemma_rollback_rep(a, rec, env, input, c1, i + 1, min, cap, fuel);
                } else if cap is Some {
                    lemma_rollback_rep(a, rec, env, input, pos, i + 1, min, cap, fuel);
                }
            },
            _ => {},
        }
    }
}

/// Left bias of alternation: where the first member of a `choice`
/// matches, the whole choice yields exactly that member's value and
/// consumption - order matters, and no later member is consulted.
pub proof fn lemma_choice_left_bias(
    members: Seq<GParser>,
    rec: Option<GParser>,
    env: GValue,
    input: Seq<u8>,
    pos: int,
    fuel: nat,
    v: GValue,
    c: int,
)
    requires
        members.len() > 0,
        spec_parse(members[0], rec, env, input, pos, fuel) == Some(
            (Ok::<Option<GValue>, GError>(Some(v)), c),
        ),
    ensures
        spec_parse(g_choice(members), rec, env, input, pos, fuel) == Some(
            (Ok::<Option<GValue>, GError>(Some(v)), c),
        ),
{
}

/// Error short-circuiting of alternation: where the first member of a
/// `choice` fails hard, the whole choice fails with that very error
/// and never falls through to later members.
pub proof fn lemma_choice_error_short_circuit(
    members: Seq<GParser>,
    rec: Option<GParser>,
    env: GValue,
    input: Seq<u8>,
    pos: int,
    fuel: nat,
    e: GError,
    c: int,
)
    requires
        members.len() > 0,
        spec_parse(members[0], rec, env, input, pos, fuel) == Some(
            (Err::<Option<GValue>, GError>(e), c),
        ),
    ensures
        spec_parse(g_choice(members), rec, env, input, pos, fuel) == Some(
            (Err::<Option<GValue>, GError>(e), pos),
        ),
{
}

/// The end-of-input parser: it matches with the unit value exactly at
/// the end of the input, does not match anywhere else, and never moves
/// the cursor.
pub proof fn lemma_end(
    rec: Option<GParser>,
    env: GValue,
    input: Seq<u8>,
    pos: int,
    fuel: nat,
)
    ensures
        pos >= input.len() ==> spec_parse(GParser::End, rec, env, input, pos, fuel) == Some(
            (Ok::<Option<GValue>, GError>(Some(GValue::Unit)), pos),
        ),
        pos < input.len() ==> spec_parse(GParser::End, rec, env, input, pos, fuel) == Some(
            (Ok::<Option<GValue>, GError>(None), pos),
        ),
{
}

/// Repetition bounds: a repetition that matches collected at least the
/// range's start many items, and no more than its cap.
pub proof fn lemma_repeated_bounds(
    a: GParser,
    rec: Option<GParser>,
    env: GValue,
    input: Seq<u8>,
    pos: int,
    min: u32,
    cap: Option<u32>,
    fuel: nat,
    items: Seq<GValue>,
    c: int,
)
    requires
        cap matches Some(cc) ==> min <= cc,
        spec_parse(GParser::Repeated(Box::new(a), min, cap), rec, env, input, pos, fuel) == Some(
            (Ok::<Option<GValue>, GError>(Some(GValue::List(items))), c),
        ),
    ensures
        min <= items.len(),
        cap matches Some(cc) ==> items.len() <= cc,
{
    lemma_rep_count(a, rec, env, input, pos, 0, min, cap, fuel);
}

/// Counting the repetition loop: from iteration `i` on, a matching
/// loop contributes at least `min - i` and at most `cap - i` items.
#[verifier::rlimit(100)]
pub proof fn lemma_rep_count(
    a: GParser,
    rec: Option<GParser>,
    env: GValue,
    input: Seq<u8>,
    pos: int,
    i: nat,
    min: u32,
    cap: Option<u32>,
    fuel: nat,
)
    requires
        cap matches Some(cc) ==> min <= cc,
    ensures
        match spec_rep(a, rec, env, input, pos, i, min, cap, fuel) {
            Some((Ok(Some(tail)), _)) => i + tail.len() >= min && (match cap {
                Some(cc) => i <= cc ==> i + tail.len() <= cc,
                None => true,
            }),
            _ => true,
        },
    decreases fuel, input.len() - pos, a, rep_measure(cap, i),
{
    let r0 = spec_rep(a, rec, env, input, pos, i, min, cap, fuel);
    if cap matches Some(c) && i >= c {
        assert(r0 == Some((Ok::<Option<Seq<GValue>>, GError>(Some(Seq::<GValue>::empty())), pos)));
        assert(Seq::<GValue>::empty().len() == 0);
    } else {
        match spec_parse(a, rec, env, input, pos, fuel) {
            Some((Ok(Some(v)), c1)) => {
                if pos < c1 <= input.len() {
                    lemma_rep_count(a, rec, env, input, c1, i + 1, min, cap, fuel);
                    match spec_rep(a, rec, env, input, c1, i + 1, min, cap, fuel) {
                        Some((Ok(Some(tail2)), _)) => {
                            assert((seq![v] + tail2).len() == 1 + tail2.len());
                        },
                        _ => {},
                    }
                } else if cap is Some {
                    lemma_rep_count(a, rec, env, input, pos, i + 1, min, cap, fuel);
                    match spec_rep(a, rec, env, input, pos, i + 1, min, cap, fuel) {
                        Some((Ok(Some(tail2)), _)) => {
                            assert((seq![v] + tail2).len() == 1 + tail2.len());
                        },
                        _ => {},
                    }
                } else {
                    assert(seq![v].len() == 1);
                }
            },
            _ => {},
        }
    }
}

/// Determinism: the outcome of a parse is a mathematical function of
/// the parser, the input and the position alone, so two runs of the
/// same parser over two streams in the same state yield identical
/// results and identical final positions. (The executable `parse` is
/// proved to return exactly `spec_parse` of its arguments, which makes
/// this congruence the whole law.)
pub proof fn lemma_parse_deterministic(
    p1: GParser,
    p2: GParser,
    rec: Option<GParser>,
    env: GValue,
    input1: Seq<u8>,
    input2: Seq<u8>,
    pos1: int,
    pos2: int,
    fuel: nat,
)
    requires
        p1 == p2,
        input1 == input2,
        pos1 == pos2,
    ensures
        spec_parse(p1, rec, env, input1, pos1, fuel) == spec_parse(p2, rec, env, input2, pos2, fuel),
{
}

/// Fuel irrelevance: a parser without recursive handles never runs out
/// of recursion allowance - its outcome is always definite, whatever
/// the allowance.
pub proof fn lemma_fuel_free(
    p: GParser,
    rec: Option<GParser>,
    env: GValue,
    input: Seq<u8>,
    pos: int,
    fuel: nat,
)
    requires
        !p.uses_self_ref(),
        0 <= pos <= input.len(),
    ensures
        spec_parse(p, rec, env, input, pos, fuel) is Some,
    decreases fuel, input.len() - pos, p, 1int,
{
    let len = input.len() as int;
    match p {
        GParser::Then(a, b) => {
            lemma_fuel_free(*a, rec, env, input, pos, fuel);
            lemma_rollback(*a, rec, env, input, pos, fuel);
            match spec_parse(*a, rec, env, input, pos, fuel) {
                Some((Ok(Some(_)), ca)) => {
                    lemma_fuel_free(*b, rec, env, input, advance(pos, ca, len), fuel);
                },
                _ => {},
            }
        },
        GParser::Or(a, b) => {
            lemma_fuel_free(*a, rec, env, input, pos, fuel);
            match spec_parse(*a, rec, env, input, pos, fuel) {
                Some((Ok(None), _)) => {
                    lemma_fuel_free(*b, rec, env, input, pos, fuel);
                },
                _ => {},
            }
        },
        GParser::Opt(a) => {
            lemma_fuel_free(*a, rec, env, input, pos, fuel);
        },
        GParser::Not(a) => {
            lemma_fuel_free(*a, rec, env, input, pos, fuel);
        },
        GParser::Repeated(a, min, cap) => {
            lemma_fuel_free_rep(*a, rec, env, input, pos, 0, min, cap, fuel);
        },
        GParser::Mapped(a, _) => {
            lemma_fuel_free(*a, rec, env, input, pos, fuel);
        },
        GParser::Spanned(a) => {
            lemma_fuel_free(*a, rec, env, input, pos, fuel);
        },
        GParser::ThenPeek(a, b) => {
            lemma_fuel_free(*a, rec, env, input, pos, fuel);
            lemma_rollback(*a, rec, env, input, pos, fuel);
            match spec_parse(*a, rec, env, input, pos, fuel) {
                Some((Ok(Some(_)), ca)) => {
                    lemma_fuel_free(*b, rec, env, input, advance(pos, ca, len), fuel);
                },
                _ => {},
            }
        },
        GParser::ThenWith(a, b) => {
            lemma_fuel_free(*a, rec, env, input, pos, fuel);
            lemma_rollback(*a, rec, env, input, pos, fuel);
            match spec_parse(*a, rec, env, input, pos, fuel) {
                Some((Ok(Some(va)), ca)) => {
                    lemma_fuel_free(*b, rec, va, input, advance(pos, ca, len), fuel);
                },
                _ => {},
            }
        },
        GParser::ThenPeekWith(a, b) => {
            lemma_fuel_free(*a, rec, env, input, pos, fuel);
            lemma_rollback(*a, rec, env, input, pos, fuel);
            match spec_parse(*a, rec, env, input, pos, fuel) {
                Some((Ok(Some(va)), ca)) => {
                    lemma_fuel_free(*b, rec, va, input, advance(pos, ca, len), fuel);
                },
                _ => {},
            }
        },
        GParser::OrError(a, _) => {
            lemma_fuel_free(*a, rec, env, input, pos, fuel);
        },
        GParser::ThenError(a, _) => {
            lemma_fuel_free(*a, rec, env, input, pos, fuel);
        },
        GParser::DiscardError(a) => {
            lemma_fuel_free(*a, rec, env, input, pos, fuel);
        },
        GParser::Recursive(b) => {
            lemma_fuel_free(*b, Some(p), env, input, pos, fuel);
        },
        _ => {},
    }
}

/// Fuel irrelevance for the repetition loop.
pub proof fn lemma_fuel_free_rep(
    a: GParser,
    rec: Option<GParser>,
    env: GValue,
    input: Seq<u8>,
    pos: int,
    i: nat,
    min: u32,
    cap: Option<u32>,
    fuel: nat,
)
    requires
        !a.uses_self_ref(),
        0 <= pos <= input.len(),
    ensures
        spec_rep(a, rec, env, input, pos, i, min, cap, fuel) is Some,
    decreases fuel, input.len() - pos, a, rep_measure(cap, i),
{
    if !(cap matches Some(c) && i >= c) {
        lemma_fuel_free(a, rec, env, input, pos, fuel);
        match spec_parse(a, rec, env, input, pos, fuel) {
            Some((Ok(Some(_)), c1)) => {
                if pos < c1 <= input.len() {
                    lemma_fuel_free_rep(a, rec, env, input, c1, i + 1, min, cap, fuel);
                } else if cap is Some {
                    lemma_fuel_free_rep(a, rec, env, input, pos, i + 1, min, cap, fuel);
                }
            },
            _ => {},
        }
    }
}

} // verus!
