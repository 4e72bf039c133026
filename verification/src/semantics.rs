//! The functional semantics of parsing, and the verified interpreter.
//!
//! [`spec_parse`] fixes, for every parser and every input, the tri-state
//! outcome and the new cursor position, as a mathematical function; the
//! executable [`Parser::parse`] is proved to return exactly that. Every
//! combinator law of the library is a theorem about `spec_parse`.

use vstd::prelude::*;
use vstd::string::StringExecFns;

use crate::parser::{
    view_value, GErrorBuilder, GPiece, GParser, GSpanSource, GValue, ParseResult, Parser, Piece,
    Side, SpanSource, Transform, Value, ErrorBuilder,
};
use crate::span::{Error, GError, Span};
use crate::stream::IterStream;

verus! {

broadcast use vstd::seq::axiom_seq_index_decreases, vstd::std_specs::vec::axiom_vec_index_decreases;

/// `start.. end` as a span value (positions are cursor offsets, so they
/// fit in `usize` whenever they lie within an input).
pub open spec fn mk_span(start: int, end: int) -> Span {
    Span { start: start as usize, end: end as usize }
}

/// The text a value spells: letters and texts in order, everything
/// else silent.
pub open spec fn render(v: GValue) -> Seq<char>
    decreases v, 0int,
{
    match v {
        GValue::Unit => Seq::empty(),
        GValue::Byte(b) => seq![b as char],
        GValue::Char(c) => seq![c],
        GValue::Text(s) => s,
        GValue::Pair(a, b) => render(*a) + render(*b),
        GValue::List(l) => render_list(l),
        GValue::Maybe(o) => match o {
            Some(x) => render(*x),
            None => Seq::empty(),
        },
        GValue::SpanVal(_) => Seq::empty(),
    }
}

/// The concatenated texts of a list of values.
pub open spec fn render_list(l: Seq<GValue>) -> Seq<char>
    decreases l, 1int,
{
    if l.len() == 0 {
        Seq::empty()
    } else {
        render(l[0]) + render_list(l.drop_first())
    }
}

/// One selection step into a structured value; steps that do not fit
/// the value's shape select nothing.
pub open spec fn select_step(v: GValue, s: Side) -> GValue {
    match s {
        Side::Fst => match v {
            GValue::Pair(a, _) => *a,
            _ => GValue::Unit,
        },
        Side::Snd => match v {
            GValue::Pair(_, b) => *b,
            _ => GValue::Unit,
        },
        Side::Inner => match v {
            GValue::Maybe(Some(x)) => *x,
            _ => GValue::Unit,
        },
        Side::Last => {
            let t = render(v);
            if t.len() == 0 {
                GValue::Text(Seq::empty())
            } else {
                GValue::Text(seq![t.last()])
            }
        },
    }
}

/// The part of a value a path points at.
pub open spec fn select(v: GValue, path: Seq<Side>) -> GValue
    decreases path.len(),
{
    if path.len() == 0 {
        v
    } else {
        select(select_step(v, path[0]), path.drop_first())
    }
}

/// Subtraction clamped at zero.
pub open spec fn sat_sub(a: int, b: int) -> int {
    if a >= b {
        a - b
    } else {
        0
    }
}

/// Addition clamped at the largest cursor position.
pub open spec fn sat_add(a: int, b: int) -> int {
    if a + b <= usize::MAX {
        a + b
    } else {
        usize::MAX as int
    }
}

/// The message text of an error: its pieces in order.
pub open spec fn pieces_text(pieces: Seq<GPiece>, matched: GValue, env: GValue) -> Seq<char>
    decreases pieces.len(),
{
    if pieces.len() == 0 {
        Seq::empty()
    } else {
        let head = match pieces[0] {
            GPiece::Lit(s) => s,
            GPiece::Matched(path) => render(select(matched, path)),
            GPiece::Env(path) => render(select(env, path)),
        };
        head + pieces_text(pieces.drop_first(), matched, env)
    }
}

/// The error an [`ErrorBuilder`] produces from the span of the
/// offending parse, the matched value, and the enclosing sequence's
/// output.
pub open spec fn g_build_error(
    eb: GErrorBuilder,
    here: Span,
    matched: GValue,
    env: GValue,
) -> GError {
    let base = match eb.source {
        GSpanSource::Here => here,
        GSpanSource::FromEnv(path) => match select(env, path) {
            GValue::SpanVal(sp) => sp,
            _ => here,
        },
    };
    let span = Span {
        start: sat_sub(base.start as int, eb.before) as usize,
        end: sat_add(base.end as int, eb.after) as usize,
    };
    GError { span, text: pieces_text(eb.pieces, matched, env) }
}

/// What a transformation makes of a matched value; a transformation
/// applied to a value of the wrong shape yields the unit value.
pub open spec fn apply_transform(t: Transform, v: GValue) -> GValue {
    match t {
        Transform::ToUnit => GValue::Unit,
        Transform::Fst => match v {
            GValue::Pair(a, _) => *a,
            _ => GValue::Unit,
        },
        Transform::Snd => match v {
            GValue::Pair(_, b) => *b,
            _ => GValue::Unit,
        },
        Transform::ConstChar(c) => GValue::Char(c),
        Transform::Render => GValue::Text(render(v)),
        Transform::DigitValue => match v {
            GValue::Byte(b) => GValue::Byte(if b >= 48 { (b - 48) as u8 } else { 0 }),
            _ => GValue::Unit,
        },
    }
}

/// The continuation position after a sub-parse: its cursor where that
/// lies between the present position and the end of the input, which
/// it always does (`lemma_rollback`); the clamp only keeps the
/// semantics total.
pub open spec fn advance(pos: int, next: int, len: int) -> int {
    if pos < next <= len {
        next
    } else {
        pos
    }
}

/// The measure that bounds a repetition step: bounded repetitions may
/// accept matches that consume nothing until the cap is reached.
pub open spec fn rep_measure(cap: Option<u32>, i: nat) -> int {
    match cap {
        Some(c) => 2 + sat_sub(c as int, i as int),
        None => 2,
    }
}

/// The outcome of running parser `p` on `input` at position `pos`:
/// `None` when the recursion allowance `fuel` is exhausted, otherwise
/// the tri-state result and the new cursor position.
///
/// `rec` is the innermost enclosing recursive definition (what the
/// `SelfRef` handle re-enters), `env` the output of the enclosing
/// `ThenWith`/`ThenPeekWith` first component (what error builders may
/// cite). Fuel is spent only when a `SelfRef` handle unfolds, so the
/// outcome of a parser without handles does not depend on it.
pub open spec fn spec_parse(
    p: GParser,
    rec: Option<GParser>,
    env: GValue,
    input: Seq<u8>,
    pos: int,
    fuel: nat,
) -> Option<(Result<Option<GValue>, GError>, int)>
    decreases fuel, input.len() - pos, p, 1int,
{
    match p {
        GParser::Any => Some(
            if pos < input.len() {
                (Ok(Some(GValue::Byte(input[pos]))), pos + 1)
            } else {
                (Ok(None), pos)
            },
        ),
        GParser::Nil => Some((Ok(Some(GValue::Unit)), pos)),
        GParser::End => Some(
            if pos < input.len() {
                (Ok(None), pos)
            } else {
                (Ok(Some(GValue::Unit)), pos)
            },
        ),
        GParser::OneOf(set) => Some(
            if pos < input.len() && set.contains(input[pos]) {
                (Ok(Some(GValue::Byte(input[pos]))), pos + 1)
            } else {
                (Ok(None), pos)
            },
        ),
        GParser::ExactUtf8(s) => {
            let bytes = vstd::utf8::encode_utf8(s);
            Some(
                if pos + bytes.len() <= input.len() && input.subrange(
                    pos,
                    pos + bytes.len(),
                ) == bytes {
                    (Ok(Some(GValue::Text(s))), pos + bytes.len())
                } else {
                    (Ok(None), pos)
                },
            )
        },
        GParser::Then(a, b) => match spec_parse(*a, rec, env, input, pos, fuel) {
            None => None,
            Some((Err(e), _)) => Some((Err(e), pos)),
            Some((Ok(None), _)) => Some((Ok(None), pos)),
            Some((Ok(Some(va)), ca)) => {
                match spec_parse(*b, rec, env, input, advance(pos, ca, input.len() as int), fuel) {
                    None => None,
                    Some((Err(e), _)) => Some((Err(e), pos)),
                    Some((Ok(None), _)) => Some((Ok(None), pos)),
                    Some((Ok(Some(vb)), cb)) => Some(
                        (Ok(Some(GValue::Pair(Box::new(va), Box::new(vb)))), cb),
                    ),
                }
            },
        },
        GParser::Or(a, b) => match spec_parse(*a, rec, env, input, pos, fuel) {
            None => None,
            Some((Err(e), _)) => Some((Err(e), pos)),
            Some((Ok(Some(va)), ca)) => Some((Ok(Some(va)), ca)),
            Some((Ok(None), _)) => spec_parse(*b, rec, env, input, pos, fuel),
        },
        GParser::Opt(a) => match spec_parse(*a, rec, env, input, pos, fuel) {
            None => None,
            Some((Err(e), _)) => Some((Err(e), pos)),
            Some((Ok(Some(va)), ca)) => Some((Ok(Some(GValue::Maybe(Some(Box::new(va))))), ca)),
            Some((Ok(None), _)) => Some((Ok(Some(GValue::Maybe(None))), pos)),
        },
        GParser::Not(a) => match spec_parse(*a, rec, env, input, pos, fuel) {
            None => None,
            Some((Err(e), _)) => Some((Err(e), pos)),
            Some((Ok(Some(_)), _)) => Some((Ok(None), pos)),
            Some((Ok(None), _)) => Some((Ok(Some(GValue::Unit)), pos)),
        },
        GParser::Repeated(a, min, cap) => {
            match spec_rep(*a, rec, env, input, pos, 0, min, cap, fuel) {
                None => None,
                Some((Err(e), _)) => Some((Err(e), pos)),
                Some((Ok(None), _)) => Some((Ok(None), pos)),
                Some((Ok(Some(items)), c)) => Some((Ok(Some(GValue::List(items))), c)),
            }
        },
        GParser::Mapped(a, t) => match spec_parse(*a, rec, env, input, pos, fuel) {
            None => None,
            Some((Err(e), _)) => Some((Err(e), pos)),
            Some((Ok(None), _)) => Some((Ok(None), pos)),
            Some((Ok(Some(va)), ca)) => Some((Ok(Some(apply_transform(t, va))), ca)),
        },
        GParser::Spanned(a) => match spec_parse(*a, rec, env, input, pos, fuel) {
            None => None,
            Some((Err(e), _)) => Some((Err(e), pos)),
            Some((Ok(None), _)) => Some((Ok(None), pos)),
            Some((Ok(Some(va)), ca)) => Some(
                (
                    Ok(
                        Some(
                            GValue::Pair(
                                Box::new(GValue::SpanVal(mk_span(pos, advance(pos, ca, input.len() as int)))),
                                Box::new(va),
                            ),
                        ),
                    ),
                    ca,
                ),
            ),
        },
        GParser::ThenPeek(a, b) => match spec_parse(*a, rec, env, input, pos, fuel) {
            None => None,
            Some((Err(e), _)) => Some((Err(e), pos)),
            Some((Ok(None), _)) => Some((Ok(None), pos)),
            Some((Ok(Some(va)), ca)) => {
                let ca2 = advance(pos, ca, input.len() as int);
                match spec_parse(*b, rec, env, input, ca2, fuel) {
                    None => None,
                    Some((Err(e), _)) => Some((Err(e), pos)),
                    Some((Ok(None), _)) => Some((Ok(None), pos)),
                    Some((Ok(Some(_)), _)) => Some((Ok(Some(va)), ca)),
                }
            },
        },
        GParser::ThenWith(a, b) => match spec_parse(*a, rec, env, input, pos, fuel) {
            None => None,
            Some((Err(e), _)) => Some((Err(e), pos)),
            Some((Ok(None), _)) => Some((Ok(None), pos)),
            Some((Ok(Some(va)), ca)) => {
                match spec_parse(*b, rec, va, input, advance(pos, ca, input.len() as int), fuel) {
                    None => None,
                    Some((Err(e), _)) => Some((Err(e), pos)),
                    Some((Ok(None), _)) => Some((Ok(None), pos)),
                    Some((Ok(Some(vb)), cb)) => Some(
                        (Ok(Some(GValue::Pair(Box::new(va), Box::new(vb)))), cb),
                    ),
                }
            },
        },
        GParser::ThenPeekWith(a, b) => match spec_parse(*a, rec, env, input, pos, fuel) {
            None => None,
            Some((Err(e), _)) => Some((Err(e), pos)),
            Some((Ok(None), _)) => Some((Ok(None), pos)),
            Some((Ok(Some(va)), ca)) => {
                let ca2 = advance(pos, ca, input.len() as int);
                match spec_parse(*b, rec, va, input, ca2, fuel) {
                    None => None,
                    Some((Err(e), _)) => Some((Err(e), pos)),
                    Some((Ok(None), _)) => Some((Ok(None), pos)),
                    Some((Ok(Some(_)), _)) => Some((Ok(Some(va)), ca)),
                }
            },
        },
        GParser::OrError(a, eb) => match spec_parse(*a, rec, env, input, pos, fuel) {
            None => None,
            Some((Err(e), _)) => Some((Err(e), pos)),
            Some((Ok(Some(va)), ca)) => Some((Ok(Some(va)), ca)),
            Some((Ok(None), _)) => Some(
                (Err(g_build_error(eb, mk_span(pos, pos), GValue::Unit, env)), pos),
            ),
        },
        GParser::ThenError(a, eb) => match spec_parse(*a, rec, env, input, pos, fuel) {
            None => None,
            Some((Err(e), _)) => Some((Err(e), pos)),
            Some((Ok(None), _)) => Some((Ok(None), pos)),
            Some((Ok(Some(va)), ca)) => {
                let ca2 = advance(pos, ca, input.len() as int);
                Some((Err(g_build_error(eb, mk_span(pos, ca2), va, env)), pos))
            },
        },
        GParser::DiscardError(a) => match spec_parse(*a, rec, env, input, pos, fuel) {
            None => None,
            Some((Err(_), _)) => Some((Ok(None), pos)),
            Some((Ok(Some(va)), ca)) => Some((Ok(Some(va)), ca)),
            Some((Ok(None), _)) => Some((Ok(None), pos)),
        },
        GParser::SelfRef => match rec {
            None => Some((Ok(None), pos)),
            Some(def) => {
                if fuel == 0 {
                    None
                } else {
                    spec_parse(def, rec, env, input, pos, (fuel - 1) as nat)
                }
            },
        },
        GParser::Recursive(b) => spec_parse(*b, Some(p), env, input, pos, fuel),
    }
}

/// The outcome of the repetition loop of `Repeated(a, min, cap)` from
/// iteration `i` on: the items still to be collected and the final
/// cursor, `Ok(None)` where the loop ends before `min` items, an error
/// where an attempt fails hard, `None` where fuel runs out.
///
/// An attempt that matches without consuming input is collected, but
/// an unbounded repetition then stops rather than repeat it forever.
pub open spec fn spec_rep(
    a: GParser,
    rec: Option<GParser>,
    env: GValue,
    input: Seq<u8>,
    pos: int,
    i: nat,
    min: u32,
    cap: Option<u32>,
    fuel: nat,
) -> Option<(Result<Option<Seq<GValue>>, GError>, int)>
    decreases fuel, input.len() - pos, a, rep_measure(cap, i),
{
    if cap matches Some(c) && i >= c {
        Some((Ok(Some(Seq::empty())), pos))
    } else {
        match spec_parse(a, rec, env, input, pos, fuel) {
            None => None,
            Some((Err(e), _)) => Some((Err(e), pos)),
            Some((Ok(None), _)) => {
                if i >= min {
                    Some((Ok(Some(Seq::empty())), pos))
                } else {
                    Some((Ok(None), pos))
                }
            },
            Some((Ok(Some(v)), c1)) => {
                if pos < c1 <= input.len() {
                    match spec_rep(a, rec, env, input, c1, i + 1, min, cap, fuel) {
                        None => None,
                        Some((Err(e), _)) => Some((Err(e), pos)),
                        Some((Ok(None), _)) => Some((Ok(None), pos)),
                        Some((Ok(Some(tail)), c2)) => Some((Ok(Some(seq![v] + tail)), c2)),
                    }
                } else if cap is Some {
                    match spec_rep(a, rec, env, input, pos, i + 1, min, cap, fuel) {
                        None => None,
                        Some((Err(e), _)) => Some((Err(e), pos)),
                        Some((Ok(None), _)) => Some((Ok(None), pos)),
                        Some((Ok(Some(tail)), c2)) => Some((Ok(Some(seq![v] + tail)), c2)),
                    }
                } else {
                    if i + 1 >= min {
                        Some((Ok(Some(seq![v])), pos))
                    } else {
                        Some((Ok(None), pos))
                    }
                }
            },
        }
    }
}

/// Relies on `String::push`: appends the one character to the string.
#[verifier::external_body]
pub(crate) fn push_char(s: &mut String, c: char)
    ensures
        final(s)@ == old(s)@.push(c),
{
    s.push(c);
}

/// Builds the text a value spells.
fn render_val(v: &Value) -> (out: String)
    ensures
        out@ == render(v@),
    decreases *v,
{
    match v {
        Value::Unit => String::new(),
        Value::Byte(b) => {
            let mut s = String::new();
            push_char(&mut s, *b as char);
            proof {
                assert(s@ =~= seq![*b as char]);
            }
            s
        },
        Value::Char(c) => {
            let mut s = String::new();
            push_char(&mut s, *c);
            proof {
                assert(s@ =~= seq![*c]);
            }
            s
        },
        Value::Text(t) => t.clone(),
        Value::Pair(a, b) => {
            let mut s = render_val(a);
            let sb = render_val(b);
            s.append(sb.as_str());
            s
        },
        Value::List(l) => {
            let ghost lv = v@->List_0;
            let mut s = String::new();
            let mut i: usize = 0;
            proof {
                assert(lv =~= Seq::new(l@.len(), |k: int| l@[k]@));
                assert(lv.skip(0) =~= lv);
            }
            while i < l.len()
                invariant
                    *v == Value::List(*l),
                    i <= l@.len(),
                    lv == Seq::new(l@.len(), |k: int| l@[k]@),
                    s@ + render_list(lv.skip(i as int)) == render_list(lv),
                decreases l@.len() - i,
            {
                proof {
                    assert(*l == v->List_0);
                    assert(decreases_to!(*v => v->List_0));
                    assert(decreases_to!(v->List_0 => v->List_0@));
                    assert(decreases_to!(v->List_0@ => v->List_0@[i as int]));
                    assert(decreases_to!(*v => l@[i as int]));
                }
                let piece = render_val(&l[i]);
                proof {
                    assert(lv[i as int] == l@[i as int]@);
                    assert(lv.skip(i as int)[0] == lv[i as int]);
                    assert(lv.skip(i as int).drop_first() =~= lv.skip(i as int + 1));
                    assert(render_list(lv.skip(i as int)) == render(lv[i as int]) + render_list(
                        lv.skip(i as int + 1),
                    ));
                }
                s.append(piece.as_str());
                i = i + 1;
            }
            proof {
                assert(lv.skip(lv.len() as int).len() == 0);
                assert(s@ =~= render_list(lv));
                assert(render(v@) == render_list(lv));
            }
            s
        },
        Value::Maybe(o) => match o {
            Some(x) => render_val(x),
            None => String::new(),
        },
        Value::SpanVal(_) => String::new(),
    }
}

/// Builds the text spelled by the part of `v` that the tail of `path`
/// from position `i` on points at.
fn select_render(v: &Value, path: &Vec<Side>, i: usize) -> (out: String)
    requires
        i <= path@.len(),
    ensures
        out@ == render(select(v@, path@.skip(i as int))),
    decreases path@.len() - i,
{
    if i == path.len() {
        proof {
            assert(path@.skip(i as int).len() == 0);
        }
        render_val(v)
    } else {
        let ghost rest = path@.skip(i as int);
        proof {
            assert(rest[0] == path@[i as int]);
            assert(rest.drop_first() =~= path@.skip(i as int + 1));
        }
        match (&path[i], v) {
            (Side::Fst, Value::Pair(a, _)) => select_render(a, path, i + 1),
            (Side::Snd, Value::Pair(_, b)) => select_render(b, path, i + 1),
            (Side::Inner, Value::Maybe(Some(x))) => select_render(x, path, i + 1),
            (Side::Last, _) => {
                let t = render_val(v);
                let n = t.as_str().unicode_len();
                let last = if n == 0 {
                    String::new()
                } else {
                    let c = t.as_str().get_char(n - 1);
                    let mut s = String::new();
                    push_char(&mut s, c);
                    proof {
                        assert(s@ =~= seq![render(v@).last()]);
                    }
                    s
                };
                select_render(&Value::Text(last), path, i + 1)
            },
            _ => {
                let u = Value::Unit;
                select_render(&u, path, i + 1)
            },
        }
    }
}

/// The span, if any, that a path points at inside a structured value.
fn select_span(v: &Value, path: &Vec<Side>, i: usize) -> (out: Option<Span>)
    requires
        i <= path@.len(),
    ensures
        match select(v@, path@.skip(i as int)) {
            GValue::SpanVal(sp) => out == Some(sp),
            _ => out is None,
        },
    decreases path@.len() - i,
{
    if i == path.len() {
        proof {
            assert(path@.skip(i as int).len() == 0);
        }
        match v {
            Value::SpanVal(sp) => Some(*sp),
            _ => None,
        }
    } else {
        let ghost rest = path@.skip(i as int);
        proof {
            assert(rest[0] == path@[i as int]);
            assert(rest.drop_first() =~= path@.skip(i as int + 1));
        }
        match (&path[i], v) {
            (Side::Fst, Value::Pair(a, _)) => select_span(a, path, i + 1),
            (Side::Snd, Value::Pair(_, b)) => select_span(b, path, i + 1),
            (Side::Inner, Value::Maybe(Some(x))) => select_span(x, path, i + 1),
            (Side::Last, _) => {
                let t = render_val(v);
                let n = t.as_str().unicode_len();
                let last = if n == 0 {
                    String::new()
                } else {
                    let c = t.as_str().get_char(n - 1);
                    let mut s = String::new();
                    push_char(&mut s, c);
                    proof {
                        assert(s@ =~= seq![render(v@).last()]);
                    }
                    s
                };
                select_span(&Value::Text(last), path, i + 1)
            },
            _ => {
                let u = Value::Unit;
                select_span(&u, path, i + 1)
            },
        }
    }
}

/// Builds the error an [`ErrorBuilder`] describes, from the span of the
/// offending parse, the matched value, and the enclosing sequence's
/// output.
fn build_error(eb: &ErrorBuilder, here: Span, matched: &Value, env: &Value) -> (e: Error)
    ensures
        e@ == g_build_error(eb@, here, matched@, env@),
{
    let base = match &eb.source {
        SpanSource::Here => here,
        SpanSource::FromEnv(path) => {
            proof {
                assert(path@.skip(0) =~= path@);
            }
            match select_span(env, path, 0) {
                Some(sp) => sp,
                None => here,
            }
        },
    };
    let start = if base.start >= eb.before {
        base.start - eb.before
    } else {
        0
    };
    let end = if base.end <= usize::MAX - eb.after {
        base.end + eb.after
    } else {
        usize::MAX
    };
    let ghost pviews = eb@.pieces;
    let mut text = String::new();
    let mut i: usize = 0;
    proof {
        assert(pviews.skip(0) =~= pviews);
    }
    while i < eb.pieces.len()
        invariant
            i <= eb.pieces@.len(),
            pviews == eb@.pieces,
            pviews.len() == eb.pieces@.len(),
            forall|k: int| 0 <= k < pviews.len() ==> pviews[k] == eb.pieces@[k]@,
            text@ + pieces_text(pviews.skip(i as int), matched@, env@) == pieces_text(
                pviews,
                matched@,
                env@,
            ),
        decreases eb.pieces@.len() - i,
    {
        proof {
            assert(pviews.skip(i as int)[0] == pviews[i as int]);
            assert(pviews.skip(i as int).drop_first() =~= pviews.skip(i as int + 1));
        }
        let piece = &eb.pieces[i];
        match piece {
            Piece::Lit(s) => {
                text.append(s.as_str());
            },
            Piece::Matched(path) => {
                proof {
                    assert(path@.skip(0) =~= path@);
                }
                let part = select_render(matched, path, 0);
                text.append(part.as_str());
            },
            Piece::Env(path) => {
                proof {
                    assert(path@.skip(0) =~= path@);
                }
                let part = select_render(env, path, 0);
                text.append(part.as_str());
            },
        }
        i = i + 1;
    }
    proof {
        assert(pviews.skip(pviews.len() as int).len() == 0);
        assert(text@ =~= pieces_text(pviews, matched@, env@));
    }
    Error { span: Span { start, end }, text }
}

/// What a transformation makes of a matched value.
fn apply_t(t: &Transform, v: Value) -> (out: Value)
    ensures
        out@ == apply_transform(*t, v@),
{
    match t {
        Transform::ToUnit => Value::Unit,
        Transform::Fst => match v {
            Value::Pair(a, _) => *a,
            _ => Value::Unit,
        },
        Transform::Snd => match v {
            Value::Pair(_, b) => *b,
            _ => Value::Unit,
        },
        Transform::ConstChar(c) => Value::Char(*c),
        Transform::Render => Value::Text(render_val(&v)),
        Transform::DigitValue => match v {
            Value::Byte(b) => Value::Byte(
                if b >= 48 {
                    b - 48
                } else {
                    0
                },
            ),
            _ => Value::Unit,
        },
    }
}

/// Whether a byte is among the given ones.
fn contains_byte(set: &Vec<u8>, b: u8) -> (r: bool)
    ensures
        r == set@.contains(b),
{
    let mut i: usize = 0;
    while i < set.len()
        invariant
            i <= set@.len(),
            forall|k: int| 0 <= k < i ==> set@[k] != b,
        decreases set@.len() - i,
    {
        if set[i] == b {
            return true;
        }
        i = i + 1;
    }
    false
}

/// The innermost enclosing recursive definition, seen mathematically.
pub open spec fn rec_view<'a>(rec: Option<&'a Parser>) -> Option<GParser> {
    match rec {
        Some(r) => Some(r@),
        None => None,
    }
}

/// A parse outcome, seen mathematically.
pub open spec fn res_view(r: ParseResult<Value, Error>) -> Result<Option<GValue>, GError> {
    match r {
        Ok(Some(v)) => Ok(Some(v@)),
        Ok(None) => Ok(None),
        Err(e) => Err(e@),
    }
}

/// The views of a list of parsed values.
pub open spec fn list_view(s: Seq<Value>) -> Seq<GValue> {
    Seq::new(s.len(), |i: int| s[i]@)
}

/// A list value's view is the list of its elements' views.
pub proof fn lemma_list_view(l: Vec<Value>)
    ensures
        view_value(Value::List(l)) == GValue::List(list_view(l@)),
{
    let g = view_value(Value::List(l));
    assert(g->List_0 =~= list_view(l@));
}

/// One accepted attempt extends the repetition: what the loop still
/// owes from iteration `i` is the accepted value followed by what it
/// owes from the next iteration.
proof fn lemma_rep_step(
    a: GParser,
    rec: Option<GParser>,
    env: GValue,
    input: Seq<u8>,
    pos: int,
    i: nat,
    min: u32,
    cap: Option<u32>,
    fuel: nat,
    v: GValue,
    c1: int,
)
    requires
        spec_parse(a, rec, env, input, pos, fuel) == Some(
            (Ok::<Option<GValue>, GError>(Some(v)), c1),
        ),
        (pos < c1 <= input.len()) || cap is Some,
        cap matches Some(c) ==> i < c,
    ensures
        spec_rep(a, rec, env, input, pos, i, min, cap, fuel) == (match spec_rep(
            a,
            rec,
            env,
            input,
            if pos < c1 <= input.len() {
                c1
            } else {
                pos
            },
            i + 1,
            min,
            cap,
            fuel,
        ) {
            None => None,
            Some((Err(e), _)) => Some((Err::<Option<Seq<GValue>>, GError>(e), pos)),
            Some((Ok(None), _)) => Some((Ok::<Option<Seq<GValue>>, GError>(None), pos)),
            Some((Ok(Some(tail)), c2)) => Some(
                (Ok::<Option<Seq<GValue>>, GError>(Some(seq![v] + tail)), c2),
            ),
        }),
{
}

/// Runs the repetition loop of `Repeated(a, min, cap)`.
#[verifier::loop_isolation(false)]
fn parse_rep(
    a: &Parser,
    rec: Option<&Parser>,
    env: &Value,
    stream: &mut IterStream,
    min: u32,
    cap: Option<u32>,
    fuel: u128,
) -> (r: ParseResult<Value, Error>)
    requires
        old(stream).wf(),
    ensures
        final(stream).wf(),
        final(stream).input() == old(stream).input(),
        final(stream).start_spec() == old(stream).start_spec(),
        old(stream).cursor_spec() <= final(stream).cursor_spec() <= final(stream).input().len(),
        !(r matches Ok(Some(_))) ==> final(stream).cursor_spec() == old(stream).cursor_spec(),
        match spec_rep(
            a@,
            rec_view(rec),
            env@,
            old(stream).input(),
            old(stream).cursor_spec(),
            0,
            min,
            cap,
            fuel as nat,
        ) {
            Some((Err(e), _)) => r matches Err(e2) && e2@ == e && final(stream).cursor_spec() == old(
                stream,
            ).cursor_spec(),
            Some((Ok(None), _)) => r is Ok && r->Ok_0 is None && final(stream).cursor_spec() == old(
                stream,
            ).cursor_spec(),
            Some((Ok(Some(items)), c)) => r matches Ok(Some(v)) && v@ == GValue::List(items)
                && final(stream).cursor_spec() == c,
            None => true,
        },
    decreases fuel, *a, 2int,
{
    let ghost ga = a@;
    let ghost grec = rec_view(rec);
    let ghost genv = env@;
    let ghost ginput = old(stream).input();
    let ghost pos0 = old(stream).cursor_spec();
    let ghost gfuel = fuel as nat;
    let pos0x = stream.cursor();
    let mut acc: Vec<Value> = Vec::new();
    let mut i: u128 = 0;
    proof {
        assert(list_view(acc@).len() == 0);
    }
    loop
        invariant
            stream.wf(),
            stream.input() == ginput,
            stream.start_spec() == old(stream).start_spec(),
            pos0 == pos0x as int,
            pos0 <= stream.cursor_spec() <= ginput.len(),
            cap matches Some(c) ==> i <= c,
            cap is None ==> i <= stream.cursor_spec() - pos0,
            ({
                let now = spec_rep(
                    ga,
                    grec,
                    genv,
                    ginput,
                    stream.cursor_spec(),
                    i as nat,
                    min,
                    cap,
                    gfuel,
                );
                let whole = spec_rep(ga, grec, genv, ginput, pos0, 0, min, cap, gfuel);
                whole is None || (match now {
                    None => whole is None,
                    Some((Err(e), _)) => whole == Some(
                        (Err::<Option<Seq<GValue>>, GError>(e), pos0),
                    ),
                    Some((Ok(None), _)) => whole == Some(
                        (Ok::<Option<Seq<GValue>>, GError>(None), pos0),
                    ),
                    Some((Ok(Some(tail)), c2)) => whole == Some(
                        (Ok::<Option<Seq<GValue>>, GError>(Some(list_view(acc@) + tail)), c2),
                    ),
                })
            }),
        decreases ginput.len() - stream.cursor_spec(), rep_measure(cap, i as nat),
    {
        let ghost i0 = i as nat;
        let ghost cur0 = stream.cursor_spec();
        let ghost now0 = spec_rep(ga, grec, genv, ginput, cur0, i0, min, cap, gfuel);
        if let Some(c) = cap {
            if i >= c as u128 {
                proof {
                    lemma_list_view(acc);
                    assert(list_view(acc@) + Seq::<GValue>::empty() =~= list_view(acc@));
                }
                return Ok(Some(Value::List(acc)));
            }
        }
        let c_before = stream.cursor();
        let r1 = parse_at(a, rec, env, stream, fuel);
        match r1 {
            Err(e) => {
                stream.rewind(pos0x);
                return Err(e);
            },
            Ok(None) => {
                if i >= min as u128 {
                    proof {
                        lemma_list_view(acc);
                        assert(list_view(acc@) + Seq::<GValue>::empty() =~= list_view(acc@));
                    }
                    return Ok(Some(Value::List(acc)));
                } else {
                    stream.rewind(pos0x);
                    return Ok(None);
                }
            },
            Ok(Some(v)) => {
                let progressed = stream.cursor() > c_before;
                if progressed || cap.is_some() {
                    proof {
                        let c1 = stream.cursor_spec();
                        let whole = spec_rep(ga, grec, genv, ginput, pos0, 0, min, cap, gfuel);
                        if whole is Some {
                        lemma_rep_step(ga, grec, genv, ginput, cur0, i0, min, cap, gfuel, v@, c1);
                        let pos2 = if cur0 < c1 <= ginput.len() {
                            c1
                        } else {
                            cur0
                        };
                        assert(pos2 == c1);
                        let nxt = spec_rep(ga, grec, genv, ginput, pos2, i0 + 1, min, cap, gfuel);
                        let whole = spec_rep(ga, grec, genv, ginput, pos0, 0, min, cap, gfuel);
                        match nxt {
                            Some((Ok(Some(tail2)), c2)) => {
                                assert(now0 == Some(
                                    (
                                        Ok::<Option<Seq<GValue>>, GError>(
                                            Some(seq![v@] + tail2),
                                        ),
                                        c2,
                                    ),
                                ));
                                assert(whole == Some(
                                    (
                                        Ok::<Option<Seq<GValue>>, GError>(
                                            Some(list_view(acc@) + (seq![v@] + tail2)),
                                        ),
                                        c2,
                                    ),
                                ));
                                assert(list_view(acc@) + (seq![v@] + tail2) =~= list_view(
                                    acc@.push(v),
                                ) + tail2);
                            },
                            _ => {
                                assert(list_view(acc@.push(v)) =~= list_view(acc@).push(v@));
                            },
                        }
                        }
                    }
                    acc.push(v);
                    i = i + 1;
                } else {
                    if i + 1 >= min as u128 {
                        proof {
                            assert(list_view(acc@) + seq![v@] =~= list_view(acc@.push(v)));
                            assert(list_view(acc@.push(v)) + Seq::<GValue>::empty() =~= list_view(
                                acc@.push(v),
                            ));
                        }
                        acc.push(v);
                        proof {
                            lemma_list_view(acc);
                        }
                        return Ok(Some(Value::List(acc)));
                    } else {
                        stream.rewind(pos0x);
                        return Ok(None);
                    }
                }
            },
        }
    }
}

/// Runs the leaf combinators, which read bytes directly.
#[verifier::loop_isolation(false)]
fn parse_leaf(
    p: &Parser,
    rec: Option<&Parser>,
    env: &Value,
    stream: &mut IterStream,
    fuel: u128,
) -> (r: ParseResult<Value, Error>)
    requires
        old(stream).wf(),
        (*p matches Parser::Any) || (*p matches Parser::Nil) || (*p matches Parser::End) || (*p
            matches Parser::OneOf(_)) || (*p matches Parser::ExactUtf8(_)),
    ensures
        final(stream).wf(),
        final(stream).input() == old(stream).input(),
        final(stream).start_spec() == old(stream).start_spec(),
        old(stream).cursor_spec() <= final(stream).cursor_spec() <= final(stream).input().len(),
        !(r matches Ok(Some(_))) ==> final(stream).cursor_spec() == old(stream).cursor_spec(),
        match spec_parse(
            p@,
            rec_view(rec),
            env@,
            old(stream).input(),
            old(stream).cursor_spec(),
            fuel as nat,
        ) {
            Some((res, c)) => res_view(r) == res && final(stream).cursor_spec() == c,
            None => true,
        },
    decreases fuel, *p, 0int,
{
    let c0 = stream.cursor();
    match p {
        Parser::Any => match stream.next() {
            Some(b) => Ok(Some(Value::Byte(b))),
            None => Ok(None),
        },
        Parser::Nil => Ok(Some(Value::Unit)),
        Parser::End => {
            if stream.remaining() == 0 {
                Ok(Some(Value::Unit))
            } else {
                Ok(None)
            }
        },
        Parser::OneOf(set) => match stream.next() {
            None => Ok(None),
            Some(b) => {
                if contains_byte(set, b) {
                    Ok(Some(Value::Byte(b)))
                } else {
                    stream.rewind(c0);
                    Ok(None)
                }
            },
        },
        Parser::ExactUtf8(s) => {
            let bytes = s.as_str().as_bytes();
            let ghost gbytes = bytes@;
            let ghost ginput = stream.input();
            let n = bytes.len();
            let mut k: usize = 0;
            while k < n
                invariant
                    stream.wf(),
                    stream.input() == ginput,
                    stream.start_spec() == old(stream).start_spec(),
                    k <= n,
                    stream.cursor_spec() == c0 + k,
                    c0 + k <= ginput.len(),
                    ginput.subrange(c0 as int, c0 as int + k) =~= gbytes.subrange(0, k as int),
                decreases n - k,
            {
                match stream.next() {
                    None => {
                        proof {
                            assert(c0 + n > ginput.len());
                        }
                        stream.rewind(c0);
                        return Ok(None);
                    },
                    Some(b) => {
                        if b != bytes[k] {
                            proof {
                                if c0 + n <= ginput.len() && ginput.subrange(
                                    c0 as int,
                                    c0 + n,
                                ) == gbytes {
                                    assert(ginput.subrange(c0 as int, c0 + n)[k as int]
                                        == ginput[c0 + k]);
                                }
                            }
                            stream.rewind(c0);
                            return Ok(None);
                        }
                        proof {
                            assert(ginput.subrange(c0 as int, c0 as int + (k + 1)) =~= gbytes
                                .subrange(0, k as int + 1));
                        }
                    },
                }
                k = k + 1;
            }
            proof {
                assert(ginput.subrange(c0 as int, c0 as int + n) =~= gbytes);
            }
            Ok(Some(Value::Text(s.clone())))
        },
        _ => {
            proof {
                assert(false);
            }
            Ok(None)
        },
    }
}

/// Runs the sequencing combinator.
#[verifier::loop_isolation(false)]
fn parse_then(
    p: &Parser,
    rec: Option<&Parser>,
    env: &Value,
    stream: &mut IterStream,
    fuel: u128,
) -> (r: ParseResult<Value, Error>)
    requires
        old(stream).wf(),
        *p matches Parser::Then(_, _),
    ensures
        final(stream).wf(),
        final(stream).input() == old(stream).input(),
        final(stream).start_spec() == old(stream).start_spec(),
        old(stream).cursor_spec() <= final(stream).cursor_spec() <= final(stream).input().len(),
        !(r matches Ok(Some(_))) ==> final(stream).cursor_spec() == old(stream).cursor_spec(),
        match spec_parse(
            p@,
            rec_view(rec),
            env@,
            old(stream).input(),
            old(stream).cursor_spec(),
            fuel as nat,
        ) {
            Some((res, c)) => res_view(r) == res && final(stream).cursor_spec() == c,
            None => true,
        },
    decreases fuel, *p, 0int,
{
    let c0 = stream.cursor();
    match p {
        Parser::Then(a, b) => {
            let r1 = parse_at(a, rec, env, stream, fuel);
            match r1 {
                Err(e) => Err(e),
                Ok(None) => Ok(None),
                Ok(Some(va)) => {
                    let r2 = parse_at(b, rec, env, stream, fuel);
                    match r2 {
                        Err(e) => {
                            stream.rewind(c0);
                            Err(e)
                        },
                        Ok(None) => {
                            stream.rewind(c0);
                            Ok(None)
                        },
                        Ok(Some(vb)) => Ok(Some(Value::Pair(Box::new(va), Box::new(vb)))),
                    }
                },
            }
        },
        _ => {
            proof {
                assert(false);
            }
            Ok(None)
        },
    }
}

/// Runs the alternation, optionality and lookahead-negation
/// combinators.
#[verifier::loop_isolation(false)]
fn parse_alt(
    p: &Parser,
    rec: Option<&Parser>,
    env: &Value,
    stream: &mut IterStream,
    fuel: u128,
) -> (r: ParseResult<Value, Error>)
    requires
        old(stream).wf(),
        (*p matches Parser::Or(_, _)) || (*p matches Parser::Opt(_)) || (*p matches Parser::Not(
            _,
        )),
    ensures
        final(stream).wf(),
        final(stream).input() == old(stream).input(),
        final(stream).start_spec() == old(stream).start_spec(),
        old(stream).cursor_spec() <= final(stream).cursor_spec() <= final(stream).input().len(),
        !(r matches Ok(Some(_))) ==> final(stream).cursor_spec() == old(stream).cursor_spec(),
        match spec_parse(
            p@,
            rec_view(rec),
            env@,
            old(stream).input(),
            old(stream).cursor_spec(),
            fuel as nat,
        ) {
            Some((res, c)) => res_view(r) == res && final(stream).cursor_spec() == c,
            None => true,
        },
    decreases fuel, *p, 0int,
{
    let c0 = stream.cursor();
    match p {
        Parser::Or(a, b) => {
            let r1 = parse_at(a, rec, env, stream, fuel);
            match r1 {
                Err(e) => Err(e),
                Ok(Some(va)) => Ok(Some(va)),
                Ok(None) => parse_at(b, rec, env, stream, fuel),
            }
        },
        Parser::Opt(a) => {
            let r1 = parse_at(a, rec, env, stream, fuel);
            match r1 {
                Err(e) => Err(e),
                Ok(Some(va)) => Ok(Some(Value::Maybe(Some(Box::new(va))))),
                Ok(None) => Ok(Some(Value::Maybe(None))),
            }
        },
        Parser::Not(a) => {
            let r1 = parse_at(a, rec, env, stream, fuel);
            match r1 {
                Err(e) => Err(e),
                Ok(Some(_)) => {
                    stream.rewind(c0);
                    Ok(None)
                },
                Ok(None) => Ok(Some(Value::Unit)),
            }
        },
        _ => {
            proof {
                assert(false);
            }
            Ok(None)
        },
    }
}

/// Runs the peeking and output-sharing sequencing combinators.
#[verifier::loop_isolation(false)]
fn parse_seq2(
    p: &Parser,
    rec: Option<&Parser>,
    env: &Value,
    stream: &mut IterStream,
    fuel: u128,
) -> (r: ParseResult<Value, Error>)
    requires
        old(stream).wf(),
        (*p matches Parser::ThenPeek(_, _)) || (*p matches Parser::ThenWith(_, _)) || (*p
            matches Parser::ThenPeekWith(_, _)),
    ensures
        final(stream).wf(),
        final(stream).input() == old(stream).input(),
        final(stream).start_spec() == old(stream).start_spec(),
        old(stream).cursor_spec() <= final(stream).cursor_spec() <= final(stream).input().len(),
        !(r matches Ok(Some(_))) ==> final(stream).cursor_spec() == old(stream).cursor_spec(),
        match spec_parse(
            p@,
            rec_view(rec),
            env@,
            old(stream).input(),
            old(stream).cursor_spec(),
            fuel as nat,
        ) {
            Some((res, c)) => res_view(r) == res && final(stream).cursor_spec() == c,
            None => true,
        },
    decreases fuel, *p, 0int,
{
    let c0 = stream.cursor();
    match p {
        Parser::ThenPeek(a, b) => {
            let r1 = parse_at(a, rec, env, stream, fuel);
            match r1 {
                Err(e) => Err(e),
                Ok(None) => Ok(None),
                Ok(Some(va)) => {
                    let c1 = stream.cursor();
                    let r2 = parse_at(b, rec, env, stream, fuel);
                    match r2 {
                        Err(e) => {
                            stream.rewind(c0);
                            Err(e)
                        },
                        Ok(None) => {
                            stream.rewind(c0);
                            Ok(None)
                        },
                        Ok(Some(_)) => {
                            stream.rewind(c1);
                            Ok(Some(va))
                        },
                    }
                },
            }
        },
        Parser::ThenWith(a, b) => {
            let r1 = parse_at(a, rec, env, stream, fuel);
            match r1 {
                Err(e) => Err(e),
                Ok(None) => Ok(None),
                Ok(Some(va)) => {
                    let r2 = parse_at(b, rec, &va, stream, fuel);
                    match r2 {
                        Err(e) => {
                            stream.rewind(c0);
                            Err(e)
                        },
                        Ok(None) => {
                            stream.rewind(c0);
                            Ok(None)
                        },
                        Ok(Some(vb)) => Ok(Some(Value::Pair(Box::new(va), Box::new(vb)))),
                    }
                },
            }
        },
        Parser::ThenPeekWith(a, b) => {
            let r1 = parse_at(a, rec, env, stream, fuel);
            match r1 {
                Err(e) => Err(e),
                Ok(None) => Ok(None),
                Ok(Some(va)) => {
                    let c1 = stream.cursor();
                    let r2 = parse_at(b, rec, &va, stream, fuel);
                    match r2 {
                        Err(e) => {
                            stream.rewind(c0);
                            Err(e)
                        },
                        Ok(None) => {
                            stream.rewind(c0);
                            Ok(None)
                        },
                        Ok(Some(_)) => {
                            stream.rewind(c1);
                            Ok(Some(va))
                        },
                    }
                },
            }
        },
        _ => {
            proof {
                assert(false);
            }
            Ok(None)
        },
    }
}

/// Runs the output-shaping combinators.
#[verifier::loop_isolation(false)]
fn parse_mapped(
    p: &Parser,
    rec: Option<&Parser>,
    env: &Value,
    stream: &mut IterStream,
    fuel: u128,
) -> (r: ParseResult<Value, Error>)
    requires
        old(stream).wf(),
        (*p matches Parser::Mapped(_, _)) || (*p matches Parser::Spanned(_)),
    ensures
        final(stream).wf(),
        final(stream).input() == old(stream).input(),
        final(stream).start_spec() == old(stream).start_spec(),
        old(stream).cursor_spec() <= final(stream).cursor_spec() <= final(stream).input().len(),
        !(r matches Ok(Some(_))) ==> final(stream).cursor_spec() == old(stream).cursor_spec(),
        match spec_parse(
            p@,
            rec_view(rec),
            env@,
            old(stream).input(),
            old(stream).cursor_spec(),
            fuel as nat,
        ) {
            Some((res, c)) => res_view(r) == res && final(stream).cursor_spec() == c,
            None => true,
        },
    decreases fuel, *p, 0int,
{
    let c0 = stream.cursor();
    match p {
        Parser::Mapped(a, t) => {
            let r1 = parse_at(a, rec, env, stream, fuel);
            match r1 {
                Err(e) => Err(e),
                Ok(None) => Ok(None),
                Ok(Some(va)) => Ok(Some(apply_t(t, va))),
            }
        },
        Parser::Spanned(a) => {
            let r1 = parse_at(a, rec, env, stream, fuel);
            match r1 {
                Err(e) => Err(e),
                Ok(None) => Ok(None),
                Ok(Some(va)) => {
                    let c1 = stream.cursor();
                    let sv = Value::SpanVal(Span { start: c0, end: c1 });
                    proof {
                        assert(sv@ == GValue::SpanVal(Span { start: c0, end: c1 }));
                    }
                    Ok(Some(Value::Pair(Box::new(sv), Box::new(va))))
                },
            }
        },
        _ => {
            proof {
                assert(false);
            }
            Ok(None)
        },
    }
}

/// Runs the error-injecting and error-swallowing combinators.
#[verifier::loop_isolation(false)]
fn parse_err(
    p: &Parser,
    rec: Option<&Parser>,
    env: &Value,
    stream: &mut IterStream,
    fuel: u128,
) -> (r: ParseResult<Value, Error>)
    requires
        old(stream).wf(),
        (*p matches Parser::OrError(_, _)) || (*p matches Parser::ThenError(_, _)) || (*p
            matches Parser::DiscardError(_)),
    ensures
        final(stream).wf(),
        final(stream).input() == old(stream).input(),
        final(stream).start_spec() == old(stream).start_spec(),
        old(stream).cursor_spec() <= final(stream).cursor_spec() <= final(stream).input().len(),
        !(r matches Ok(Some(_))) ==> final(stream).cursor_spec() == old(stream).cursor_spec(),
        match spec_parse(
            p@,
            rec_view(rec),
            env@,
            old(stream).input(),
            old(stream).cursor_spec(),
            fuel as nat,
        ) {
            Some((res, c)) => res_view(r) == res && final(stream).cursor_spec() == c,
            None => true,
        },
    decreases fuel, *p, 0int,
{
    let c0 = stream.cursor();
    match p {
        Parser::OrError(a, eb) => {
            let r1 = parse_at(a, rec, env, stream, fuel);
            match r1 {
                Err(e) => Err(e),
                Ok(Some(va)) => Ok(Some(va)),
                Ok(None) => {
                    let u = Value::Unit;
                    Err(build_error(eb, Span { start: c0, end: c0 }, &u, env))
                },
            }
        },
        Parser::ThenError(a, eb) => {
            let r1 = parse_at(a, rec, env, stream, fuel);
            match r1 {
                Err(e) => Err(e),
                Ok(None) => Ok(None),
                Ok(Some(va)) => {
                    let c1 = stream.cursor();
                    stream.rewind(c0);
                    Err(build_error(eb, Span { start: c0, end: c1 }, &va, env))
                },
            }
        },
        Parser::DiscardError(a) => {
            let r1 = parse_at(a, rec, env, stream, fuel);
            match r1 {
                Err(_) => Ok(None),
                Ok(Some(va)) => Ok(Some(va)),
                Ok(None) => Ok(None),
            }
        },
        _ => {
            proof {
                assert(false);
            }
            Ok(None)
        },
    }
}

/// Runs the recursive definition and its handle.
#[verifier::loop_isolation(false)]
fn parse_rec(
    p: &Parser,
    rec: Option<&Parser>,
    env: &Value,
    stream: &mut IterStream,
    fuel: u128,
) -> (r: ParseResult<Value, Error>)
    requires
        old(stream).wf(),
        (*p matches Parser::SelfRef) || (*p matches Parser::Recursive(_)),
    ensures
        final(stream).wf(),
        final(stream).input() == old(stream).input(),
        final(stream).start_spec() == old(stream).start_spec(),
        old(stream).cursor_spec() <= final(stream).cursor_spec() <= final(stream).input().len(),
        !(r matches Ok(Some(_))) ==> final(stream).cursor_spec() == old(stream).cursor_spec(),
        match spec_parse(
            p@,
            rec_view(rec),
            env@,
            old(stream).input(),
            old(stream).cursor_spec(),
            fuel as nat,
        ) {
            Some((res, c)) => res_view(r) == res && final(stream).cursor_spec() == c,
            None => true,
        },
    decreases fuel, *p, 0int,
{
    let c0 = stream.cursor();
    match p {
        Parser::SelfRef => match rec {
            None => Ok(None),
            Some(def) => {
                if fuel == 0 {
                    Err(
                        Error {
                            span: Span { start: c0, end: c0 },
                            text: String::from_str("recursion allowance exhausted"),
                        },
                    )
                } else {
                    parse_at(def, rec, env, stream, fuel - 1)
                }
            },
        },
        Parser::Recursive(b) => parse_at(b, Some(p), env, stream, fuel),
        _ => {
            proof {
                assert(false);
            }
            Ok(None)
        },
    }
}

/// Runs parser `p` against the stream; `rec` is the innermost enclosing
/// recursive definition and `env` the output of the enclosing
/// `ThenWith`/`ThenPeekWith` first component.
fn parse_at(
    p: &Parser,
    rec: Option<&Parser>,
    env: &Value,
    stream: &mut IterStream,
    fuel: u128,
) -> (r: ParseResult<Value, Error>)
    requires
        old(stream).wf(),
    ensures
        final(stream).wf(),
        final(stream).input() == old(stream).input(),
        final(stream).start_spec() == old(stream).start_spec(),
        old(stream).cursor_spec() <= final(stream).cursor_spec() <= final(stream).input().len(),
        !(r matches Ok(Some(_))) ==> final(stream).cursor_spec() == old(stream).cursor_spec(),
        match spec_parse(
            p@,
            rec_view(rec),
            env@,
            old(stream).input(),
            old(stream).cursor_spec(),
            fuel as nat,
        ) {
            Some((res, c)) => res_view(r) == res && final(stream).cursor_spec() == c,
            None => true,
        },
    decreases fuel, *p, 1int,
{
    match p {
        Parser::Any | Parser::Nil | Parser::End | Parser::OneOf(_) | Parser::ExactUtf8(_) => {
            parse_leaf(p, rec, env, stream, fuel)
        },
        Parser::Then(_, _) => parse_then(p, rec, env, stream, fuel),
        Parser::Or(_, _) | Parser::Opt(_) | Parser::Not(_) => parse_alt(p, rec, env, stream, fuel),
        Parser::ThenPeek(_, _) | Parser::ThenWith(_, _) | Parser::ThenPeekWith(_, _) => {
            parse_seq2(p, rec, env, stream, fuel)
        },
        Parser::Mapped(_, _) | Parser::Spanned(_) => parse_mapped(p, rec, env, stream, fuel),
        Parser::OrError(_, _) | Parser::ThenError(_, _) | Parser::DiscardError(_) => {
            parse_err(p, rec, env, stream, fuel)
        },
        Parser::SelfRef | Parser::Recursive(_) => parse_rec(p, rec, env, stream, fuel),
        Parser::Repeated(a, min, cap) => parse_rep(a, rec, env, stream, *min, *cap, fuel),
    }
}


impl Parser {
    /// Parses from the stream: the sole entry point of a parser.
    ///
    /// The outcome and the stream's new position are exactly what the
    /// functional semantics [`spec_parse`] assigns to this parser on the
    /// remaining input, under a recursion allowance one longer than the
    /// remaining input. A grammar whose recursive definitions all consume
    /// input before re-entering themselves stays within that allowance;
    /// one that re-enters without consuming would run forever, and is
    /// stopped with a hard error instead.
    ///
    /// The parser must be closed: parsing an uninitialized recursive
    /// handle is a construction-order bug, not a parse outcome.
    pub fn parse(&self, stream: &mut IterStream) -> (r: ParseResult<Value, Error>)
        requires
            old(stream).wf(),
            self@.closed(),
        ensures
            final(stream).wf(),
            final(stream).input() == old(stream).input(),
            final(stream).start_spec() == old(stream).start_spec(),
            old(stream).cursor_spec() <= final(stream).cursor_spec() <= final(stream).input().len(),
            !(r matches Ok(Some(_))) ==> final(stream).cursor_spec() == old(stream).cursor_spec(),
            match spec_parse(
                self@,
                None,
                GValue::Unit,
                old(stream).input(),
                old(stream).cursor_spec(),
                (old(stream).input().len() - old(stream).cursor_spec() + 1) as nat,
            ) {
                Some((res, c)) => res_view(r) == res && final(stream).cursor_spec() == c,
                None => true,
            },
            !self@.uses_self_ref() ==> spec_parse(
                self@,
                None,
                GValue::Unit,
                old(stream).input(),
                old(stream).cursor_spec(),
                (old(stream).input().len() - old(stream).cursor_spec() + 1) as nat,
            ) is Some,
    {
        proof {
            if !self@.uses_self_ref() {
                crate::laws::lemma_fuel_free(
                    self@,
                    None,
                    GValue::Unit,
                    stream.input(),
                    stream.cursor_spec(),
                    (stream.input().len() - stream.cursor_spec() + 1) as nat,
                );
            }
        }
        let fuel = stream.remaining() as u128 + 1;
        let u = Value::Unit;
        parse_at(self, None, &u, stream, fuel)
    }
}

} // verus!
