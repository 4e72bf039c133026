use ebb_parsing::morpho::{consonant, digit, single_pause};
use ebb_parsing::parser::{
    any, choice, end, exact_utf8, nil, not, one_of, recursive, ErrorBuilder, Transform, Value,
};
use ebb_parsing::span::Span;
use ebb_parsing::stream::IterStream;

fn text(s: &str) -> Value {
    Value::Text(String::from(s))
}

#[test]
fn choice_is_left_biased() {
    // Both members match a prefix of the input; the first one wins.
    let parser = choice(vec![exact_utf8("ab"), exact_utf8("a")]);
    let mut stream = IterStream::new(&b"ab!"[..]);
    assert_eq!(parser.parse(&mut stream), Ok(Some(text("ab"))));
    assert_eq!(stream.cursor(), 2);

    let parser = choice(vec![exact_utf8("a"), exact_utf8("ab")]);
    let mut stream = IterStream::new(&b"ab!"[..]);
    assert_eq!(parser.parse(&mut stream), Ok(Some(text("a"))));
    assert_eq!(stream.cursor(), 1);
}

#[test]
fn choice_short_circuits_on_error() {
    // The first member fails hard; the second would match everything,
    // but must never be tried.
    let fails_with_error = any().then_error(ErrorBuilder::message("rejected"));
    let always_matches = nil();
    let parser = choice(vec![fails_with_error, always_matches]);
    let mut stream = IterStream::new(&b"x"[..]);
    let r = parser.parse(&mut stream);
    assert!(r.is_err());
    assert_eq!(stream.cursor(), 0);
}

#[test]
fn repeated_bounds() {
    let parser = exact_utf8("a").repeated(2..5);

    // One repetition is below the range: no match, full rollback.
    let mut stream = IterStream::new(&b"ab"[..]);
    assert_eq!(parser.parse(&mut stream), Ok(None));
    assert_eq!(stream.cursor(), 0);

    // Three repetitions fit the range.
    let mut stream = IterStream::new(&b"aaab"[..]);
    match parser.parse(&mut stream) {
        Ok(Some(Value::List(items))) => assert_eq!(items.len(), 3),
        other => panic!("expected three items, got {other:?}"),
    }
    assert_eq!(stream.cursor(), 3);

    // With more available, repetition stops once the count reaches the
    // range's end and attempts nothing further.
    let mut stream = IterStream::new(&b"aaaaaaa"[..]);
    match parser.parse(&mut stream) {
        Ok(Some(Value::List(items))) => assert_eq!(items.len(), 5),
        other => panic!("expected five items, got {other:?}"),
    }
    assert_eq!(stream.cursor(), 5);
}

#[test]
fn case_sensitive_sequence_rolls_back() {
    // "aA!" against lowercase "a" twice: the second letter does not
    // match case-sensitively, and the stream shows zero net progress.
    let parser = exact_utf8("a").and_then(exact_utf8("a"));
    let mut stream = IterStream::new(&b"aA!"[..]);
    assert_eq!(parser.parse(&mut stream), Ok(None));
    assert_eq!(stream.cursor(), 0);
}

#[test]
fn recursive_grammar() {
    // R := 'a' (R | 'c')
    let parser = recursive(|r| exact_utf8("a").and_then(r.or(exact_utf8("c"))));

    let mut stream = IterStream::new(&b"aac"[..]);
    let expected = Value::Pair(
        Box::new(text("a")),
        Box::new(Value::Pair(Box::new(text("a")), Box::new(text("c")))),
    );
    assert_eq!(parser.parse(&mut stream), Ok(Some(expected)));
    assert_eq!(stream.cursor(), 3);

    // Without the terminating 'c' nothing matches and the stream is
    // rolled back to its start.
    let mut stream = IterStream::new(&b"aa"[..]);
    assert_eq!(parser.parse(&mut stream), Ok(None));
    assert_eq!(stream.cursor(), 0);
}

#[test]
fn end_of_input() {
    let mut stream = IterStream::new(&b""[..]);
    assert_eq!(end().parse(&mut stream), Ok(Some(Value::Unit)));
    assert_eq!(stream.cursor(), 0);

    let mut stream = IterStream::new(&b"x"[..]);
    assert_eq!(end().parse(&mut stream), Ok(None));
    assert_eq!(stream.cursor(), 0);
}

#[test]
fn parsing_is_deterministic() {
    let run = || {
        let parser = choice(vec![exact_utf8("ab"), exact_utf8("a")]);
        let mut stream = IterStream::new(String::from("abc"));
        let r = parser.parse(&mut stream);
        (r, stream.cursor())
    };
    assert_eq!(run(), run());
}

#[test]
fn rollback_on_lookahead() {
    let mut stream = IterStream::new(&b"x"[..]);
    assert_eq!(not(any()).parse(&mut stream), Ok(None));
    assert_eq!(stream.cursor(), 0);

    let mut stream = IterStream::new(&b""[..]);
    assert_eq!(not(any()).parse(&mut stream), Ok(Some(Value::Unit)));
    assert_eq!(stream.cursor(), 0);
}

#[test]
fn error_messages_cite_the_match() {
    // A doubled sibilant is rejected with a message naming both letters.
    let parser = consonant();
    let mut stream = IterStream::new(&b"sz"[..]);
    match parser.parse(&mut stream) {
        Err(e) => {
            assert_eq!(
                e.text,
                "A sibilant (s) cannot be followed by another sibilant (z)."
            );
        },
        other => panic!("expected a hard error, got {other:?}"),
    }
    assert_eq!(stream.cursor(), 0);
}

#[test]
fn doubled_pause_error_span() {
    let parser = single_pause();
    let mut stream = IterStream::new(&b"''a"[..]);
    match parser.parse(&mut stream) {
        Err(e) => {
            assert_eq!(e.span, Span::new(0, 2));
            assert_eq!(e.text, "Only a single pause symbol can be used in a row.");
        },
        other => panic!("expected a hard error, got {other:?}"),
    }
}

#[test]
fn absence_turned_into_error() {
    let parser = exact_utf8("x").or_error(ErrorBuilder::message("expected an x"));
    let mut stream = IterStream::new(&b"y"[..]);
    match parser.parse(&mut stream) {
        Err(e) => {
            assert_eq!(e.span, Span::new(0, 0));
            assert_eq!(e.text, "expected an x");
        },
        other => panic!("expected a hard error, got {other:?}"),
    }
    assert_eq!(stream.cursor(), 0);
}

#[test]
fn swallowed_error_is_absence() {
    let parser = any().then_error(ErrorBuilder::message("rejected")).discard_error();
    let mut stream = IterStream::new(&b"x"[..]);
    assert_eq!(parser.parse(&mut stream), Ok(None));
    assert_eq!(stream.cursor(), 0);
}

#[test]
fn spanned_captures_consumption() {
    let parser = exact_utf8("ab").spanned();
    let mut stream = IterStream::new(&b"abc"[..]);
    assert_eq!(
        parser.parse(&mut stream),
        Ok(Some(Value::Pair(
            Box::new(Value::SpanVal(Span::new(0, 2))),
            Box::new(text("ab"))
        )))
    );
}

#[test]
fn digits_and_bytes() {
    let mut stream = IterStream::new(&b"7"[..]);
    assert_eq!(digit().parse(&mut stream), Ok(Some(Value::Byte(7))));

    let mut stream = IterStream::new(&b"q"[..]);
    assert_eq!(one_of(&b"pq"[..]).parse(&mut stream), Ok(Some(Value::Byte(b'q'))));
    assert_eq!(stream.cursor(), 1);

    let mut stream = IterStream::new(&b"z"[..]);
    assert_eq!(one_of(&b"pq"[..]).parse(&mut stream), Ok(None));
    assert_eq!(stream.cursor(), 0);
}

#[test]
fn optional_and_mapped() {
    let parser = exact_utf8("a").opt();
    let mut stream = IterStream::new(&b"b"[..]);
    assert_eq!(parser.parse(&mut stream), Ok(Some(Value::Maybe(None))));

    let parser = exact_utf8("a").opt();
    let mut stream = IterStream::new(&b"a"[..]);
    assert_eq!(
        parser.parse(&mut stream),
        Ok(Some(Value::Maybe(Some(Box::new(text("a"))))))
    );

    let parser = exact_utf8("a").and_then(exact_utf8("b")).map(Transform::Render);
    let mut stream = IterStream::new(&b"ab"[..]);
    assert_eq!(parser.parse(&mut stream), Ok(Some(text("ab"))));
}

#[test]
fn spans_derive() {
    let s = Span::new(3, 5);
    assert_eq!(s.expand_before(1), Span::new(2, 5));
    assert_eq!(s.expand_after(2), Span::new(3, 7));
    assert_eq!(s.preceding(3), Span::new(0, 3));
    assert_eq!(s.following(4), Span::new(5, 9));
    assert!(!s.is_empty());
    assert!(Span::new(4, 4).is_empty());
}
