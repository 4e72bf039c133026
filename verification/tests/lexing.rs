use ebb_parsing::lexer::{is_initial_pair, Lexeme, Lexer};
use ebb_parsing::lexer::symbol::{parse_symbol, Symbol};
use ebb_parsing::lexer::utils::{err, ok, Reader};
use ebb_parsing::lexer::reader::{Parse, SpannedReader};
use ebb_parsing::lexer::symbols::TextAsSymbols;
use ebb_parsing::span::Span;

#[test]
fn lexer_initial_pairs() {
    let initial_pairs: Vec<_> = [
        "bj", "bz", "bl", "br", "cf", "ck", "cm", "cp", "ct", "cn", "cl", "cr", "dj", "dz",
        "dr", "fc", "fs", "fn", "fl", "fr", "gj", "gz", "gn", "gl", "gr", "jb", "jd", "jg",
        "jm", "jv", "jn", "jl", "jr", "kc", "ks", "kn", "kl", "kr", "mn", "ml", "mr", "pc",
        "ps", "pl", "pr", "sf", "sk", "sm", "sp", "st", "sn", "sl", "sr", "tc", "ts", "tr",
        "vj", "vz", "vn", "vl", "vr", "zb", "zd", "zg", "zm", "zv", "zn", "zl", "zr",
    ]
    .map(|word| word.as_bytes())
    .into_iter()
    .collect();

    for c1 in b'a'..=b'z' {
        for c2 in b'a'..=b'z' {
            assert_eq!(
                is_initial_pair(c1, c2),
                initial_pairs.contains(&&[c1, c2][..]),
                "Mismatch for {}{}",
                char::from(c1),
                char::from(c2)
            );
        }
    }
}

#[test]
fn parse_symbol_works() {
    let parse = |input: &str| {
        let mut reader = Reader::new(input.as_bytes());
        parse_symbol(&mut reader)
    };

    assert_eq!(parse("ab"), ok(Span::new(0, 1), Symbol::Vowel(b'a')));
    assert_eq!(parse("aab"), ok(Span::new(0, 2), Symbol::Vowel(b'a')));
    assert_eq!(parse("aaab"), ok(Span::new(0, 3), Symbol::Vowel(b'a')));

    assert_eq!(parse(" a"), ok(Span::new(0, 1), Symbol::Space));
    assert_eq!(parse("  a"), ok(Span::new(0, 2), Symbol::Space));
    assert_eq!(parse("   a"), ok(Span::new(0, 3), Symbol::Space));
    assert_eq!(parse(".a"), ok(Span::new(0, 1), Symbol::Space));
    assert_eq!(parse("./a"), ok(Span::new(0, 2), Symbol::Space));
    assert_eq!(parse(" $#@a"), ok(Span::new(0, 4), Symbol::Space));

    for hyphen in &["-", "–", "—", "−"] {
        assert_eq!(
            parse(&format!("{hyphen}a")),
            ok(Span::new(0, hyphen.as_bytes().len()), Symbol::Hyphen)
        );

        for hyphen2 in &["-", "–", "—", "−"] {
            assert_eq!(
                parse(&format!("{hyphen}{hyphen2}a")),
                err(
                    Span::new(0, hyphen.as_bytes().len() + hyphen2.as_bytes().len()),
                    "2 hyphens cannot appear in a row"
                )
            );
        }
    }

    for pause in &["'", "’", "`"] {
        assert_eq!(
            parse(&format!("{pause}a")),
            ok(Span::new(0, pause.as_bytes().len()), Symbol::Pause)
        );

        for pause2 in &["'", "’", "`"] {
            assert_eq!(
                parse(&format!("{pause}{pause2}a")),
                err(
                    Span::new(0, pause.as_bytes().len() + pause2.as_bytes().len()),
                    "2 pauses cannot appear in a row"
                )
            );
        }
    }
}

#[test]
fn lexes_words() {
    let input = b"pa banan";
    let mut lexer = Lexer::new(Reader::new(&input[..]));

    match lexer.next_lexeme() {
        Ok(Some(l)) => {
            assert_eq!(l.value, Lexeme::Particle(String::from("pa")));
            assert_eq!(l.span, Span::new(0, 2));
        },
        other => panic!("expected a particle, got {other:?}"),
    }
    match lexer.next_lexeme() {
        Ok(Some(l)) => {
            assert_eq!(l.value, Lexeme::Root(String::from("banan")));
        },
        other => panic!("expected a root, got {other:?}"),
    }
    assert!(matches!(lexer.next_lexeme(), Ok(None)));
}

#[test]
fn parse() {
    let input_ = "aA! 'pLl‘@=nH‐-ııIIi".as_bytes();
    let legend = "a _ 'pl '_ nh- i    ";
    let mut reader = SpannedReader::new(&input_);
    let parsed = TextAsSymbols::parse(&mut reader, &mut ()).unwrap();
    assert_eq!(&parsed.legend(&input_), legend);
}
