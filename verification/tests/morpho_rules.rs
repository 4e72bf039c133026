use ebb_parsing::morpho::{initial_pair, medial_pair, particle_form};
use ebb_parsing::parser::{end, Value};
use ebb_parsing::stream::IterStream;

fn matched(r: &Result<Option<Value>, ebb_parsing::span::Error>) -> bool {
    matches!(r, Ok(Some(_)))
}

const INITIAL_PAIRS: [&str; 69] = [
    "bj", "bz", "bl", "br", "cf", "ck", "cm", "cp", "ct", "cn", "cl", "cr", "dj", "dz", "dr",
    "fc", "fs", "fn", "fl", "fr", "gj", "gz", "gn", "gl", "gr", "jb", "jd", "jg", "jm", "jv",
    "jn", "jl", "jr", "kc", "ks", "kn", "kl", "kr", "mn", "ml", "mr", "pc", "ps", "pl", "pr",
    "sf", "sk", "sm", "sp", "st", "sn", "sl", "sr", "tc", "ts", "tr", "vj", "vz", "vn", "vl",
    "vr", "zb", "zd", "zg", "zm", "zv", "zn", "zl", "zr",
];

const MEDIAL_PAIRS: [&str; 36] = [
    "bd", "bg", "bm", "bv", "db", "dg", "dm", "dv", "fk", "fm", "fp", "ft", "gb", "gd", "gm",
    "gv", "kf", "km", "kp", "kt", "pf", "pk", "pm", "pt", "tf", "tk", "tm", "tp", "vb", "vd",
    "vg", "vm", "nl", "nr", "ln", "rn",
];

fn in_list(list: &[&str], c1: u8, c2: u8) -> bool {
    list.iter().any(|w| w.as_bytes() == [c1, c2])
}

#[test]
fn morpho_initial_pairs() {
    let parser = initial_pair().then_peek(end());

    for c1 in b'a'..=b'z' {
        for c2 in b'a'..=b'z' {
            assert_eq!(
                matched(&parser.parse(&mut IterStream::new([c1, c2]))),
                in_list(&INITIAL_PAIRS, c1, c2),
                "Mismatch for {}{}",
                char::from(c1),
                char::from(c2)
            );
        }
    }

    // Initial pair cannot contain hyphen.
    for c1 in b'a'..=b'z' {
        for c2 in b'a'..=b'z' {
            assert_eq!(
                matched(&parser.parse(&mut IterStream::new([c1, b'-', c2]))),
                false,
                "Mismatch for {}-{}, initial pair cannot contain hyphen",
                char::from(c1),
                char::from(c2)
            );
        }
    }
}

#[test]
fn symbols_initial_pairs() {
    let parser = initial_pair().then_peek(end());

    for c1 in b'a'..=b'z' {
        for c2 in b'a'..=b'z' {
            assert_eq!(
                matched(&parser.parse(&mut IterStream::new([c1, c2]))),
                in_list(&INITIAL_PAIRS, c1, c2),
                "Mismatch for {}{}",
                char::from(c1),
                char::from(c2)
            );
        }
    }

    // Initial pair cannot contain hyphen.
    for c1 in b'a'..=b'z' {
        for c2 in b'a'..=b'z' {
            assert!(
                !matched(&parser.parse(&mut IterStream::new([c1, b'-', c2]))),
                "Mismatch for {}-{}, initial pair cannot contain hyphen",
                char::from(c1),
                char::from(c2)
            );
        }
    }
}

#[test]
fn morpho_medial_pairs() {
    let parser = medial_pair().then_peek(end());

    for c1 in b'a'..=b'z' {
        for c2 in b'a'..=b'z' {
            assert_eq!(
                matched(&parser.parse(&mut IterStream::new([c1, c2]))),
                in_list(&MEDIAL_PAIRS, c1, c2),
                "Mismatch for {}{}",
                char::from(c1),
                char::from(c2)
            );
        }
    }

    for c1 in b'a'..=b'z' {
        for c2 in b'a'..=b'z' {
            assert_eq!(
                matched(&parser.parse(&mut IterStream::new([c1, b'-', c2]))),
                in_list(&MEDIAL_PAIRS, c1, c2),
                "Mismatch for {}-{}",
                char::from(c1),
                char::from(c2)
            );
        }
    }
}

#[test]
fn symbols_medial_pairs() {
    let parser = medial_pair().then_peek(end());

    for c1 in b'a'..=b'z' {
        for c2 in b'a'..=b'z' {
            assert_eq!(
                matched(&parser.parse(&mut IterStream::new([c1, b'-', c2]))),
                in_list(&MEDIAL_PAIRS, c1, c2),
                "Mismatch for {}-{}",
                char::from(c1),
                char::from(c2)
            );
        }
    }
}

#[test]
fn medial_pairs_with_hyphens() {
    let parser = medial_pair().then_peek(end());

    for c1 in b'a'..=b'z' {
        for c2 in b'a'..=b'z' {
            assert_eq!(
                matched(&parser.parse(&mut IterStream::new([c1, b'-', c2]))),
                in_list(&MEDIAL_PAIRS, c1, c2),
                "Mismatch for {}-{}",
                char::from(c1),
                char::from(c2)
            );
        }
    }
}

#[test]
fn medial_pairs_with_hyphens_and_line_breaks() {
    let parser = medial_pair().then_peek(end());

    for c1 in b'a'..=b'z' {
        for c2 in b'a'..=b'z' {
            assert_eq!(
                matched(&parser.parse(&mut IterStream::new([c1, b'-', b'\n', c2]))),
                in_list(&MEDIAL_PAIRS, c1, c2),
                "Mismatch for {}-[line break]{}",
                char::from(c1),
                char::from(c2)
            );
        }
    }
}

#[test]
fn morpho_particle_forms() {
    let parser = particle_form();

    let success = |pat: &[u8], out: &str| {
        assert_eq!(
            parser.parse(&mut IterStream::new(pat)),
            Ok(Some(Value::Text(String::from(out))))
        )
    };

    success(&b"pa"[..], "pa");
    success(&b"pai"[..], "pai");
    success(&b"pahi"[..], "pahi");
    success(&b"pa-i"[..], "pai");
    success(&b"pa-hi"[..], "pahi");

    success(&b"papa"[..], "pa");
    success(&b"papla"[..], "pa");

    assert_eq!(parser.parse(&mut IterStream::new(&b"p"[..])), Ok(None));
    assert_eq!(parser.parse(&mut IterStream::new(&b"pafka"[..])), Ok(None));

    assert!(parser.parse(&mut IterStream::new(&b"pah-i"[..])).is_err());
    assert!(parser.parse(&mut IterStream::new(&b"pa-ai"[..])).is_err());
    assert!(parser.parse(&mut IterStream::new(&b"na"[..])).is_err());
}

#[test]
fn mod_particle_forms() {
    let parser = particle_form();

    let success = |pat: &[u8], out: &str| {
        assert_eq!(
            parser.parse(&mut IterStream::new(pat)),
            Ok(Some(Value::Text(String::from(out))))
        )
    };

    success(&b"pa"[..], "pa");
    success(&b"pai"[..], "pai");
    success(&b"pahi"[..], "pahi");
    success(&b"pa-i"[..], "pai");
    success(&b"pa-hi"[..], "pahi");

    success(&b"papa"[..], "pa");
    success(&b"papla"[..], "pa");

    assert_eq!(parser.parse(&mut IterStream::new(&b"p"[..])), Ok(None));
    assert_eq!(parser.parse(&mut IterStream::new(&b"pafka"[..])), Ok(None));

    assert!(parser.parse(&mut IterStream::new(&b"pah-i"[..])).is_err());
    assert!(parser.parse(&mut IterStream::new(&b"pa-ai"[..])).is_err());
    assert!(parser.parse(&mut IterStream::new(&b"na"[..])).is_err());
}
