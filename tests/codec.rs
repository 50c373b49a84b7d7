use miragend::json::{JsonValue, Obfuscator};
use miragend::obfuscation::{
    char_from_draw, obfuscated_text, obfuscated_with_remaining, random_char, CharactersMapper, MapperError,
    ObfuscatorConfig, Record,
};
use miragend::parse::{parse_number, split_commas};

fn mapper(ss: char, se: char, ts: char, te: char) -> CharactersMapper {
    CharactersMapper {
        source_start: ss,
        source_end: se,
        target_start: ts,
        target_end: te,
        comment: String::new(),
    }
}

fn config(mappers: Vec<CharactersMapper>) -> ObfuscatorConfig {
    ObfuscatorConfig { mappers }
}

#[test]
fn codec_leaves_unmapped_characters() {
    let cfg = config(vec![mapper('a', 'z', 'A', 'Z')]);
    for c in ['1', ' ', 'A', '\u{4e00}', '`', '{'] {
        assert_eq!(random_char(&cfg, c), c);
    }
    let empty = config(vec![]);
    assert_eq!(random_char(&empty, 'q'), 'q');
}

#[test]
fn codec_draws_from_target_range() {
    let cfg = config(vec![mapper('a', 'z', 'A', 'Z')]);
    for _ in 0..200 {
        for c in ['a', 'm', 'z'] {
            let r = random_char(&cfg, c);
            assert!(('A'..='Z').contains(&r), "{} gave {}", c, r);
        }
    }
}

#[test]
fn codec_first_match_wins() {
    let cfg = config(vec![mapper('a', 'c', 'X', 'X'), mapper('a', 'z', 'Y', 'Y')]);
    assert_eq!(random_char(&cfg, 'b'), 'X');
    assert_eq!(random_char(&cfg, 'd'), 'Y');
}

#[test]
fn codec_placeholder_for_non_characters() {
    let cfg = config(vec![mapper('a', 'a', '\u{d7ff}', '\u{e000}')]);
    for _ in 0..50 {
        let r = random_char(&cfg, 'a');
        assert!(r == '?' || r == '\u{d7ff}' || r == '\u{e000}');
    }
    let inverted = config(vec![mapper('a', 'a', 'Z', 'A')]);
    assert_eq!(random_char(&inverted, 'a'), '?');
}

#[test]
fn full_obfuscation_keeps_length_and_alignment() {
    let cfg = config(vec![mapper('a', 'z', 'A', 'Z')]);
    let input = "hello, world 42";
    let out = obfuscated_text(&cfg, input);
    assert_eq!(out.chars().count(), input.chars().count());
    for (a, b) in input.chars().zip(out.chars()) {
        if a.is_ascii_lowercase() {
            assert!(b.is_ascii_uppercase());
        } else {
            assert_eq!(a, b);
        }
    }
    assert_eq!(obfuscated_text(&cfg, ""), "");
}

#[test]
fn head_exempt_obfuscation_keeps_budget_head() {
    let cfg = config(vec![mapper('a', 'z', 'X', 'X'), mapper(' ', ' ', '_', '_')]);
    let (out, left) = obfuscated_with_remaining(&cfg, "ab cd ef", 3);
    assert_eq!(out, "ab cX_XX");
    assert_eq!(left, 0);
    let (out, left) = obfuscated_with_remaining(&cfg, "ab cd", 10);
    assert_eq!(out, "ab cd");
    assert_eq!(left, 6);
    let (out, left) = obfuscated_with_remaining(&cfg, "  a b", 1);
    assert_eq!(out, "  a_X");
    assert_eq!(left, 0);
    let (out, left) = obfuscated_with_remaining(&cfg, "ab", 0);
    assert_eq!(out, "XX");
    assert_eq!(left, 0);
}

#[test]
fn obfuscator_trait_on_strings_and_chars() {
    let cfg = config(vec![mapper('a', 'z', 'X', 'X')]);
    assert_eq!('q'.obfuscated(&cfg), 'X');
    let mut s = "ab1".to_string();
    s.obfuscate(&cfg);
    assert_eq!(s, "XX1");
}

#[test]
fn json_obfuscation_rewrites_string_leaves_only() {
    let cfg = config(vec![mapper('a', 'z', 'X', 'X')]);
    let mut v = JsonValue::Object(vec![
        ("title".to_string(), JsonValue::String("ab c".to_string())),
        (
            "list".to_string(),
            JsonValue::Array(vec![
                JsonValue::String("z".to_string()),
                JsonValue::Number("12".to_string()),
                JsonValue::Bool(true),
                JsonValue::Null,
            ]),
        ),
    ]);
    v.obfuscate(&cfg);
    match v {
        JsonValue::Object(es) => {
            assert_eq!(es[0].0, "title");
            assert!(matches!(&es[0].1, JsonValue::String(s) if s == "XX X"));
            assert_eq!(es[1].0, "list");
            match &es[1].1 {
                JsonValue::Array(xs) => {
                    assert!(matches!(&xs[0], JsonValue::String(s) if s == "X"));
                    assert!(matches!(&xs[1], JsonValue::Number(n) if n == "12"));
                    assert!(matches!(&xs[2], JsonValue::Bool(true)));
                    assert!(matches!(&xs[3], JsonValue::Null));
                }
                _ => panic!("array expected"),
            }
        }
        _ => panic!("object expected"),
    }
}

#[test]
fn mapping_table_from_csv() {
    let csv = "source_start,source_end,target_start,target_end,comment\n\
               4e00,9fa5,4e00,9fa5,common han\n\
               zz,7a,41,5a,not hex\n\
               d800,d800,41,41,surrogate\n\
               61,7a,41,5a\n\
               61,7A,+41,5a,latin\n";
    let cfg = ObfuscatorConfig::load_from_csv(csv);
    assert_eq!(cfg.mappers.len(), 2);
    assert_eq!(cfg.mappers[0].source_start, '\u{4e00}');
    assert_eq!(cfg.mappers[0].target_end, '\u{9fa5}');
    assert_eq!(cfg.mappers[0].comment, "common han");
    assert_eq!(cfg.mappers[1].source_end, 'z');
    assert_eq!(cfg.mappers[1].target_start, 'A');
    assert_eq!(cfg.mappers[1].comment, "latin");
}

#[test]
fn mapping_table_columns_by_name() {
    let csv = "comment,target_end,target_start,source_end,source_start\nx,5a,41,7a,61\n";
    let cfg = ObfuscatorConfig::load_from_csv(csv);
    assert_eq!(cfg.mappers.len(), 1);
    assert_eq!(cfg.mappers[0].source_start, 'a');
    assert_eq!(cfg.mappers[0].target_end, 'Z');
    let missing = ObfuscatorConfig::load_from_csv("source_start,source_end\n61,7a\n");
    assert_eq!(missing.mappers.len(), 0);
    assert_eq!(ObfuscatorConfig::load_from_csv("").mappers.len(), 0);
}

#[test]
fn mapper_from_record_errors() {
    let rec = |s: &str| Record {
        source_start: s.to_string(),
        source_end: "7a".to_string(),
        target_start: "41".to_string(),
        target_end: "5a".to_string(),
        comment: "c".to_string(),
    };
    assert!(matches!(CharactersMapper::try_from(rec("61")), Ok(m) if m.source_start == 'a'));
    assert!(matches!(CharactersMapper::try_from(rec("g1")), Err(MapperError::NotHex)));
    assert!(matches!(CharactersMapper::try_from(rec("100000000")), Err(MapperError::NotHex)));
    assert!(matches!(CharactersMapper::try_from(rec("dfff")), Err(MapperError::NotAChar)));
    assert!(matches!(CharactersMapper::try_from(rec("110000")), Err(MapperError::NotAChar)));
}

#[test]
fn numbers_and_lists() {
    assert_eq!(parse_number("42", 10, u64::MAX), Some(42));
    assert_eq!(parse_number("+7", 10, u64::MAX), Some(7));
    assert_eq!(parse_number("", 10, u64::MAX), None);
    assert_eq!(parse_number("+", 10, u64::MAX), None);
    assert_eq!(parse_number("4x", 10, u64::MAX), None);
    assert_eq!(parse_number("-1", 10, u64::MAX), None);
    assert_eq!(parse_number("18446744073709551615", 10, u64::MAX), Some(u64::MAX));
    assert_eq!(parse_number("18446744073709551616", 10, u64::MAX), None);
    assert_eq!(parse_number("4e00", 16, 0xffff_ffff), Some(0x4e00));
    assert_eq!(parse_number("FFFFFFFF", 16, 0xffff_ffff), Some(0xffff_ffff));
    assert_eq!(parse_number("100000000", 16, 0xffff_ffff), None);
    assert_eq!(split_commas(""), vec![String::new()]);
    assert_eq!(split_commas("a,b"), vec!["a".to_string(), "b".to_string()]);
    assert_eq!(split_commas("a,"), vec!["a".to_string(), String::new()]);
}

#[test]
fn han_text_obfuscation() {
    let input = "汉字 text 龥";
    for _ in 0..50 {
        let out = miragend::obfuscation::obfuscate_text(input);
        let a: Vec<char> = input.chars().collect();
        let b: Vec<char> = out.chars().collect();
        assert_eq!(a.len(), b.len());
        for (x, y) in a.iter().zip(b.iter()) {
            if ('\u{4e00}'..='\u{9fa5}').contains(x) {
                assert!(('\u{4e00}'..='\u{9fa4}').contains(y));
            } else {
                assert_eq!(x, y);
            }
        }
    }
}

#[test]
fn draw_to_character() {
    assert_eq!(char_from_draw(0x41), 'A');
    assert_eq!(char_from_draw(0x4e00), '\u{4e00}');
    assert_eq!(char_from_draw(0xd800), '?');
    assert_eq!(char_from_draw(0xdfff), '?');
    assert_eq!(char_from_draw(0x110000), '?');
    assert_eq!(char_from_draw(0x10ffff), '\u{10ffff}');
}
