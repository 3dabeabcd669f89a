use std::collections::HashMap;

use strfmt::{strfmt, strfmt_options, FmtChunk, FmtError};

fn string_vars() -> HashMap<String, String> {
    let mut vars: HashMap<String, String> = HashMap::new();
    vars.insert("x".to_string(), "X".to_string());
    vars.insert("long".to_string(), "toooloooong".to_string());
    vars
}

#[test]
fn test_options_strict() {
    let vars = string_vars();
    assert_eq!(strfmt_options("{x}", &vars, false).unwrap(), "X");
    assert_eq!(strfmt_options("a{x:^3}b", &vars, false).unwrap(), "a X b");
    assert_eq!(strfmt_options("{long:.3}", &vars, false).unwrap(), "too");
    // the key error of this entry point carries the identifier itself
    assert_eq!(
        strfmt_options("{nope}", &vars, false),
        Err(FmtError::KeyError("nope".into()))
    );
    // structural errors abort in both modes
    assert!(matches!(
        strfmt_options("open {", &vars, true),
        Err(FmtError::Invalid(_))
    ));
    assert!(matches!(
        strfmt_options("close }", &vars, true),
        Err(FmtError::Invalid(_))
    ));
}

#[test]
fn test_options_ignore_missing() {
    let vars = string_vars();
    assert_eq!(strfmt_options("{nope}", &vars, true).unwrap(), "{nope}");
    assert_eq!(
        strfmt_options("{x} {longish:<32.3} {x} is nice", &vars, true).unwrap(),
        "X {longish:<32.3} X is nice"
    );
    // escapes still collapse around ignored placeholders
    assert_eq!(
        strfmt_options("{{{nope}}}", &vars, true).unwrap(),
        "{{nope}}"
    );
}

#[test]
fn test_options_no_type_checks() {
    // this older entry point renders every found value as a string and
    // makes none of the per-kind compatibility checks
    let vars = string_vars();
    assert_eq!(strfmt_options("{x:<4d}", &vars, false).unwrap(), "X   ");
    // but the legacy zero-padding position is still rejected
    assert!(matches!(
        strfmt_options("{x:05}", &vars, false),
        Err(FmtError::Invalid(_))
    ));
}

#[test]
fn test_chunk_write() {
    let vars = string_vars();
    let chunk = FmtChunk::from_str("x:>4").unwrap();
    assert_eq!(chunk.identifier.as_str(), "x");
    let mut out = String::from(">>");
    chunk.write(&mut out, &vars).unwrap();
    assert_eq!(out, ">>   X");
    let missing = FmtChunk::from_str("gone").unwrap();
    let mut out2 = String::new();
    assert_eq!(
        missing.write(&mut out2, &vars),
        Err(FmtError::KeyError("gone".into()))
    );
    assert_eq!(out2, "");
}

#[test]
fn test_no_brace_identity() {
    // templates without braces come back unchanged, in both modes
    let vars = string_vars();
    let empty: HashMap<String, String> = HashMap::new();
    let plain = "just some plain text, no placeholders at all";
    assert_eq!(strfmt_options(plain, &vars, false).unwrap(), plain);
    assert_eq!(strfmt_options(plain, &empty, true).unwrap(), plain);
    assert_eq!(strfmt(plain, &empty).unwrap(), plain);
}

#[test]
fn test_escape_round_trip() {
    // brace escapes collapse to literal braces in any surrounding context
    let empty: HashMap<String, String> = HashMap::new();
    assert_eq!(strfmt("{{}}", &empty).unwrap(), "{}");
    assert_eq!(strfmt("a{{b}}c", &empty).unwrap(), "a{b}c");
    assert_eq!(strfmt("{{{{}}}}", &empty).unwrap(), "{{}}");
    assert_eq!(strfmt_options("x {{ y }} z", &empty, false).unwrap(), "x { y } z");
}
