use std::collections::HashMap;

use strfmt::{strfmt, FmtError, Format, Formatter};

#[test]
fn test_uint_values() {
    let mut vars: HashMap<String, u64> = HashMap::new();
    vars.insert("x".to_string(), 42);
    vars.insert("y".to_string(), 0);

    let cases: Vec<(&str, &str)> = vec![
        ("{x}", "42"),
        ("{x:<7}", "42     "),
        ("{x:>7}", "     42"),
        ("{x:^7}", "  42   "),
        ("{x:7}", "     42"),
        ("{x:x}", "2a"),
        ("{x:X}", "2A"),
        ("{x:+x}", "+2a"),
        ("{x:#x}", "0x2a"),
        ("{x:#X}", "0x2A"),
        ("{x:b}", "101010"),
        ("{x:#b}", "0b101010"),
        ("{x:o}", "52"),
        ("{x:#o}", "0o52"),
        ("{x:+}", "+42"),
        ("{y:-}", "0"),
        ("{y:+}", "+0"),
    ];
    for (t, expected) in cases {
        assert_eq!(strfmt(t, &vars).unwrap(), expected, "template {}", t);
    }

    assert!(matches!(
        strfmt("{x:.2}", &vars),
        Err(FmtError::TypeError(_))
    ));
    assert!(matches!(
        strfmt("{x:s}", &vars),
        Err(FmtError::TypeError(_))
    ));
    assert!(matches!(
        strfmt("{x:+010}", &vars),
        Err(FmtError::Invalid(_))
    ));
    assert!(matches!(strfmt("{x:,}", &vars), Err(FmtError::Invalid(_))));
    assert!(matches!(
        strfmt("{x:#}", &vars),
        Err(FmtError::TypeError(_))
    ));
}

#[test]
fn test_int_values() {
    let mut vars: HashMap<String, i64> = HashMap::new();
    vars.insert("x".to_string(), 42);
    vars.insert("y".to_string(), -100);
    vars.insert("z".to_string(), 0);
    vars.insert("m".to_string(), i64::MIN);

    let cases: Vec<(&str, &str)> = vec![
        ("{x}", "42"),
        ("{x:<7}", "42     "),
        ("{x:X}", "2A"),
        ("{x:#x}", "0x2a"),
        ("{x:#X}", "0x2A"),
        ("{x:b}", "101010"),
        ("{x:#b}", "0b101010"),
        ("{x:o}", "52"),
        ("{x:#o}", "0o52"),
        ("{x:+}", "+42"),
        ("{y}", "-100"),
        ("{y:+}", "-100"),
        ("{z}", "0"),
        ("{z:-}", "0"),
        ("{z:+}", "+0"),
        // binary, octal and hex render the two's-complement bit pattern
        ("{y:x}", "ffffffffffffff9c"),
        ("{m}", "-9223372036854775808"),
        ("{m:x}", "8000000000000000"),
    ];
    for (t, expected) in cases {
        assert_eq!(strfmt(t, &vars).unwrap(), expected, "template {}", t);
    }

    assert!(matches!(
        strfmt("{x:.2}", &vars),
        Err(FmtError::TypeError(_))
    ));
    assert!(matches!(
        strfmt("{x:s}", &vars),
        Err(FmtError::TypeError(_))
    ));
    assert!(matches!(
        strfmt("{x:+010}", &vars),
        Err(FmtError::Invalid(_))
    ));
}

#[test]
fn test_int_widths() {
    // the same value renders the same through every integer width
    let mut f = Formatter::from_str("n:#x").unwrap();
    f.u8(0xfe).unwrap();
    assert_eq!(f.output(), "0xfe");
    let mut f = Formatter::from_str("n:x").unwrap();
    f.i8(-1).unwrap();
    assert_eq!(f.output(), "ff");
    let mut f = Formatter::from_str("n:x").unwrap();
    f.i16(-1).unwrap();
    assert_eq!(f.output(), "ffff");
    let mut f = Formatter::from_str("n").unwrap();
    f.u16(65535).unwrap();
    assert_eq!(f.output(), "65535");
    let mut f = Formatter::from_str("n:>6").unwrap();
    f.i32(-128).unwrap();
    assert_eq!(f.output(), "  -128");
    let mut f = Formatter::from_str("n:+").unwrap();
    f.usize(7).unwrap();
    assert_eq!(f.output(), "+7");
    let mut f = Formatter::from_str("n").unwrap();
    f.isize(-7).unwrap();
    assert_eq!(f.output(), "-7");
    let mut f = Formatter::from_str("n:b").unwrap();
    f.u32(5).unwrap();
    assert_eq!(f.output(), "101");
    let mut f = Formatter::from_str("n").unwrap();
    f.u64(18446744073709551615).unwrap();
    assert_eq!(f.output(), "18446744073709551615");
    let mut f = Formatter::from_str("n").unwrap();
    f.i64(-42).unwrap();
    assert_eq!(f.output(), "-42");
}

#[test]
fn test_clear_precision() {
    let mut f = Formatter::from_str("n:.3").unwrap();
    assert_eq!(f.precision(), Some(3));
    f.clear_precision();
    assert_eq!(f.precision(), None);
}

#[test]
fn test_skip_writes_pattern() {
    let mut f = Formatter::from_str("name:>8.2").unwrap();
    f.skip().unwrap();
    assert_eq!(f.output(), "{name:>8.2}");
}
