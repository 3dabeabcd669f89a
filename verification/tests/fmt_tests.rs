use strfmt::fmtstr;
use strfmt::parser;
use strfmt::{Alignment, FmtError, Formatter, Sign};

#[test]
fn fmtstr_test_write_char() {
    let mut s = String::from("h ");
    let mut f = Formatter::from_str("{}").unwrap();
    fmtstr::write_char(&mut f, 'f', 3);
    s.push_str(&f.output());
    assert!(s == "h fff");
}

#[test]
fn fmtstr_test_write_from() {
    let mut s = String::from("h ");
    {
        let mut f = Formatter::from_str("{}").unwrap();
        fmtstr::write_from(&mut f, &"fff".chars().collect(), 5);
        s.push_str(&f.output());
    }
    assert!(s == "h fff");
    {
        let mut f = Formatter::from_str("{}").unwrap();
        fmtstr::write_from(&mut f, &"xxxx".chars().collect(), 2);
        s.push_str(&f.output());
    }
    assert!(s == "h fffxx");
    {
        let mut f = Formatter::from_str("{}").unwrap();
        fmtstr::write_from(&mut f, &"333".chars().collect(), 3);
        s.push_str(&f.output());
    }
    assert!(s == "h fffxx333");
    s.clear();
    {
        let mut f = Formatter::from_str("{}").unwrap();
        fmtstr::write_from(&mut f, &"hello".chars().collect(), 5);
        s.push_str(&f.output());
    }
    assert!(s == "hello");
}

#[test]
fn parser_test_write_char() {
    let mut s = String::new();
    s.push_str("h ");
    parser::write_char(&mut s, 'f', 3);
    assert!(s == "h fff");
}

#[test]
fn parser_test_write_from() {
    let mut s = String::new();
    s.push_str("h ");
    parser::write_from(&mut s, &"fff".chars().collect(), 5);
    assert!(s == "h fff");
    parser::write_from(&mut s, &"xxxx".chars().collect(), 2);
    assert!(s == "h fffxx");
    parser::write_from(&mut s, &"333".chars().collect(), 3);
    assert!(s == "h fffxx333");
}

#[test]
fn test_fmt_from_str() {
    {
        let f = Formatter::from_str("x:<.3").unwrap();
        // defaults
        assert_eq!(f.fill(), ' ');
        assert_eq!(f.sign(), Sign::Unspecified);
        assert_eq!(f.alternate(), false);
        assert_eq!(f.width(), None);
        assert_eq!(f.thousands(), false);
        assert_eq!(f.ty(), None);

        // specified
        assert_eq!(f.key.as_str(), "x");
        assert_eq!(f.precision().unwrap(), 3);
        assert_eq!(f.align(), Alignment::Left);
    }
    assert!(Formatter::from_str("x:^.3").is_ok());
    assert!(Formatter::from_str("xxx: <88.3").is_ok());
    assert!(Formatter::from_str("xxx:  <88.3").is_err());
    assert!(Formatter::from_str("xxx:a34").is_err());
}

#[test]
fn test_fmt_parse_errors() {
    // a dot with no digits after it
    assert!(matches!(
        Formatter::from_str("x:."),
        Err(FmtError::Invalid(_))
    ));
    // a width that does not fit any integer type
    assert!(matches!(
        Formatter::from_str("x:99999999999999999999"),
        Err(FmtError::Invalid(_))
    ));
    // a precision that does not fit any integer type
    assert!(matches!(
        Formatter::from_str("x:.99999999999999999999"),
        Err(FmtError::Invalid(_))
    ));
    // more than one character after the precision
    assert!(matches!(
        Formatter::from_str("x:5.2xx"),
        Err(FmtError::Invalid(_))
    ));
    // the thousands flag with an incompatible type letter
    assert!(matches!(
        Formatter::from_str("x:,x"),
        Err(FmtError::Invalid(_))
    ));
    // the thousands flag with a compatible type letter parses
    assert!(Formatter::from_str("x:,d").is_ok());
    // an empty identifier
    assert!(matches!(
        Formatter::from_str(":>3"),
        Err(FmtError::Invalid(_))
    ));
}

#[test]
fn test_fmt_legacy_zero() {
    // a leading zero that is not an explicit fill turns into zero fill
    // with the legacy sign-aware alignment
    let f = Formatter::from_str("x:05").unwrap();
    assert_eq!(f.fill(), '0');
    assert_eq!(f.align(), Alignment::Equal);
    assert_eq!(f.width(), Some(5));
    // an explicit zero fill keeps its written alignment
    let f = Formatter::from_str("x:0<5").unwrap();
    assert_eq!(f.fill(), '0');
    assert_eq!(f.align(), Alignment::Left);
    // a lone alignment token keeps the default fill
    let f = Formatter::from_str("x:>05").unwrap();
    assert_eq!(f.fill(), '0');
    assert_eq!(f.align(), Alignment::Right);
}

#[test]
fn test_sign_accessors() {
    let f = Formatter::from_str("x:+").unwrap();
    assert_eq!(f.sign(), Sign::Plus);
    assert!(f.sign_plus());
    assert!(!f.sign_minus());
    assert!(f.sign().is_unspecified());
    let f = Formatter::from_str("x:-").unwrap();
    assert_eq!(f.sign(), Sign::Minus);
    assert!(!f.sign_plus());
    assert!(f.sign_minus());
    assert!(f.sign().is_unspecified());
    let f = Formatter::from_str("x:").unwrap();
    assert_eq!(f.sign(), Sign::Unspecified);
    assert!(!f.sign_plus());
    assert!(!f.sign_minus());
    assert!(!f.sign().is_unspecified());
}
