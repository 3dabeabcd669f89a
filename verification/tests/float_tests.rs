use std::collections::HashMap;

use strfmt::{DisplayStr, FmtError, Format, Formatter};

fn render_f64(fmt: &Formatter, x: f64) -> String {
    let ty = match fmt.ty() {
        Some(c) => c,
        None => 'f',
    };
    match fmt.precision() {
        Some(p) => match ty {
            'e' => format!("{:.*e}", p, x),
            'E' => format!("{:.*E}", p, x),
            _ => format!("{:.*}", p, x),
        },
        None => match ty {
            'e' => format!("{:e}", x),
            'E' => format!("{:E}", x),
            _ => format!("{}", x),
        },
    }
}

fn render_f32(fmt: &Formatter, x: f32) -> String {
    let ty = match fmt.ty() {
        Some(c) => c,
        None => 'f',
    };
    match fmt.precision() {
        Some(p) => match ty {
            'e' => format!("{:.*e}", p, x),
            'E' => format!("{:.*E}", p, x),
            _ => format!("{:.*}", p, x),
        },
        None => match ty {
            'e' => format!("{:e}", x),
            'E' => format!("{:E}", x),
            _ => format!("{}", x),
        },
    }
}

struct Float64(f64);

impl DisplayStr for Float64 {
    fn display_str(&self, f: &mut Formatter) -> Result<(), FmtError> {
        let text = render_f64(f, self.0);
        f.float_str(self.0 >= 0.0, &text)
    }
}

struct Float32(f32);

impl DisplayStr for Float32 {
    fn display_str(&self, f: &mut Formatter) -> Result<(), FmtError> {
        let text = render_f32(f, self.0);
        f.float_str(self.0 >= 0.0, &text)
    }
}

#[test]
fn test_fmt_float64() -> Result<(), FmtError> {
    let mut vars: HashMap<String, Float64> = HashMap::new();
    vars.insert("Zero".to_string(), Float64(0.0));
    vars.insert("Three".to_string(), Float64(10.0 / 3.0));
    vars.insert("Two".to_string(), Float64(2.0));

    assert_eq!("0".to_string(), "{Zero}".format(&vars)?);
    assert_eq!("0.00".to_string(), "{Zero:.2}".format(&vars)?);
    assert_eq!("3.33333".to_string(), "{Three:.5}".format(&vars)?);
    assert_eq!("2".to_string(), "{Two}".format(&vars)?);
    assert_eq!("0.00 ".to_string(), "{Zero:<5.2}".format(&vars)?);

    Ok(())
}

#[test]
fn test_fmt_float32() -> Result<(), FmtError> {
    let mut vars: HashMap<String, Float32> = HashMap::new();
    vars.insert("Zero".to_string(), Float32(0.0));
    vars.insert("Three".to_string(), Float32(10.0 / 3.0));
    vars.insert("Two".to_string(), Float32(2.0));

    assert_eq!("0".to_string(), "{Zero}".format(&vars)?);
    assert_eq!("0.00".to_string(), "{Zero:.2}".format(&vars)?);
    assert_eq!("3.33333".to_string(), "{Three:.5}".format(&vars)?);
    assert_eq!("2".to_string(), "{Two}".format(&vars)?);
    assert_eq!("0.00 ".to_string(), "{Zero:<5.2}".format(&vars)?);

    Ok(())
}

#[test]
fn test_legacy() -> Result<(), FmtError> {
    let mut vars: HashMap<String, f64> = HashMap::new();
    vars.insert("Zero".to_string(), 0.0);
    vars.insert("One".to_string(), 10.0 / 3.0);
    vars.insert("Two".to_string(), 2.0);

    assert_eq!("0".to_string(), "{Zero}".format_display(&vars)?);
    assert_eq!("0".to_string(), "{Zero:.2}".format_display(&vars)?);
    assert_eq!("3.333".to_string(), "{One:.5}".format_display(&vars)?);
    assert_eq!("2".to_string(), "{Two}".format_display(&vars)?);
    assert_eq!("0    ".to_string(), "{Zero:<5.2}".format_display(&vars)?);

    Ok(())
}

#[test]
fn test_float_errors() {
    let mut vars: HashMap<String, Float64> = HashMap::new();
    vars.insert("x".to_string(), Float64(42.4242));
    assert!(matches!(
        "{x:s}".format(&vars),
        Err(FmtError::TypeError(_))
    ));
    assert!(matches!(
        "{x:#}".format(&vars),
        Err(FmtError::TypeError(_))
    ));
    assert!(matches!("{x:,}".format(&vars), Err(FmtError::Invalid(_))));
    assert!(matches!(
        "{x:+010.2}".format(&vars),
        Err(FmtError::Invalid(_))
    ));
}

#[test]
fn test_float_exponents() -> Result<(), FmtError> {
    let mut vars: HashMap<String, Float64> = HashMap::new();
    vars.insert("x".to_string(), Float64(42.4242));
    vars.insert("y".to_string(), Float64(-100.11111));
    vars.insert("z".to_string(), Float64(0.0));

    assert_eq!("42.4242", "{x}".format(&vars)?);
    assert_eq!("42.42", "{x:.2}".format(&vars)?);
    assert_eq!("42.42  ", "{x:<7.2}".format(&vars)?);
    assert_eq!("4.24e1", "{x:.2e}".format(&vars)?);
    assert_eq!("4.24E1", "{x:.2E}".format(&vars)?);
    assert_eq!("+42.4242", "{x:+}".format(&vars)?);
    assert_eq!("-1.00E2", "{y:.2E}".format(&vars)?);
    assert_eq!("-1.00E2", "{y:+.2E}".format(&vars)?);
    assert_eq!("+0.00E0", "{z:+.2E}".format(&vars)?);

    Ok(())
}
