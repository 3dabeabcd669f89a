use std::collections::HashMap;
use std::str::FromStr;

use strfmt::{strfmt, strfmt_map, DisplayStr, FmtError, Format, Formatter};

fn render_f64(fmt: &Formatter, x: f64) -> String {
    let ty = match fmt.ty() {
        Some(c) => c,
        None => 'f',
    };
    match fmt.precision() {
        Some(p) => match ty {
            'e' => format!("{:.*e}", p, x),
            'E' => format!("{:.*E}", p, x),
            _ => format!("{:.*}", p, x),
        },
        None => match ty {
            'e' => format!("{:e}", x),
            'E' => format!("{:E}", x),
            _ => format!("{}", x),
        },
    }
}

#[test]
fn it_works() {
    let mut vars = HashMap::new();
    vars.insert("name".to_string(), "bob".to_string());
    vars.insert("job".to_string(), "python developer".to_string());

    let fmt = "hi, my name is {name} and I am a {job}!".to_string();
    assert!(strfmt(&fmt, &vars).unwrap() == "hi, my name is bob and I am a python developer!");

    let mut vars: HashMap<String, f64> = HashMap::new();
    vars.insert("x".to_string(), 42.4242);
    vars.insert("y".to_string(), -100.11111);
    vars.insert("z".to_string(), 0.);

    let f = |mut fmt: Formatter| -> Result<Formatter, FmtError> {
        let v = *vars.get(&fmt.key).unwrap();
        let text = render_f64(&fmt, v);
        fmt.float_str(v >= 0.0, &text)?;
        Ok(fmt)
    };
    assert_eq!(strfmt_map("{x:<7.2}", &f).unwrap(), "42.42  ");
    assert_eq!(strfmt_map("{y:+.2E}", &f).unwrap(), "-1.00E2");
    assert_eq!(strfmt_map("{z:+.2E}", &f).unwrap(), "+0.00E0");
}

#[test]
fn test_key_u32() {
    let mut vars: HashMap<u32, String> = HashMap::new();
    vars.insert(0, "X".to_string());

    assert_eq!("hi {0}".format(&vars).unwrap(), "hi X");
    assert_eq!("hi {0}".to_string().format(&vars).unwrap(), "hi X");
    assert_eq!(
        "hi {1}".format(&vars),
        Err(FmtError::KeyError("Invalid key: 1".into()))
    );
    assert_eq!(
        "hi {you}".format(&vars),
        Err(FmtError::KeyError("Invalid key: you".into()))
    );
}

#[test]
fn test_key_i32() {
    let mut vars: HashMap<i32, String> = HashMap::new();
    vars.insert(-1, "X".to_string());

    assert_eq!("hi {-1}".format(&vars).unwrap(), "hi X");
    assert_eq!("hi {-1}".to_string().format(&vars).unwrap(), "hi X");
    assert_eq!(
        "hi {1}".format(&vars),
        Err(FmtError::KeyError("Invalid key: 1".into()))
    );
    assert_eq!(
        "hi {you}".format(&vars),
        Err(FmtError::KeyError("Invalid key: you".into()))
    );
}

#[derive(PartialEq, Eq, Hash)]
enum Key {
    Zero,
    One,
    Two,
}

impl FromStr for Key {
    type Err = FmtError;

    fn from_str(s: &str) -> Result<Self, FmtError> {
        match s {
            "Zero" => Ok(Key::Zero),
            "One" => Ok(Key::One),
            "Two" => Ok(Key::Two),
            _ => Err(FmtError::KeyError(s.to_string())),
        }
    }
}

#[test]
fn test_key_enum() {
    let mut vars: HashMap<Key, String> = HashMap::new();
    vars.insert(Key::Zero, "X".to_string());

    assert_eq!("hi {Zero}".format(&vars).unwrap(), "hi X");
    assert_eq!("hi {Zero}".to_string().format(&vars).unwrap(), "hi X");
    assert_eq!(
        "hi {One}".format(&vars),
        Err(FmtError::KeyError("Invalid key: One".into()))
    );
    assert_eq!(
        "hi {you}".format(&vars),
        Err(FmtError::KeyError("Invalid key: you".into()))
    );
}

#[test]
fn test_trait() {
    let mut vars: HashMap<String, String> = HashMap::new();
    vars.insert("x".to_string(), "X".to_string());

    assert_eq!("hi {x}".format(&vars).unwrap(), "hi X");
    assert_eq!("hi {x}".to_string().format(&vars).unwrap(), "hi X");
}

enum Het {
    Text(&'static str),
    Num(f64),
}

impl DisplayStr for Het {
    fn display_str(&self, f: &mut Formatter) -> Result<(), FmtError> {
        match self {
            Het::Text(s) => f.str(s),
            Het::Num(x) => {
                let text = render_f64(f, *x);
                f.float_str(*x >= 0.0, &text)
            },
        }
    }
}

#[test]
fn test_heterogenous_values() {
    let mut data: HashMap<String, Het> = HashMap::new();
    data.insert("body".to_string(), Het::Text("someString"));
    data.insert("some_number".to_string(), Het::Num(5.0));

    let output = strfmt("{body} = {some_number:2.4}", &data).unwrap();

    assert_eq!(output, "someString = 5.0000");
}

#[test]
fn test_macros() -> Result<(), FmtError> {
    let first = "test";
    let second = 2;

    let mut vars: HashMap<String, Het2> = HashMap::new();
    vars.insert("first".to_string(), Het2::Text(first));
    assert_eq!("test", strfmt("{first}", &vars)?);

    vars.insert("second".to_string(), Het2::Int(second));
    assert_eq!("test2", strfmt("{first}{second}", &vars)?);

    vars.insert("third".to_string(), Het2::Num(77.6543210));
    assert_eq!("test77.65  ", strfmt("{first}{third:<7.2}", &vars)?);
    assert_eq!("test  77.65", strfmt("{first}{third:7.2}", &vars)?);
    Ok(())
}

enum Het2 {
    Text(&'static str),
    Int(i32),
    Num(f64),
}

impl DisplayStr for Het2 {
    fn display_str(&self, f: &mut Formatter) -> Result<(), FmtError> {
        match self {
            Het2::Text(s) => f.str(s),
            Het2::Int(x) => f.i32(*x),
            Het2::Num(x) => {
                let text = render_f64(f, *x);
                f.float_str(*x >= 0.0, &text)
            },
        }
    }
}

#[test]
fn test_error() {
    // just make sure this renders
    let err = FmtError::Invalid("fmt error".to_string());
    let v = err.display();
    println!("{}", v);
    assert_eq!(v, "Invalid(fmt error)");
}
