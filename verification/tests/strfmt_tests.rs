use std::collections::HashMap;

use strfmt::{strfmt, strfmt_map, FmtError, Formatter};

fn run_tests<T>(
    values: &Vec<(&str, &str, u8)>,
    vars: &HashMap<String, T>,
    call: &dyn Fn(&str, &HashMap<String, T>) -> Result<String, FmtError>,
) {
    for &(fmtstr, expected, expect_err) in values.iter() {
        let result = call(fmtstr, vars);
        let mut failure = match expect_err {
            0 => result.is_err(),
            1 => !matches!(result, Err(FmtError::Invalid(_))),
            2 => !matches!(result, Err(FmtError::KeyError(_))),
            3 => !matches!(result, Err(FmtError::TypeError(_))),
            c => panic!("error code {} DNE", c),
        };
        let result = match result {
            Err(e) => e.display(),
            Ok(s) => s,
        };
        if !failure && expect_err == 0 {
            failure = expected != result;
        }
        if failure {
            println!("FAIL:");
            println!("     input: {:?}", fmtstr);
            println!("    output: {:?}", result);
            if expect_err != 0 {
                let expected = match expect_err {
                    1 => "FmtError::Invalid",
                    2 => "FmtError::KeyError",
                    3 => "FmtError::TypeError",
                    _ => unreachable!(),
                };
                println!("  expected: {}", expected);
            } else {
                println!("  expected: {:?}", expected);
            }
            assert!(false);
        }
    }
}

#[test]
fn test_values() {
    let mut vars: HashMap<String, String> = HashMap::new();
    let too_long = "toooloooong".to_string();
    let rust_unicode = format!(">{:^7}<", "\u{0ca0}_\u{0ca0}");
    vars.insert("x".to_string(), "X".to_string());
    vars.insert("long".to_string(), too_long.clone());
    vars.insert("hi".to_string(), "hi".to_string());
    vars.insert("unicode".to_string(), "\u{0ca0}_\u{0ca0}".to_string());

    // format, expected, error
    // error codes: 0 == no error, 1 == Invalid, 2 == KeyError, 3 == TypeError
    let values: Vec<(&str, &str, u8)> = vec![
        // simple positioning
        ("{x}", "X", 0),
        ("{x:}", "X", 0),
        ("{x:3}", "X  ", 0),
        ("{x:>3}", "  X", 0),
        ("{x:<3}", "X  ", 0),
        ("{x:^3}", " X ", 0),
        ("{x:^4}", " X  ", 0),
        // extra text
        (" {x}yz", " Xyz", 0),
        (" hi {x:^4}-you rock", " hi  X  -you rock", 0),
        // unicode
        (">{unicode:^7}<", ">  \u{0ca0}_\u{0ca0}  <", 0),
        (">{unicode:^7}<", &rust_unicode, 0),
        ("{unicode:<5}", "\u{0ca0}_\u{0ca0}  ", 0),
        ("{unicode:>5}", "  \u{0ca0}_\u{0ca0}", 0),
        // fill confusion
        ("{x:10}", "X         ", 0),
        ("{x:>10}", "         X", 0),
        ("{x:0<5}", "X0000", 0),
        ("{x:0>5}", "0000X", 0),
        ("{long:.3}", "too", 0),
        ("{long:5.3}", "too  ", 0),
        ("{long:>5.3}", "  too", 0),
        ("{long:5.7}", "toooloo", 0),
        ("{long:<5.7}", "toooloo", 0),
        ("{long:>5.7}", "toooloo", 0),
        ("{long:^5.7}", "toooloo", 0),
        ("{long:<}", &too_long, 0),
        ("{long:<<}", &too_long, 0),
        ("{long:<<5}", &too_long, 0),
        // valid types
        ("{x:<4s}", "X   ", 0),
        // escape
        ("{{}}", "{}", 0),
        ("{{long}}", "{long}", 0),
        ("{{{x}}}", "{X}", 0),
        // fun
        ("{x:<>}", "X", 0),
        ("{x:<>3}", "<<X", 0),
        ("{{}}", "{}", 0),
        ("{{{x}}}", "{X}", 0),
        ("{{{x}{{{{{{", "{X{{{", 0),
        ("{x}}}}}", "X}}", 0),
        // invalid fmt
        ("{}", "", 1),
        ("{:3}", "", 1),
        ("{xxx:  <88.3}", "", 1),
        // invalid escape
        ("}", "", 1),
        ("{{}}}", "", 1),
        ("hi } there", "", 1),
        ("hi }", "", 1),
        ("w { ho", "", 1),
        // invalid keys
        ("{what}", "{}", 2),
        ("{who}", "{}", 2),
        ("{x} {where}", "{}", 2),
        // invalid types: an unrecognized type letter is a structural error
        ("{x:<<<}", "", 1),
        ("{x:*}", "", 1),
        ("{x::}", "", 1),
        // options incompatible with strings
        ("{x:#}", "", 3),
        ("{x:<4n}", "", 3),
        ("{x:<4d}", "", 3),
        ("{x:,}", "", 3),
        ("{x:<-10}", "", 3),
        // legacy zero padding is recognized but unsupported
        ("{x:0=5}", "00X00", 1),
        ("{x:03}", "00X", 1),
    ];

    run_tests(&values, &vars, &strfmt);
}

#[test]
fn test_ints_basic() {
    let mut vars: HashMap<String, u64> = HashMap::new();
    vars.insert("x".to_string(), 6);
    vars.insert("long".to_string(), 100000);
    vars.insert("hi".to_string(), 42);

    let values: Vec<(&str, &str, u8)> = vec![
        ("{x}", "6", 0),
        ("{long}", "100000", 0),
        (
            " the answer is {hi}, haven't you read anything?",
            " the answer is 42, haven't you read anything?",
            0,
        ),
    ];

    run_tests(&values, &vars, &strfmt);
}

#[test]
fn test_ignore_missing() {
    let mut vars: HashMap<String, String> = HashMap::new();
    vars.insert("x".to_string(), "X".to_string());
    let values: Vec<(&str, &str, u8)> = vec![
        ("{y}", "{y}", 0),
        ("{y} {x}", "{y} X", 0),
        (
            "{x} {longish:<32.3} {x} is nice",
            "X {longish:<32.3} X is nice",
            0,
        ),
    ];
    let f = |mut fmt: Formatter| -> Result<Formatter, FmtError> {
        match vars.get(&fmt.key) {
            Some(v) => fmt.str(v)?,
            None => fmt.skip()?,
        }
        Ok(fmt)
    };

    let strfmt_ignore = |fmtstr: &str,
                         _vars: &HashMap<String, String>|
     -> Result<String, FmtError> { strfmt_map(fmtstr, &f) };
    run_tests(&values, &vars, &strfmt_ignore);
}
