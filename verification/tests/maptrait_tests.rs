use std::collections::HashMap;

use strfmt::maptrait::strfmt_from;
use strfmt::{FmtError, KeyToValue};

#[test]
fn test_key_to_value_hashmap() {
    let mut vars: HashMap<String, String> = HashMap::new();
    vars.insert("x".to_string(), "X".to_string());
    assert_eq!(strfmt_from("hi {x}", &vars).unwrap(), "hi X");
    assert!(matches!(
        strfmt_from("hi {y}", &vars),
        Err(FmtError::KeyError(_))
    ));
}

/// A store that computes its values instead of holding them.
struct Doubler;

impl KeyToValue<String, String> for Doubler {
    fn get<'a>(&'a self, _key: &String) -> Option<&'a String> {
        None
    }

    fn get_owned(&self, key: &String) -> Option<String> {
        Some(format!("{}{}", key, key))
    }
}

#[test]
fn test_key_to_value_owned() {
    assert_eq!(strfmt_from("{ab} {c:^6}", &Doubler).unwrap(), "abab   cc  ");
}
