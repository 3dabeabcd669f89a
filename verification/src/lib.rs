//! A string-templating engine in the style of Python's `str.format`.
//!
//! A template holds literal text and brace-delimited placeholders such as
//! `{name}` or `{x:>8.3}`.  Formatting a template substitutes each
//! placeholder by the looked-up value, padded and aligned according to the
//! placeholder's format specifier; `{{` and `}}` stand for literal braces.

use std::collections::HashMap;
use std::hash::Hash;
use std::str::FromStr;

use vstd::prelude::*;
use vstd::string::StringExecFns;

pub mod chars;
pub mod fmtnum;
pub mod fmtstr;
pub mod formatter;
pub mod laws;
pub mod maptrait;
pub mod parser;
pub mod scan;
pub mod specs;
pub mod types;

pub use fmtstr::strfmt_map;
pub use formatter::Formatter;
pub use maptrait::KeyToValue;
pub use parser::{strfmt_options, FmtChunk};
pub use types::{Alignment, FmtError, Sign};

use crate::specs::{all_literals, lit_concat, scan};
use crate::types::ErrModel;

verus! {

/// Values that can render themselves into a [`Formatter`].
///
/// The engine knows strings and the integer widths; anything else can take
/// part in formatting by implementing this trait and calling one of the
/// formatter's rendering methods.  A renderer reports `Invalid` or
/// `TypeError` faults; key errors belong to the lookup layer, so an
/// implementation never produces one.
pub trait DisplayStr {
    fn display_str(&self, f: &mut Formatter) -> (r: Result<(), FmtError>)
        ensures
            r matches Err(e) ==> !(e@ is Key),
    ;
}

impl DisplayStr for String {
    fn display_str(&self, f: &mut Formatter) -> Result<(), FmtError> {
        f.str(self.as_str())
    }
}

impl DisplayStr for str {
    fn display_str(&self, f: &mut Formatter) -> Result<(), FmtError> {
        f.str(self)
    }
}

impl DisplayStr for u8 {
    fn display_str(&self, f: &mut Formatter) -> Result<(), FmtError> {
        f.u8(*self)
    }
}

impl DisplayStr for i8 {
    fn display_str(&self, f: &mut Formatter) -> Result<(), FmtError> {
        f.i8(*self)
    }
}

impl DisplayStr for u16 {
    fn display_str(&self, f: &mut Formatter) -> Result<(), FmtError> {
        f.u16(*self)
    }
}

impl DisplayStr for i16 {
    fn display_str(&self, f: &mut Formatter) -> Result<(), FmtError> {
        f.i16(*self)
    }
}

impl DisplayStr for u32 {
    fn display_str(&self, f: &mut Formatter) -> Result<(), FmtError> {
        f.u32(*self)
    }
}

impl DisplayStr for i32 {
    fn display_str(&self, f: &mut Formatter) -> Result<(), FmtError> {
        f.i32(*self)
    }
}

impl DisplayStr for u64 {
    fn display_str(&self, f: &mut Formatter) -> Result<(), FmtError> {
        f.u64(*self)
    }
}

impl DisplayStr for i64 {
    fn display_str(&self, f: &mut Formatter) -> Result<(), FmtError> {
        f.i64(*self)
    }
}

impl DisplayStr for usize {
    fn display_str(&self, f: &mut Formatter) -> Result<(), FmtError> {
        f.usize(*self)
    }
}

impl DisplayStr for isize {
    fn display_str(&self, f: &mut Formatter) -> Result<(), FmtError> {
        f.isize(*self)
    }
}

/// The key error for an identifier that names no value.
pub(crate) fn new_key_error(key: &str) -> (r: FmtError)
    ensures
        r@ == ErrModel::Key("Invalid key: "@ + key@),
{
    let mut msg = "Invalid key: ".to_owned();
    msg.append(key);
    FmtError::KeyError(msg)
}

/// Relies on `str::parse`: the key text converted to `K` by its `FromStr`
/// implementation, or nothing when that implementation rejects the text.
#[verifier::external_body]
pub(crate) fn parse_key<K: FromStr>(s: &String) -> (r: Option<K>) {
    s.as_str().parse().ok()
}

/// Formats a template against a map of variables: each placeholder's
/// identifier is parsed into a key of the map, and the looked-up value
/// renders itself under the placeholder's specifier.
///
/// A structurally invalid template is rejected with an `Invalid` error; an
/// identifier that parses into no key, or into a key the map does not
/// hold, aborts with a `KeyError`; a specifier incompatible with the
/// value's kind aborts with the renderer's error.  A template of literal
/// text and escapes only formats to exactly that text, whatever the map
/// holds.
pub fn strfmt<K: Hash + Eq + FromStr, T: DisplayStr>(fmtstr: &str, vars: &HashMap<K, T>) -> (r:
    Result<String, FmtError>)
    ensures
        r is Ok ==> scan(fmtstr@).1 is Done,
        !(scan(fmtstr@).1 is Done) ==> r is Err,
        scan(fmtstr@).1 is Done && all_literals(scan(fmtstr@).0) ==> (r matches Ok(out) && out@
            == lit_concat(scan(fmtstr@).0)),
        (exists|j: int|
            0 <= j < scan(fmtstr@).0.len() && (#[trigger] scan(fmtstr@).0[j]) is Ph
                && crate::specs::spec_from_str(scan(fmtstr@).0[j]->Ph_0) is Err) ==> r is Err,
        match r {
            Err(e) => e@ is Key ==> exists|j: int|
                0 <= j < scan(fmtstr@).0.len() && (#[trigger] scan(fmtstr@).0[j]) is Ph && (
                crate::specs::spec_from_str(scan(fmtstr@).0[j]->Ph_0) matches Ok(st) && e@
                    == ErrModel::Key("Invalid key: "@ + st.key)),
            Ok(_) => true,
        },
{
    let f = |fmt: Formatter| -> (r: Result<Formatter, FmtError>)
        ensures
            match r {
                Err(e) => e@ is Key ==> e@ == ErrModel::Key("Invalid key: "@ + fmt@.key),
                Ok(_) => true,
            },
        {
            let mut fm = fmt;
            let key = fm.key_string();
            match parse_key::<K>(&key) {
                None => Err(new_key_error(key.as_str())),
                Some(k) => match vars.get(&k) {
                    Some(v) => match v.display_str(&mut fm) {
                        Ok(_) => Ok(fm),
                        Err(e) => Err(e),
                    },
                    None => Err(new_key_error(key.as_str())),
                },
            }
        };
    let r = strfmt_map(fmtstr, &f);
    proof {
        match &r {
            Err(e) => {
                if e@ is Key {
                    // the scanner's and the parser's faults are `Invalid`,
                    // so a key error can only have come from the callback
                    let (j, fm1) = choose|j: int, fm1: Formatter|
                        #![trigger scan(fmtstr@).0[j], call_ensures(f, (fm1,), Err::<Formatter, FmtError>(*e))]
                        0 <= j < scan(fmtstr@).0.len() && scan(fmtstr@).0[j] is Ph
                            && crate::specs::spec_from_str(scan(fmtstr@).0[j]->Ph_0) == Ok::<
                            crate::specs::FmtState,
                            Seq<char>,
                        >(fm1@) && call_ensures(f, (fm1,), Err::<Formatter, FmtError>(*e));
                    assert(e@ == ErrModel::Key("Invalid key: "@ + fm1@.key));
                }
            },
            Ok(_) => {},
        }
    }
    r
}

/// Formats a template against a map of variables whose values render
/// through `Display`.  Kept for compatibility: a value's precision is
/// applied to its displayed text as character truncation, so numbers
/// format as strings do.
pub fn strfmt_display<K: Hash + Eq + FromStr, T: core::fmt::Display>(
    fmtstr: &str,
    vars: &HashMap<K, T>,
) -> (r: Result<String, FmtError>)
    ensures
        r is Ok ==> scan(fmtstr@).1 is Done,
        !(scan(fmtstr@).1 is Done) ==> r is Err,
        scan(fmtstr@).1 is Done && all_literals(scan(fmtstr@).0) ==> (r matches Ok(out) && out@
            == lit_concat(scan(fmtstr@).0)),
        (exists|j: int|
            0 <= j < scan(fmtstr@).0.len() && (#[trigger] scan(fmtstr@).0[j]) is Ph
                && crate::specs::spec_from_str(scan(fmtstr@).0[j]->Ph_0) is Err) ==> r is Err,
        match r {
            Err(e) => e@ is Key ==> exists|j: int|
                0 <= j < scan(fmtstr@).0.len() && (#[trigger] scan(fmtstr@).0[j]) is Ph && (
                crate::specs::spec_from_str(scan(fmtstr@).0[j]->Ph_0) matches Ok(st) && e@
                    == ErrModel::Key("Invalid key: "@ + st.key)),
            Ok(_) => true,
        },
{
    let f = |fmt: Formatter| -> (r: Result<Formatter, FmtError>)
        ensures
            match r {
                Err(e) => e@ is Key ==> e@ == ErrModel::Key("Invalid key: "@ + fmt@.key),
                Ok(_) => true,
            },
        {
            let mut fm = fmt;
            let key = fm.key_string();
            match parse_key::<K>(&key) {
                None => Err(new_key_error(key.as_str())),
                Some(k) => match vars.get(&k) {
                    Some(v) => {
                        let text = v.to_string();
                        match fm.str(text.as_str()) {
                            Ok(_) => Ok(fm),
                            Err(e) => Err(e),
                        }
                    },
                    None => Err(new_key_error(key.as_str())),
                },
            }
        };
    let r = strfmt_map(fmtstr, &f);
    proof {
        match &r {
            Err(e) => {
                if e@ is Key {
                    // the scanner's and the parser's faults are `Invalid`,
                    // so a key error can only have come from the callback
                    let (j, fm1) = choose|j: int, fm1: Formatter|
                        #![trigger scan(fmtstr@).0[j], call_ensures(f, (fm1,), Err::<Formatter, FmtError>(*e))]
                        0 <= j < scan(fmtstr@).0.len() && scan(fmtstr@).0[j] is Ph
                            && crate::specs::spec_from_str(scan(fmtstr@).0[j]->Ph_0) == Ok::<
                            crate::specs::FmtState,
                            Seq<char>,
                        >(fm1@) && call_ensures(f, (fm1,), Err::<Formatter, FmtError>(*e));
                    assert(e@ == ErrModel::Key("Invalid key: "@ + fm1@.key));
                }
            },
            Ok(_) => {},
        }
    }
    r
}

/// A shorthand for formatting a template held by a string.
pub trait Format {
    /// Formats `self` as a template against `vars`; see [`strfmt`].
    fn format<K: Hash + Eq + FromStr, D: DisplayStr>(&self, vars: &HashMap<K, D>) -> Result<
        String,
        FmtError,
    >;

    /// Formats `self` as a template against `vars`; see [`strfmt_display`].
    fn format_display<K: Hash + Eq + FromStr, D: core::fmt::Display>(
        &self,
        vars: &HashMap<K, D>,
    ) -> Result<String, FmtError>;
}

impl Format for String {
    fn format<K: Hash + Eq + FromStr, D: DisplayStr>(&self, vars: &HashMap<K, D>) -> Result<
        String,
        FmtError,
    > {
        strfmt(self.as_str(), vars)
    }

    fn format_display<K: Hash + Eq + FromStr, D: core::fmt::Display>(
        &self,
        vars: &HashMap<K, D>,
    ) -> Result<String, FmtError> {
        strfmt_display(self.as_str(), vars)
    }
}

impl Format for str {
    fn format<K: Hash + Eq + FromStr, D: DisplayStr>(&self, vars: &HashMap<K, D>) -> Result<
        String,
        FmtError,
    > {
        strfmt(self, vars)
    }

    fn format_display<K: Hash + Eq + FromStr, D: core::fmt::Display>(
        &self,
        vars: &HashMap<K, D>,
    ) -> Result<String, FmtError> {
        strfmt_display(self, vars)
    }
}

} // verus!
