//! The collaborator contract that supplies values by key: any store that
//! can answer `lookup(key) -> Option<Value>` can back a formatting call.

use std::collections::HashMap;
use std::hash::Hash;
use std::str::FromStr;

use vstd::prelude::*;

use crate::specs::{all_literals, lit_concat, scan, spec_from_str, FmtState};
use crate::types::{ErrModel, FmtError};
use crate::{DisplayStr, Formatter};

verus! {

/// A store of formatting variables.
///
/// Implement either method for a custom store: `get` when the store can
/// hand out references, `get_owned` when it can only produce owned values
/// (the borrowing method is consulted first).
pub trait KeyToValue<K: Hash + Eq, V: DisplayStr> {
    /// The value stored under `key`, borrowed.
    fn get<'a>(&'a self, key: &K) -> Option<&'a V>;

    /// The value stored under `key`, owned.
    fn get_owned(&self, key: &K) -> Option<V>;
}

impl<K: Hash + Eq, V: DisplayStr> KeyToValue<K, V> for HashMap<K, V> {
    fn get<'a>(&'a self, key: &K) -> Option<&'a V> {
        HashMap::get(self, key)
    }

    fn get_owned(&self, key: &K) -> Option<V> {
        None
    }
}

/// Formats a template against any [`KeyToValue`] store: each identifier is
/// parsed into a key, looked up first by reference and then owned, and the
/// value renders itself under the placeholder's specifier.
///
/// A structurally invalid template or an unparsable specifier is rejected
/// with an `Invalid` error; an identifier the store cannot resolve aborts
/// with a `KeyError` naming it.  A template of literal text and escapes
/// only formats to exactly that text, whatever the store holds.
pub fn strfmt_from<K: Hash + Eq + FromStr, V: DisplayStr, M: KeyToValue<K, V>>(
    fmtstr: &str,
    vars: &M,
) -> (r: Result<String, FmtError>)
    ensures
        r is Ok ==> scan(fmtstr@).1 is Done,
        !(scan(fmtstr@).1 is Done) ==> r is Err,
        scan(fmtstr@).1 is Done && all_literals(scan(fmtstr@).0) ==> (r matches Ok(out) && out@
            == lit_concat(scan(fmtstr@).0)),
        (exists|j: int|
            0 <= j < scan(fmtstr@).0.len() && (#[trigger] scan(fmtstr@).0[j]) is Ph
                && spec_from_str(scan(fmtstr@).0[j]->Ph_0) is Err) ==> r is Err,
        match r {
            Err(e) => e@ is Key ==> exists|j: int|
                0 <= j < scan(fmtstr@).0.len() && (#[trigger] scan(fmtstr@).0[j]) is Ph && (
                spec_from_str(scan(fmtstr@).0[j]->Ph_0) matches Ok(st) && e@ == ErrModel::Key(
                    "Invalid key: "@ + st.key,
                )),
            Ok(_) => true,
        },
{
    let f = |fmt: Formatter| -> (r: Result<Formatter, FmtError>)
        ensures
            match r {
                Err(e) => e@ is Key ==> e@ == ErrModel::Key("Invalid key: "@ + fmt@.key),
                Ok(_) => true,
            },
        {
            let mut fm = fmt;
            let key = fm.key_string();
            match crate::parse_key::<K>(&key) {
                None => Err(crate::new_key_error(key.as_str())),
                Some(k) => match vars.get(&k) {
                    Some(v) => match v.display_str(&mut fm) {
                        Ok(_) => Ok(fm),
                        Err(e) => Err(e),
                    },
                    None => match vars.get_owned(&k) {
                        Some(v) => match v.display_str(&mut fm) {
                            Ok(_) => Ok(fm),
                            Err(e) => Err(e),
                        },
                        None => Err(crate::new_key_error(key.as_str())),
                    },
                },
            }
        };
    let r = crate::strfmt_map(fmtstr, &f);
    proof {
        match &r {
            Err(e) => {
                if e@ is Key {
                    // the scanner's and the parser's faults are `Invalid`,
                    // so a key error can only have come from the callback
                    let (j, fm1) = choose|j: int, fm1: Formatter|
                        #![trigger scan(fmtstr@).0[j], call_ensures(f, (fm1,), Err::<Formatter, FmtError>(*e))]
                        0 <= j < scan(fmtstr@).0.len() && scan(fmtstr@).0[j] is Ph
                            && spec_from_str(scan(fmtstr@).0[j]->Ph_0) == Ok::<FmtState, Seq<char>>(
                            fm1@,
                        ) && call_ensures(f, (fm1,), Err::<Formatter, FmtError>(*e));
                    assert(e@ == ErrModel::Key("Invalid key: "@ + fm1@.key));
                }
            },
            Ok(_) => {},
        }
    }
    r
}

} // verus!
