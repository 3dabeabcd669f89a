//! The shared vocabulary of the engine: alignment and sign tokens of the
//! format mini-language, and the error type every entry point returns.

use vstd::prelude::*;
use vstd::string::StringExecFns;

verus! {

/// How a value is positioned inside a field wider than the value itself.
///
/// `Unspecified` is what the parser produces when the specifier carries no
/// alignment token; renderers treat it as `Left` for strings and as `Right`
/// for numbers.  `Equal` is the legacy sign-aware zero-padding position,
/// recognized by the grammar but rejected by the renderers.
#[derive(Debug, Clone, Copy, PartialEq, Eq, Structural)]
pub enum Alignment {
    Unspecified,
    Left,
    Center,
    Right,
    Equal,
}

/// The sign token of a format specifier: `+`, `-`, a space, or nothing.
#[derive(Debug, Clone, Copy, PartialEq, Eq, Structural)]
pub enum Sign {
    Unspecified,
    Plus,
    Minus,
    Space,
}

impl Sign {
    /// Reports whether a sign token was written in the specifier.
    ///
    /// The name is kept for compatibility: despite what it suggests, the
    /// result is `true` exactly when the sign is *not* `Unspecified`.
    pub fn is_unspecified(&self) -> (r: bool)
        ensures
            r == !(*self is Unspecified),
    {
        match *self {
            Sign::Unspecified => false,
            _ => true,
        }
    }
}

/// The ghost shape of a [`FmtError`]: its kind together with the characters
/// of its message.
pub enum ErrModel {
    Invalid(Seq<char>),
    Key(Seq<char>),
    Type(Seq<char>),
}

/// An error produced while formatting, always carrying a readable message.
///
/// * `Invalid` - the template or specifier text is structurally malformed,
///   or requests a recognized but unimplemented feature;
/// * `KeyError` - a placeholder identifier has no entry in the value map;
/// * `TypeError` - the specifier requests an option incompatible with the
///   kind of the value being rendered.
#[derive(Debug)]
pub enum FmtError {
    Invalid(String),
    KeyError(String),
    TypeError(String),
}

impl View for FmtError {
    type V = ErrModel;

    open spec fn view(&self) -> ErrModel {
        match self {
            FmtError::Invalid(m) => ErrModel::Invalid(m@),
            FmtError::KeyError(m) => ErrModel::Key(m@),
            FmtError::TypeError(m) => ErrModel::Type(m@),
        }
    }
}

impl PartialEq for FmtError {
    fn eq(&self, other: &FmtError) -> (r: bool) {
        match (self, other) {
            (FmtError::Invalid(a), FmtError::Invalid(b)) => *a == *b,
            (FmtError::KeyError(a), FmtError::KeyError(b)) => *a == *b,
            (FmtError::TypeError(a), FmtError::TypeError(b)) => *a == *b,
            _ => false,
        }
    }
}

impl vstd::std_specs::cmp::PartialEqSpecImpl for FmtError {
    open spec fn obeys_eq_spec() -> bool {
        true
    }

    open spec fn eq_spec(&self, other: &FmtError) -> bool {
        self@ == other@
    }
}

impl FmtError {
    /// A readable one-line rendering of the error, in the shape
    /// `Kind(message)`.
    pub fn display(&self) -> (r: String)
        ensures
            r@ == match self@ {
                ErrModel::Invalid(m) => "Invalid("@ + m + ")"@,
                ErrModel::Key(m) => "KeyError("@ + m + ")"@,
                ErrModel::Type(m) => "TypeError("@ + m + ")"@,
            },
    {
        let mut out: String;
        match self {
            FmtError::Invalid(m) => {
                out = "Invalid(".to_owned();
                out.append(m.as_str());
            },
            FmtError::KeyError(m) => {
                out = "KeyError(".to_owned();
                out.append(m.as_str());
            },
            FmtError::TypeError(m) => {
                out = "TypeError(".to_owned();
                out.append(m.as_str());
            },
        }
        out.append(")");
        out
    }
}

} // verus!
