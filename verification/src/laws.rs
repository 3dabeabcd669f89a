//! Engine-wide laws, stated over the model and proved once and for all:
//! plain text passes through unchanged, brace escapes round-trip, padding
//! has the promised length and shape, truncation keeps leading characters
//! and is idempotent, numeric prefixes appear exactly under the alternate
//! flag, the always-rejected options are rejected for every value, and
//! missing identifiers behave as the two lookup modes promise.

use vstd::prelude::*;

use crate::specs::{
    all_literals, alternate_space_msg, brace_escaped_from, eff_num_align, float_err, float_ty,
    float_ty_ok, int_delta, int_err, int_numeral, int_prefix, int_ty, int_ty_ok,
    lemma_run_ignore_total, lemma_run_literals, lemma_run_missing, lemma_scan_escaped_suffix,
    lemma_scan_literal_suffix, lit_concat, num_plus, phs_parse_ok, phs_write_ok, rep_char, scan,
    some_ph_missing, spec_pad, spec_strfmt_options, thousands_msg, trunc_len, unescaped_from,
    FmtState,
};
use crate::types::{Alignment, ErrModel};

verus! {

/// A template without brace characters formats to itself, in either
/// lookup mode and against any variable map: its scan is all literals and
/// gluing them back yields the template.
pub proof fn lemma_no_braces_identity(
    t: Seq<char>,
    m: Map<Seq<char>, Seq<char>>,
    ignore_missing: bool,
)
    requires
        forall|i: int| 0 <= i < t.len() ==> t[i] != '{' && t[i] != '}',
    ensures
        scan(t).1 is Done,
        all_literals(scan(t).0),
        lit_concat(scan(t).0) == t,
        spec_strfmt_options(t, m, ignore_missing) == Ok::<Seq<char>, ErrModel>(t),
{
    lemma_scan_literal_suffix(t, 0);
    assert(t.skip(0) =~= t);
    lemma_run_literals(scan(t).0, m, ignore_missing);
}

/// In a template of literal text whose braces all sit in `{{` or `}}`
/// escapes, the escapes round-trip: formatting succeeds in either mode
/// against any map, and yields the text with each escape replaced by its
/// literal brace.
pub proof fn lemma_escapes_round_trip(
    t: Seq<char>,
    m: Map<Seq<char>, Seq<char>>,
    ignore_missing: bool,
)
    requires
        brace_escaped_from(t, 0),
    ensures
        scan(t).1 is Done,
        all_literals(scan(t).0),
        lit_concat(scan(t).0) == unescaped_from(t, 0),
        spec_strfmt_options(t, m, ignore_missing) == Ok::<Seq<char>, ErrModel>(
            unescaped_from(t, 0),
        ),
{
    lemma_scan_escaped_suffix(t, 0);
    lemma_run_literals(scan(t).0, m, ignore_missing);
}

/// Padding a value shorter than the field makes the output exactly the
/// field width, with the fill before the value for `Right`, after it for
/// `Left`, and split around it for `Center` with the longer half (for an
/// odd pad) after the value.  A value at least as long as the field passes
/// through with its (truncated) natural length.
pub proof fn lemma_pad_shape(
    text: Seq<char>,
    fill: char,
    align: Alignment,
    w: usize,
    precision: Option<usize>,
)
    requires
        align is Left || align is Right || align is Center,
    ensures
        ({
            let l = trunc_len(text.len(), precision);
            let padded = spec_pad(text, fill, align, Some(w), precision);
            &&& padded.len() == (if l < w {
                w as nat
            } else {
                l
            })
            &&& (l < w && align is Right ==> padded == rep_char(fill, (w - l) as nat) + text.take(
                l as int,
            ))
            &&& (l < w && align is Left ==> padded == text.take(l as int) + rep_char(
                fill,
                (w - l) as nat,
            ))
            &&& (l < w && align is Center ==> padded == rep_char(fill, ((w - l) as nat) / 2)
                + text.take(l as int) + rep_char(
                fill,
                ((w - l) as nat) / 2 + ((w - l) as nat) % 2,
            ))
            &&& (l >= w ==> padded == text.take(l as int))
        }),
{
    let l = trunc_len(text.len(), precision);
    assert(l <= text.len());
    assert(text.take(l as int).len() == l);
}

/// Precision truncation takes the leading characters, and truncating an
/// already short enough text changes nothing, so truncation is idempotent.
pub proof fn lemma_truncation(s: Seq<char>, fill: char, align: Alignment, p: usize)
    ensures
        spec_pad(s, fill, align, None, Some(p)) == s.take(trunc_len(s.len(), Some(p)) as int),
        trunc_len(s.len(), Some(p)) == (if (p as nat) < s.len() {
            p as nat
        } else {
            s.len()
        }),
        s.len() <= p ==> spec_pad(s, fill, align, None, Some(p)) == s,
        spec_pad(spec_pad(s, fill, align, None, Some(p)), fill, align, None, Some(p)) == spec_pad(
            s,
            fill,
            align,
            None,
            Some(p),
        ),
{
    let l = trunc_len(s.len(), Some(p));
    assert(l <= s.len());
    if s.len() <= p {
        assert(s.take(l as int) =~= s);
    }
    let once = spec_pad(s, fill, align, None, Some(p));
    assert(once == s.take(l as int));
    assert(once.len() == l);
    assert(trunc_len(once.len(), Some(p)) == l);
    assert(once.take(l as int) =~= once);
}

/// The alternate-form base prefix appears exactly when the flag is set
/// with a radix type letter: a successful rendering writes the sign, then
/// the prefix when and only when `alternate` holds, then the padded
/// numeral; and the alternate flag with the plain decimal type is a type
/// error.
pub proof fn lemma_alternate_prefix(st: FmtState, neg: bool, dec: nat, pat: nat, name: Seq<char>)
    ensures
        int_err(st, neg, dec, pat, name) is None ==> int_delta(st, neg, dec, pat) == num_plus(
            neg,
            st.sign,
        ) + int_prefix(st.alternate, int_ty(st.ty)) + spec_pad(
            int_numeral(neg, dec, pat, int_ty(st.ty)),
            st.fill,
            eff_num_align(st.align),
            st.width,
            None,
        ),
        int_err(st, neg, dec, pat, name) is None && !st.alternate ==> int_prefix(
            st.alternate,
            int_ty(st.ty),
        ) == Seq::<char>::empty(),
        int_ty(st.ty) == ' ' && st.alternate && int_ty_ok(int_ty(st.ty)) && st.precision is None
            && !st.thousands && !(st.fill == '0' && st.align is Right) ==> int_err(
            st,
            neg,
            dec,
            pat,
            name,
        ) == Some(ErrModel::Type(alternate_space_msg())),
{
}

/// A precision on an integer is always a type error, whatever the type
/// letter says.
pub proof fn lemma_integer_precision_rejected(
    st: FmtState,
    neg: bool,
    dec: nat,
    pat: nat,
    name: Seq<char>,
)
    requires
        st.precision is Some,
    ensures
        int_err(st, neg, dec, pat, name) matches Some(e) && e is Type,
{
}

/// The alternate flag on a float is always a type error, whatever the
/// type letter says.
pub proof fn lemma_float_alternate_rejected(st: FmtState, len: nat)
    requires
        st.alternate,
    ensures
        float_err(st, len) matches Some(e) && e is Type,
{
}

/// The thousands flag on an integer whose other options are acceptable is
/// rejected as unimplemented.
pub proof fn lemma_thousands_rejected_int(
    st: FmtState,
    neg: bool,
    dec: nat,
    pat: nat,
    name: Seq<char>,
)
    requires
        st.thousands,
        int_ty_ok(int_ty(st.ty)),
        st.precision is None,
    ensures
        int_err(st, neg, dec, pat, name) == Some(ErrModel::Invalid(thousands_msg())),
{
}

/// The thousands flag on a float whose other options are acceptable is
/// rejected as unimplemented.
pub proof fn lemma_thousands_rejected_float(st: FmtState, len: nat)
    requires
        st.thousands,
        float_ty_ok(float_ty(st.ty)),
        !st.alternate,
    ensures
        float_err(st, len) == Some(ErrModel::Invalid(thousands_msg())),
{
}

/// An unknown identifier aborts a strict formatting call with a key
/// error, provided the template scans, every specifier parses, and every
/// found value pads.
pub proof fn lemma_missing_key_strict(t: Seq<char>, m: Map<Seq<char>, Seq<char>>)
    requires
        scan(t).1 is Done,
        phs_parse_ok(scan(t).0),
        phs_write_ok(scan(t).0, m),
        some_ph_missing(scan(t).0, m),
    ensures
        spec_strfmt_options(t, m, false) matches Err(e) && e is Key,
{
    lemma_run_missing(scan(t).0, m);
}

/// In ignore-missing mode the same call succeeds: unknown identifiers
/// pass through instead of aborting.
pub proof fn lemma_missing_key_ignored(t: Seq<char>, m: Map<Seq<char>, Seq<char>>)
    requires
        scan(t).1 is Done,
        phs_parse_ok(scan(t).0),
        phs_write_ok(scan(t).0, m),
    ensures
        spec_strfmt_options(t, m, true) is Ok,
{
    lemma_run_ignore_total(scan(t).0, m);
}

} // verus!
