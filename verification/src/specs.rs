//! The mathematical model of the engine.
//!
//! Everything the executable code promises is stated over the functions in
//! this module: the grammar of a format specifier, the padding and
//! truncation rules, the digit strings of integers, the scanner's walk over
//! a template, and the end-to-end result of formatting against a map of
//! string variables.

use vstd::prelude::*;

use crate::types::{Alignment, ErrModel, Sign};

verus! {

// ---------------------------------------------------------------------------
// Parsed format specifiers
// ---------------------------------------------------------------------------
/// The fields a format specifier can carry, as the parser produces them.
pub struct FormatSpec {
    pub fill: char,
    pub align: Alignment,
    pub sign: Sign,
    pub alternate: bool,
    pub width: Option<usize>,
    pub thousands: bool,
    pub precision: Option<usize>,
    pub ty: Option<char>,
}

/// The ghost state of a [`crate::formatter::Formatter`]: the parsed
/// specifier fields, the lookup key, the raw placeholder text, and the
/// characters written to the output buffer so far.
pub struct FmtState {
    pub key: Seq<char>,
    pub fill: char,
    pub align: Alignment,
    pub sign: Sign,
    pub alternate: bool,
    pub width: Option<usize>,
    pub thousands: bool,
    pub precision: Option<usize>,
    pub ty: Option<char>,
    pub buff: Seq<char>,
    pub pattern: Seq<char>,
}

impl FmtState {
    /// The same state with `delta` appended to the output buffer.
    pub open spec fn with_appended(self, delta: Seq<char>) -> FmtState {
        FmtState { buff: self.buff + delta, ..self }
    }
}

// ---------------------------------------------------------------------------
// Character classes of the mini-language
// ---------------------------------------------------------------------------
pub open spec fn is_align_char(c: char) -> bool {
    c == '=' || c == '<' || c == '^' || c == '>'
}

pub open spec fn is_sign_char(c: char) -> bool {
    c == ' ' || c == '-' || c == '+'
}

pub open spec fn is_type_char(c: char) -> bool {
    ||| c == 'b'
    ||| c == 'c'
    ||| c == 'd'
    ||| c == 'o'
    ||| c == 'x'
    ||| c == 'X'
    ||| c == 'n'
    ||| c == 'e'
    ||| c == 'E'
    ||| c == 'f'
    ||| c == 'F'
    ||| c == 'g'
    ||| c == 'G'
    ||| c == '%'
    ||| c == 's'
    ||| c == '?'
}

pub open spec fn is_digit_char(c: char) -> bool {
    ||| c == '0'
    ||| c == '1'
    ||| c == '2'
    ||| c == '3'
    ||| c == '4'
    ||| c == '5'
    ||| c == '6'
    ||| c == '7'
    ||| c == '8'
    ||| c == '9'
}

pub open spec fn digit_value(c: char) -> nat {
    if c == '0' {
        0
    } else if c == '1' {
        1
    } else if c == '2' {
        2
    } else if c == '3' {
        3
    } else if c == '4' {
        4
    } else if c == '5' {
        5
    } else if c == '6' {
        6
    } else if c == '7' {
        7
    } else if c == '8' {
        8
    } else {
        9
    }
}

pub open spec fn align_of_char(c: char) -> Alignment {
    if c == '<' {
        Alignment::Left
    } else if c == '^' {
        Alignment::Center
    } else if c == '>' {
        Alignment::Right
    } else {
        Alignment::Equal
    }
}

pub open spec fn sign_of_char(c: char) -> Sign {
    if c == '+' {
        Sign::Plus
    } else if c == '-' {
        Sign::Minus
    } else {
        Sign::Space
    }
}

// ---------------------------------------------------------------------------
// Digit runs and their numeric value
// ---------------------------------------------------------------------------
/// The first position at or after `i` that does not hold an ASCII digit.
pub open spec fn digit_run_end(s: Seq<char>, i: int) -> int
    decreases s.len() - i,
{
    if i < 0 || i >= s.len() || !is_digit_char(s[i]) {
        i
    } else {
        digit_run_end(s, i + 1)
    }
}

/// The number denoted by a sequence of ASCII digits, most significant first.
pub open spec fn digits_value(s: Seq<char>) -> nat
    decreases s.len(),
{
    if s.len() == 0 {
        0
    } else {
        digits_value(s.drop_last()) * 10 + digit_value(s.last())
    }
}

/// A digit run overflows when its value does not fit the widths the parser
/// stores it in.
pub open spec fn run_overflows(s: Seq<char>) -> bool {
    digits_value(s) > i64::MAX as nat || digits_value(s) > usize::MAX as nat
}

// ---------------------------------------------------------------------------
// The grammar of a format specifier
// ---------------------------------------------------------------------------
pub open spec fn default_spec() -> FormatSpec {
    FormatSpec {
        fill: ' ',
        align: Alignment::Unspecified,
        sign: Sign::Unspecified,
        alternate: false,
        width: None,
        thousands: false,
        precision: None,
        ty: None,
    }
}

pub open spec fn comma_type_ok(ty: Option<char>) -> bool {
    match ty {
        None => true,
        Some(c) => {
            ||| c == 'd'
            ||| c == 'e'
            ||| c == 'f'
            ||| c == 'g'
            ||| c == 'E'
            ||| c == 'G'
            ||| c == '%'
            ||| c == 'F'
        },
    }
}

pub open spec fn invalid_type_msg(c: char) -> Seq<char> {
    "Invalid type specifier: '"@ + seq![c] + "'"@
}

pub open spec fn invalid_comma_msg(c: char) -> Seq<char> {
    "Invalid comma type: "@ + seq![c]
}

/// The last two steps of the grammar: the optional type letter, then the
/// cross-field check of the thousands flag against the type.
pub open spec fn spec_parse_finish(r: Seq<char>, pos: int, f: FormatSpec) -> Result<
    FormatSpec,
    Seq<char>,
> {
    if r.len() - pos > 1 {
        Err("Invalid format specifier"@)
    } else if r.len() - pos == 1 {
        let c = r[pos];
        if !is_type_char(c) {
            Err(invalid_type_msg(c))
        } else if f.thousands && !comma_type_ok(Some(c)) {
            Err(invalid_comma_msg(c))
        } else {
            Ok(FormatSpec { ty: Some(c), ..f })
        }
    } else {
        Ok(FormatSpec { ty: None, ..f })
    }
}

/// Step one of the grammar: fill and alignment.  One character of
/// lookahead disambiguates a fill character from a lone alignment token.
/// Result: fill, alignment, whether the fill was written explicitly, and
/// the next position.
pub open spec fn sp_fill_align(r: Seq<char>) -> (char, Alignment, bool, int) {
    if r.len() >= 2 && is_align_char(r[1]) {
        (r[0], align_of_char(r[1]), true, 2)
    } else if r.len() >= 1 && is_align_char(r[0]) {
        (' ', align_of_char(r[0]), false, 1)
    } else {
        (' ', Alignment::Unspecified, false, 0)
    }
}

/// Step two: the optional sign token.
pub open spec fn sp_sign(r: Seq<char>, p: int) -> (Sign, int) {
    if 0 <= p < r.len() && is_sign_char(r[p]) {
        (sign_of_char(r[p]), p + 1)
    } else {
        (Sign::Unspecified, p)
    }
}

/// Step three: the optional alternate-form flag.
pub open spec fn sp_alternate(r: Seq<char>, p: int) -> (bool, int) {
    if 0 <= p < r.len() && r[p] == '#' {
        (true, p + 1)
    } else {
        (false, p)
    }
}

/// Step four, legacy zero padding: a leading `0` that is not an explicit
/// fill sets the fill to `0` and, when no alignment was written, the
/// alignment to `Equal`.
pub open spec fn sp_zero(
    r: Seq<char>,
    fill: char,
    align: Alignment,
    fill_explicit: bool,
    p: int,
) -> (char, Alignment, int) {
    if !fill_explicit && 0 <= p < r.len() && r[p] == '0' {
        ('0', if align is Unspecified { Alignment::Equal } else { align }, p + 1)
    } else {
        (fill, align, p)
    }
}

/// The maximal digit run at `p` and the position just after it.
pub open spec fn sp_run(r: Seq<char>, p: int) -> (Seq<char>, int) {
    let e = digit_run_end(r, p);
    (r.subrange(p, e), e)
}

/// Step six: the optional thousands flag.
pub open spec fn sp_comma(r: Seq<char>, p: int) -> (bool, int) {
    if 0 <= p < r.len() && r[p] == ',' {
        (true, p + 1)
    } else {
        (false, p)
    }
}

/// The grammar before the type letter: fill/align, sign, alternate,
/// legacy zero, width, thousands and precision, applied in that fixed
/// order.  On success it yields the fields parsed so far and the position
/// where the type letter would start.
pub open spec fn spec_parse_front(r: Seq<char>) -> Result<(FormatSpec, int), Seq<char>> {
    let st1 = sp_fill_align(r);
    let st2 = sp_sign(r, st1.3);
    let st3 = sp_alternate(r, st2.1);
    let st4 = sp_zero(r, st1.0, st1.1, st1.2, st3.1);
    let w = sp_run(r, st4.2);
    if w.0.len() > 0 && run_overflows(w.0) {
        Err("overflow error when parsing width"@)
    } else {
        let width: Option<usize> = if w.0.len() == 0 {
            None
        } else {
            Some(digits_value(w.0) as usize)
        };
        let st6 = sp_comma(r, w.1);
        let partial = FormatSpec {
            fill: st4.0,
            align: st4.1,
            sign: st2.0,
            alternate: st3.0,
            width,
            thousands: st6.0,
            precision: None,
            ty: None,
        };
        if st6.1 < r.len() && r[st6.1] == '.' {
            let pr = sp_run(r, st6.1 + 1);
            if pr.0.len() == 0 {
                Err("Format specifier missing precision"@)
            } else if run_overflows(pr.0) {
                Err("overflow error when parsing precision"@)
            } else {
                Ok((FormatSpec { precision: Some(digits_value(pr.0) as usize), ..partial }, pr.1))
            }
        } else {
            Ok((partial, st6.1))
        }
    }
}

/// The grammar of the text after the identifier and colon.  Each step is
/// optional; an empty specifier yields the defaults.
pub open spec fn spec_parse(r: Seq<char>) -> Result<FormatSpec, Seq<char>> {
    if r.len() == 0 {
        Ok(default_spec())
    } else {
        match spec_parse_front(r) {
            Err(m) => Err(m),
            Ok((f, pos)) => spec_parse_finish(r, pos, f),
        }
    }
}

/// The first `:` at or after `i`, or the length of `s` when there is none.
pub open spec fn colon_pos(s: Seq<char>, i: int) -> int
    decreases s.len() - i,
{
    if i < 0 || i >= s.len() || s[i] == ':' {
        i
    } else {
        colon_pos(s, i + 1)
    }
}

/// Splitting the raw placeholder text into the identifier and the format
/// specifier: everything before the first `:` names the value, everything
/// after it is handed to the grammar.  An empty identifier is rejected.
pub open spec fn spec_split_key(s: Seq<char>) -> Result<(Seq<char>, Seq<char>), Seq<char>> {
    if s.len() == 0 || s[0] == ':' {
        Err("must specify identifier"@)
    } else {
        let c = colon_pos(s, 0);
        if c < s.len() {
            Ok((s.take(c), s.skip(c + 1)))
        } else {
            Ok((s, Seq::empty()))
        }
    }
}

/// The full model of building a formatter from one placeholder's raw text.
pub open spec fn spec_from_str(s: Seq<char>) -> Result<FmtState, Seq<char>> {
    match spec_split_key(s) {
        Err(m) => Err(m),
        Ok((key, rest)) => match spec_parse(rest) {
            Err(m) => Err(m),
            Ok(f) => Ok(
                FmtState {
                    key,
                    fill: f.fill,
                    align: f.align,
                    sign: f.sign,
                    alternate: f.alternate,
                    width: f.width,
                    thousands: f.thousands,
                    precision: f.precision,
                    ty: f.ty,
                    buff: Seq::empty(),
                    pattern: s,
                },
            ),
        },
    }
}

// ---------------------------------------------------------------------------
// Truncation and padding
// ---------------------------------------------------------------------------
/// `n` copies of the fill character.
pub open spec fn rep_char(c: char, n: nat) -> Seq<char> {
    Seq::new(n, |i: int| c)
}

/// The number of leading characters kept after precision truncation.
pub open spec fn trunc_len(len: nat, precision: Option<usize>) -> nat {
    match precision {
        Some(p) => if (p as nat) < len {
            p as nat
        } else {
            len
        },
        None => len,
    }
}

/// Strings fall back to left alignment when none was written.
pub open spec fn eff_str_align(a: Alignment) -> Alignment {
    if a is Unspecified {
        Alignment::Left
    } else {
        a
    }
}

/// Numbers fall back to right alignment when none was written.
pub open spec fn eff_num_align(a: Alignment) -> Alignment {
    if a is Unspecified {
        Alignment::Right
    } else {
        a
    }
}

/// Padding is impossible when it is actually needed and the alignment is
/// the unsupported `Equal` position.
pub open spec fn pad_rejected(
    len: nat,
    align: Alignment,
    width: Option<usize>,
    precision: Option<usize>,
) -> bool {
    match width {
        Some(w) => trunc_len(len, precision) < w && align is Equal,
        None => false,
    }
}

/// The truncated text, padded with the fill character to the requested
/// width: after the text for `Left`, before it for `Right`, and split for
/// `Center` with the longer half (for an odd pad) after the text.
pub open spec fn spec_pad(
    text: Seq<char>,
    fill: char,
    align: Alignment,
    width: Option<usize>,
    precision: Option<usize>,
) -> Seq<char> {
    let l = trunc_len(text.len(), precision);
    let t = text.take(l as int);
    match width {
        None => t,
        Some(w) => if w <= l {
            t
        } else {
            let p = (w - l) as nat;
            match align {
                Alignment::Left => t + rep_char(fill, p),
                Alignment::Right => rep_char(fill, p) + t,
                Alignment::Center => rep_char(fill, p / 2) + t + rep_char(
                    fill,
                    p / 2 + p % 2,
                ),
                _ => t,
            }
        },
    }
}

pub open spec fn pad_rejected_msg() -> Seq<char> {
    "sign aware 0 padding not yet supported"@
}

// ---------------------------------------------------------------------------
// String rendering
// ---------------------------------------------------------------------------
/// The checks `Formatter::str` makes before rendering, in order, and the
/// padding failure that can follow them.  `None` means the rendering
/// succeeds.
pub open spec fn str_err(st: FmtState, s: Seq<char>) -> Option<ErrModel> {
    if !(st.ty is None || st.ty == Some('s')) {
        Some(
            ErrModel::Type(
                "Unknown format code '"@ + seq![st.ty->0] + "' for object of type 'str'"@,
            ),
        )
    } else if st.alternate {
        Some(ErrModel::Type("Alternate form (#) not allowed in string format specifier"@))
    } else if st.thousands {
        Some(ErrModel::Type("Cannot specify ',' with 's'"@))
    } else if !(st.sign is Unspecified) {
        Some(ErrModel::Type("Sign not allowed in string format specifier"@))
    } else {
        str_unchecked_err(st, s)
    }
}

/// The one failure of the unchecked string path: padding into an `Equal`
/// field.
pub open spec fn str_unchecked_err(st: FmtState, s: Seq<char>) -> Option<ErrModel> {
    if pad_rejected(s.len(), eff_str_align(st.align), st.width, st.precision) {
        Some(ErrModel::Invalid(pad_rejected_msg()))
    } else {
        None
    }
}

/// What the string path appends to the buffer when it succeeds.
pub open spec fn str_delta(st: FmtState, s: Seq<char>) -> Seq<char> {
    spec_pad(s, st.fill, eff_str_align(st.align), st.width, st.precision)
}

// ---------------------------------------------------------------------------
// Integer rendering
// ---------------------------------------------------------------------------
/// The digit character for one place value.
pub open spec fn digit_char(d: nat, upper: bool) -> char {
    if d == 0 {
        '0'
    } else if d == 1 {
        '1'
    } else if d == 2 {
        '2'
    } else if d == 3 {
        '3'
    } else if d == 4 {
        '4'
    } else if d == 5 {
        '5'
    } else if d == 6 {
        '6'
    } else if d == 7 {
        '7'
    } else if d == 8 {
        '8'
    } else if d == 9 {
        '9'
    } else if d == 10 {
        if upper {
            'A'
        } else {
            'a'
        }
    } else if d == 11 {
        if upper {
            'B'
        } else {
            'b'
        }
    } else if d == 12 {
        if upper {
            'C'
        } else {
            'c'
        }
    } else if d == 13 {
        if upper {
            'D'
        } else {
            'd'
        }
    } else if d == 14 {
        if upper {
            'E'
        } else {
            'e'
        }
    } else {
        if upper {
            'F'
        } else {
            'f'
        }
    }
}

/// The digit string of `n` in the given base, most significant digit first,
/// with no leading zeros except for `n == 0` itself.
pub open spec fn spec_digits(n: nat, base: nat, upper: bool) -> Seq<char>
    decreases n,
    via spec_digits_decreases
{
    if base < 2 {
        Seq::empty()
    } else if n < base {
        seq![digit_char(n, upper)]
    } else {
        spec_digits(n / base, base, upper) + seq![digit_char(n % base, upper)]
    }
}

#[via_fn]
proof fn spec_digits_decreases(n: nat, base: nat, upper: bool) {
    if base >= 2 && n >= base {
        assert(n / base < n) by (nonlinear_arith)
            requires
                n >= base,
                base >= 2,
        ;
    }
}

/// The effective type letter of an integer specifier; a space stands for a
/// plain decimal rendering.
pub open spec fn int_ty(ty: Option<char>) -> char {
    match ty {
        None => ' ',
        Some(c) => c,
    }
}

pub open spec fn int_ty_ok(c: char) -> bool {
    c == ' ' || c == 'b' || c == 'o' || c == 'x' || c == 'X'
}

/// The sign column: a `+` is written for non-negative values when the
/// specifier asks for one.
pub open spec fn num_plus(neg: bool, sign: Sign) -> Seq<char> {
    if !neg && sign is Plus {
        seq!['+']
    } else {
        Seq::empty()
    }
}

/// The alternate-form base prefix for a type letter.
pub open spec fn int_prefix(alternate: bool, tyc: char) -> Seq<char> {
    if !alternate {
        Seq::empty()
    } else if tyc == 'b' {
        "0b"@
    } else if tyc == 'o' {
        "0o"@
    } else {
        "0x"@
    }
}

/// The bare numeral: binary, octal and hex render the two's-complement bit
/// pattern `pat`; the plain decimal rendering uses the magnitude `dec` with
/// a leading minus for negative values.
pub open spec fn int_numeral(neg: bool, dec: nat, pat: nat, tyc: char) -> Seq<char> {
    if tyc == 'b' {
        spec_digits(pat, 2, false)
    } else if tyc == 'o' {
        spec_digits(pat, 8, false)
    } else if tyc == 'x' {
        spec_digits(pat, 16, false)
    } else if tyc == 'X' {
        spec_digits(pat, 16, true)
    } else {
        num_plus_minus(neg) + spec_digits(dec, 10, false)
    }
}

pub open spec fn num_plus_minus(neg: bool) -> Seq<char> {
    if neg {
        seq!['-']
    } else {
        Seq::empty()
    }
}

pub open spec fn int_unknown_code_msg(tyc: char, name: Seq<char>) -> Seq<char> {
    "Unknown format code '"@ + seq![tyc] + "' for object of type "@ + name
}

pub open spec fn alternate_space_msg() -> Seq<char> {
    "alternate ('#') cannot be used with type ' '"@
}

pub open spec fn thousands_msg() -> Seq<char> {
    "thousands specifier not yet supported"@
}

/// The error, if any, of rendering an integer under this state; the checks
/// run in the order the implementation makes them.
pub open spec fn int_err(st: FmtState, neg: bool, dec: nat, pat: nat, name: Seq<char>) -> Option<
    ErrModel,
> {
    let tyc = int_ty(st.ty);
    if !int_ty_ok(tyc) {
        Some(ErrModel::Type(int_unknown_code_msg(tyc, name)))
    } else if st.precision is Some {
        Some(ErrModel::Type("precision not allowed for integers"@))
    } else if st.thousands {
        Some(ErrModel::Invalid(thousands_msg()))
    } else if st.fill == '0' && st.align is Right {
        Some(ErrModel::Invalid(pad_rejected_msg()))
    } else if st.alternate && tyc == ' ' {
        Some(ErrModel::Type(alternate_space_msg()))
    } else if pad_rejected(
        int_numeral(neg, dec, pat, tyc).len(),
        eff_num_align(st.align),
        st.width,
        None,
    ) {
        Some(ErrModel::Invalid(pad_rejected_msg()))
    } else {
        None
    }
}

/// The characters an integer rendering appends to the buffer, also in the
/// failing cases: the sign and base prefix are written before padding is
/// attempted, so they survive a padding failure.
pub open spec fn int_delta(st: FmtState, neg: bool, dec: nat, pat: nat) -> Seq<char> {
    let tyc = int_ty(st.ty);
    if !int_ty_ok(tyc) || st.precision is Some || st.thousands || (st.fill == '0' && st.align
        is Right) {
        Seq::empty()
    } else {
        let plus = num_plus(neg, st.sign);
        if st.alternate && tyc == ' ' {
            plus
        } else {
            let pre = int_prefix(st.alternate, tyc);
            let numeral = int_numeral(neg, dec, pat, tyc);
            if pad_rejected(numeral.len(), eff_num_align(st.align), st.width, None) {
                plus + pre
            } else {
                plus + pre + spec_pad(numeral, st.fill, eff_num_align(st.align), st.width, None)
            }
        }
    }
}

// ---------------------------------------------------------------------------
// Floating-point rendering
// ---------------------------------------------------------------------------
/// The effective type letter of a float specifier: fixed rendering when
/// none was written.
pub open spec fn float_ty(ty: Option<char>) -> char {
    match ty {
        None => 'f',
        Some(c) => c,
    }
}

pub open spec fn float_ty_ok(c: char) -> bool {
    c == 'f' || c == 'e' || c == 'E'
}

/// The error, if any, of rendering an already-written float magnitude of
/// length `len` under this state.
pub open spec fn float_err(st: FmtState, len: nat) -> Option<ErrModel> {
    let tyc = float_ty(st.ty);
    if !float_ty_ok(tyc) {
        Some(
            ErrModel::Type(
                "Unknown format code '"@ + seq![tyc] + "' for object of type 'float'"@,
            ),
        )
    } else if st.alternate {
        Some(ErrModel::Type("Alternate form (#) not allowed in float format specifier"@))
    } else if st.thousands {
        Some(ErrModel::Invalid(thousands_msg()))
    } else if st.fill == '0' && st.align is Right {
        Some(ErrModel::Invalid(pad_rejected_msg()))
    } else if pad_rejected(len, eff_num_align(st.align), st.width, None) {
        Some(ErrModel::Invalid(pad_rejected_msg()))
    } else {
        None
    }
}

/// The characters a float rendering appends to the buffer.  The precision
/// field counts decimal digits and was already consumed when the magnitude
/// text was produced, so padding runs with no precision at all.
pub open spec fn float_delta(st: FmtState, non_negative: bool, s: Seq<char>) -> Seq<char> {
    let tyc = float_ty(st.ty);
    if !float_ty_ok(tyc) || st.alternate || st.thousands || (st.fill == '0' && st.align
        is Right) {
        Seq::empty()
    } else {
        let plus = num_plus(!non_negative, st.sign);
        if pad_rejected(s.len(), eff_num_align(st.align), st.width, None) {
            plus
        } else {
            plus + spec_pad(s, st.fill, eff_num_align(st.align), st.width, None)
        }
    }
}

// ---------------------------------------------------------------------------
// The template scanner
// ---------------------------------------------------------------------------
/// One piece of a scanned template: a literal character of the output, or
/// the raw text of one placeholder (the part between its braces).
pub enum ScanItem {
    Lit(char),
    Ph(Seq<char>),
}

/// How the scanner's walk over the template ends.
#[derive(Debug, Clone, Copy, PartialEq, Eq, Structural)]
pub enum ScanEnd {
    /// The whole template was consumed in a neutral state.
    Done,
    /// A second `{` was met inside a placeholder.
    ExtraOpen,
    /// A lone `}` was not followed by another `}`.
    SingleClose,
    /// The template ended inside a placeholder.
    Unclosed,
}

pub open spec fn scan_end_msg(e: ScanEnd) -> Seq<char> {
    match e {
        ScanEnd::Done => ""@,
        ScanEnd::ExtraOpen => "extra { found"@,
        ScanEnd::SingleClose => "Single '}' encountered in format string"@,
        ScanEnd::Unclosed => "Expected '}' before end of string"@,
    }
}

/// The scanner's walk from position `i`, carrying its two pieces of state:
/// whether a lone `}` is pending confirmation, and where the currently open
/// placeholder (if any) started.  The result holds the items produced up to
/// the first scanner fault, and how the walk ended.
pub open spec fn scan_from(t: Seq<char>, i: int, pending: bool, open: Option<int>) -> (
    Seq<ScanItem>,
    ScanEnd,
)
    decreases t.len() - i,
{
    if i < 0 || i >= t.len() {
        (
            Seq::empty(),
            if pending {
                ScanEnd::SingleClose
            } else if open is Some {
                ScanEnd::Unclosed
            } else {
                ScanEnd::Done
            },
        )
    } else {
        let c = t[i];
        if c == '{' {
            match open {
                Some(s) => if i == s + 1 {
                    let r = scan_from(t, i + 1, pending, None);
                    (seq![ScanItem::Lit('{')] + r.0, r.1)
                } else {
                    (Seq::empty(), ScanEnd::ExtraOpen)
                },
                None => scan_from(t, i + 1, pending, Some(i)),
            }
        } else if c == '}' {
            if open is None && !pending {
                scan_from(t, i + 1, true, None)
            } else if pending {
                let r = scan_from(t, i + 1, false, open);
                (seq![ScanItem::Lit('}')] + r.0, r.1)
            } else {
                let s = open->0;
                let r = scan_from(t, i + 1, false, None);
                (seq![ScanItem::Ph(t.subrange(s + 1, i))] + r.0, r.1)
            }
        } else {
            if pending {
                (Seq::empty(), ScanEnd::SingleClose)
            } else if open is Some {
                scan_from(t, i + 1, pending, open)
            } else {
                let r = scan_from(t, i + 1, false, None);
                (seq![ScanItem::Lit(c)] + r.0, r.1)
            }
        }
    }
}

/// The scan of a whole template.
pub open spec fn scan(t: Seq<char>) -> (Seq<ScanItem>, ScanEnd) {
    scan_from(t, 0, false, None)
}

// ---------------------------------------------------------------------------
// Gluing scanned items and per-placeholder outputs
// ---------------------------------------------------------------------------
/// Whether every scanned item is a literal character.
pub open spec fn all_literals(items: Seq<ScanItem>) -> bool {
    forall|j: int| 0 <= j < items.len() ==> items[j] is Lit
}

/// The output of a scan that holds literals only.
pub open spec fn lit_concat(items: Seq<ScanItem>) -> Seq<char>
    decreases items.len(),
{
    if items.len() == 0 {
        Seq::empty()
    } else {
        match items[0] {
            ScanItem::Lit(c) => seq![c] + lit_concat(items.drop_first()),
            ScanItem::Ph(_) => lit_concat(items.drop_first()),
        }
    }
}

/// Whether `outs` holds exactly one output per placeholder item, in order.
pub open spec fn consumes(items: Seq<ScanItem>, outs: Seq<Seq<char>>) -> bool
    decreases items.len(),
{
    if items.len() == 0 {
        outs.len() == 0
    } else {
        match items[0] {
            ScanItem::Lit(_) => consumes(items.drop_first(), outs),
            ScanItem::Ph(_) => outs.len() > 0 && consumes(items.drop_first(), outs.drop_first()),
        }
    }
}

/// The full output: literal characters pass through, and each placeholder
/// contributes its entry of `outs`.
pub open spec fn glue(items: Seq<ScanItem>, outs: Seq<Seq<char>>) -> Seq<char>
    decreases items.len(),
{
    if items.len() == 0 {
        Seq::empty()
    } else {
        match items[0] {
            ScanItem::Lit(c) => seq![c] + glue(items.drop_first(), outs),
            ScanItem::Ph(_) => if outs.len() == 0 {
                Seq::empty()
            } else {
                outs[0] + glue(items.drop_first(), outs.drop_first())
            },
        }
    }
}

/// Appending a literal item appends its character to the glued output.
pub proof fn lemma_glue_snoc_lit(items: Seq<ScanItem>, outs: Seq<Seq<char>>, c: char)
    requires
        consumes(items, outs),
    ensures
        glue(items.push(ScanItem::Lit(c)), outs) == glue(items, outs) + seq![c],
        consumes(items.push(ScanItem::Lit(c)), outs),
    decreases items.len(),
{
    let ext = items.push(ScanItem::Lit(c));
    assert(ext.len() == items.len() + 1);
    if items.len() == 0 {
        assert(ext[0] == ScanItem::Lit(c));
        assert(ext.drop_first() =~= Seq::<ScanItem>::empty());
        assert(outs.len() == 0);
        assert(glue(ext, outs) == seq![c] + glue(ext.drop_first(), outs));
        assert(glue(ext.drop_first(), outs) == Seq::<char>::empty());
        assert(glue(items, outs) == Seq::<char>::empty());
        assert(glue(ext, outs) =~= glue(items, outs) + seq![c]);
        assert(consumes(ext.drop_first(), outs));
        assert(consumes(ext, outs));
    } else {
        assert(ext[0] == items[0]);
        assert(ext.drop_first() =~= items.drop_first().push(ScanItem::Lit(c)));
        match items[0] {
            ScanItem::Lit(d) => {
                lemma_glue_snoc_lit(items.drop_first(), outs, c);
                assert(glue(ext, outs) =~= glue(items, outs) + seq![c]);
                assert(consumes(ext, outs));
            },
            ScanItem::Ph(_) => {
                lemma_glue_snoc_lit(items.drop_first(), outs.drop_first(), c);
                assert(glue(ext, outs) =~= glue(items, outs) + seq![c]);
                assert(consumes(ext, outs));
            },
        }
    }
}

/// Appending a placeholder item appends its output to the glued output.
pub proof fn lemma_glue_snoc_ph(
    items: Seq<ScanItem>,
    outs: Seq<Seq<char>>,
    p: Seq<char>,
    o: Seq<char>,
)
    requires
        consumes(items, outs),
    ensures
        glue(items.push(ScanItem::Ph(p)), outs.push(o)) == glue(items, outs) + o,
        consumes(items.push(ScanItem::Ph(p)), outs.push(o)),
    decreases items.len(),
{
    let ext = items.push(ScanItem::Ph(p));
    let exto = outs.push(o);
    assert(ext.len() == items.len() + 1);
    assert(exto.len() == outs.len() + 1);
    if items.len() == 0 {
        assert(ext[0] == ScanItem::Ph(p));
        assert(ext.drop_first() =~= Seq::<ScanItem>::empty());
        assert(outs.len() == 0);
        assert(exto[0] == o);
        assert(exto.drop_first() =~= Seq::<Seq<char>>::empty());
        assert(glue(ext, exto) == o + glue(ext.drop_first(), exto.drop_first()));
        assert(glue(ext.drop_first(), exto.drop_first()) == Seq::<char>::empty());
        assert(glue(items, outs) == Seq::<char>::empty());
        assert(glue(ext, exto) =~= glue(items, outs) + o);
        assert(consumes(ext.drop_first(), exto.drop_first()));
        assert(consumes(ext, exto));
    } else {
        assert(ext[0] == items[0]);
        assert(ext.drop_first() =~= items.drop_first().push(ScanItem::Ph(p)));
        match items[0] {
            ScanItem::Lit(d) => {
                lemma_glue_snoc_ph(items.drop_first(), outs, p, o);
                assert(glue(ext, exto) =~= glue(items, outs) + o);
                assert(consumes(ext, exto));
            },
            ScanItem::Ph(_) => {
                assert(exto[0] == outs[0]);
                assert(exto.drop_first() =~= outs.drop_first().push(o));
                lemma_glue_snoc_ph(items.drop_first(), outs.drop_first(), p, o);
                assert(glue(ext, exto) =~= glue(items, outs) + o);
                assert(consumes(ext, exto));
            },
        }
    }
}

/// On a scan of literals only, the glued output is the literal text,
/// whatever `outs` holds.
pub proof fn lemma_glue_literals(items: Seq<ScanItem>, outs: Seq<Seq<char>>)
    requires
        all_literals(items),
    ensures
        glue(items, outs) == lit_concat(items),
    decreases items.len(),
{
    if items.len() > 0 {
        assert(items[0] is Lit);
        lemma_glue_literals(items.drop_first(), outs);
    }
}

// ---------------------------------------------------------------------------
// Formatting against a map of string variables
// ---------------------------------------------------------------------------
/// The ghost state of a [`crate::parser::FmtChunk`].
pub struct ChunkModel {
    pub identifier: Seq<char>,
    pub fill: char,
    pub align: Alignment,
    pub alternate: bool,
    pub width: Option<usize>,
    pub thousands: bool,
    pub precision: Option<usize>,
    pub ty: Option<char>,
}

/// The model of building a chunk from one placeholder's raw text: the same
/// grammar as a formatter, with the sign field dropped.
pub open spec fn spec_chunk_from_str(s: Seq<char>) -> Result<ChunkModel, Seq<char>> {
    match spec_from_str(s) {
        Err(m) => Err(m),
        Ok(st) => Ok(
            ChunkModel {
                identifier: st.key,
                fill: st.fill,
                align: st.align,
                alternate: st.alternate,
                width: st.width,
                thousands: st.thousands,
                precision: st.precision,
                ty: st.ty,
            },
        ),
    }
}

/// Writing one chunk against the variable map: the identifier is looked up,
/// and the value is truncated and padded as a string.  A missing identifier
/// is a key error carrying the identifier itself.
pub open spec fn spec_chunk_write(ch: ChunkModel, m: Map<Seq<char>, Seq<char>>) -> Result<
    Seq<char>,
    ErrModel,
> {
    if !m.contains_key(ch.identifier) {
        Err(ErrModel::Key(ch.identifier))
    } else {
        let v = m[ch.identifier];
        if pad_rejected(v.len(), eff_str_align(ch.align), ch.width, ch.precision) {
            Err(ErrModel::Invalid(pad_rejected_msg()))
        } else {
            Ok(spec_pad(v, ch.fill, eff_str_align(ch.align), ch.width, ch.precision))
        }
    }
}

/// Running the scanned items left to right: literals pass through, each
/// placeholder is parsed, looked up and written.  The first fault aborts,
/// except that in ignore-missing mode a key error re-emits the placeholder
/// verbatim, braces included.  A scanner fault surfaces after the items
/// that precede it.
pub open spec fn run_items(
    items: Seq<ScanItem>,
    end: ScanEnd,
    m: Map<Seq<char>, Seq<char>>,
    ignore_missing: bool,
) -> Result<Seq<char>, ErrModel>
    decreases items.len(),
{
    if items.len() == 0 {
        if end is Done {
            Ok(Seq::empty())
        } else {
            Err(ErrModel::Invalid(scan_end_msg(end)))
        }
    } else {
        let rest = run_items(items.drop_first(), end, m, ignore_missing);
        match items[0] {
            ScanItem::Lit(c) => match rest {
                Ok(s) => Ok(seq![c] + s),
                Err(e) => Err(e),
            },
            ScanItem::Ph(p) => match spec_chunk_from_str(p) {
                Err(msg) => Err(ErrModel::Invalid(msg)),
                Ok(ch) => match spec_chunk_write(ch, m) {
                    Ok(w) => match rest {
                        Ok(s) => Ok(w + s),
                        Err(e) => Err(e),
                    },
                    Err(e) => if ignore_missing && e is Key {
                        match rest {
                            Ok(s) => Ok("{"@ + p + "}"@ + s),
                            Err(e2) => Err(e2),
                        }
                    } else {
                        Err(e)
                    },
                },
            },
        }
    }
}

/// The end-to-end result of formatting `t` against the string variables
/// `m`.
pub open spec fn spec_strfmt_options(
    t: Seq<char>,
    m: Map<Seq<char>, Seq<char>>,
    ignore_missing: bool,
) -> Result<Seq<char>, ErrModel> {
    let s = scan(t);
    run_items(s.0, s.1, m, ignore_missing)
}


/// Unfolding the scan at a plain literal character.
proof fn lemma_scan_lit_unfold(t: Seq<char>, i: int)
    requires
        0 <= i < t.len(),
        t[i] != '{',
        t[i] != '}',
    ensures
        scan_from(t, i, false, None).0 == seq![ScanItem::Lit(t[i])] + scan_from(
            t,
            i + 1,
            false,
            None,
        ).0,
        scan_from(t, i, false, None).1 == scan_from(t, i + 1, false, None).1,
{
}

/// Unfolding the scan at a `{{` escape.
proof fn lemma_scan_open_escape_unfold(t: Seq<char>, i: int)
    requires
        0 <= i,
        i + 1 < t.len(),
        t[i] == '{',
        t[i + 1] == '{',
    ensures
        scan_from(t, i, false, None).0 == seq![ScanItem::Lit('{')] + scan_from(
            t,
            i + 2,
            false,
            None,
        ).0,
        scan_from(t, i, false, None).1 == scan_from(t, i + 2, false, None).1,
{
    assert(scan_from(t, i, false, None) == scan_from(t, i + 1, false, Some(i)));
}

/// Unfolding the scan at a `}}` escape.
proof fn lemma_scan_close_escape_unfold(t: Seq<char>, i: int)
    requires
        0 <= i,
        i + 1 < t.len(),
        t[i] == '}',
        t[i + 1] == '}',
    ensures
        scan_from(t, i, false, None).0 == seq![ScanItem::Lit('}')] + scan_from(
            t,
            i + 2,
            false,
            None,
        ).0,
        scan_from(t, i, false, None).1 == scan_from(t, i + 2, false, None).1,
{
    assert(scan_from(t, i, false, None) == scan_from(t, i + 1, true, None));
}

/// The scan of an exhausted template in the neutral state.
proof fn lemma_scan_end_unfold(t: Seq<char>, i: int)
    requires
        i >= t.len(),
    ensures
        scan_from(t, i, false, None).0 == Seq::<ScanItem>::empty(),
        scan_from(t, i, false, None).1 is Done,
{
}

/// One literal item in front extends both literal predicates.
proof fn lemma_cons_lit(c: char, rest: Seq<ScanItem>)
    requires
        all_literals(rest),
    ensures
        all_literals(seq![ScanItem::Lit(c)] + rest),
        lit_concat(seq![ScanItem::Lit(c)] + rest) == seq![c] + lit_concat(rest),
{
    let w = seq![ScanItem::Lit(c)] + rest;
    assert(w[0] == ScanItem::Lit(c));
    assert(w.drop_first() =~= rest);
    assert forall|j: int| 0 <= j < w.len() implies w[j] is Lit by {
        if j > 0 {
            assert(w[j] == rest[j - 1]);
        }
    }
    assert(lit_concat(w) == seq![c] + lit_concat(rest));
}

/// The literal items of the suffix of `t` that starts at `i`.
pub open spec fn lit_items(t: Seq<char>, i: int) -> Seq<ScanItem>
    decreases t.len() - i,
{
    if i < 0 || i >= t.len() {
        Seq::empty()
    } else {
        seq![ScanItem::Lit(t[i])] + lit_items(t, i + 1)
    }
}

pub proof fn lemma_scan_literal_suffix(t: Seq<char>, i: int)
    requires
        0 <= i <= t.len(),
        forall|j: int| i <= j < t.len() ==> t[j] != '{' && t[j] != '}',
    ensures
        scan_from(t, i, false, None).1 is Done,
        all_literals(scan_from(t, i, false, None).0),
        lit_concat(scan_from(t, i, false, None).0) == t.skip(i),
    decreases t.len() - i,
{
    let r = scan_from(t, i, false, None);
    if i >= t.len() {
        lemma_scan_end_unfold(t, i);
        assert(lit_concat(r.0) =~= t.skip(i));
    } else {
        assert(t[i] != '{' && t[i] != '}');
        lemma_scan_literal_suffix(t, i + 1);
        let rest = scan_from(t, i + 1, false, None);
        lemma_scan_lit_unfold(t, i);
        lemma_cons_lit(t[i], rest.0);
        assert(seq![t[i]] + t.skip(i + 1) =~= t.skip(i));
    }
}

pub proof fn lemma_run_literals(
    items: Seq<ScanItem>,
    m: Map<Seq<char>, Seq<char>>,
    ignore_missing: bool,
)
    requires
        all_literals(items),
    ensures
        run_items(items, ScanEnd::Done, m, ignore_missing) == Ok::<Seq<char>, ErrModel>(
            lit_concat(items),
        ),
    decreases items.len(),
{
    if items.len() > 0 {
        assert(items[0] is Lit);
        assert(all_literals(items.drop_first())) by {
            assert(forall|j: int| 0 <= j < items.drop_first().len() ==> items.drop_first()[j]
                == items[j + 1]);
        }
        lemma_run_literals(items.drop_first(), m, ignore_missing);
    }
}

/// Whether the suffix of `t` starting at `i` is literal text in which
/// every brace belongs to a `{{` or `}}` escape.
pub open spec fn brace_escaped_from(t: Seq<char>, i: int) -> bool
    decreases t.len() - i,
{
    if i >= t.len() {
        true
    } else if t[i] == '{' {
        i + 1 < t.len() && t[i + 1] == '{' && brace_escaped_from(t, i + 2)
    } else if t[i] == '}' {
        i + 1 < t.len() && t[i + 1] == '}' && brace_escaped_from(t, i + 2)
    } else {
        brace_escaped_from(t, i + 1)
    }
}

/// The text such a suffix stands for, each escape replaced by its brace.
pub open spec fn unescaped_from(t: Seq<char>, i: int) -> Seq<char>
    decreases t.len() - i,
{
    if i >= t.len() {
        Seq::empty()
    } else if t[i] == '{' || t[i] == '}' {
        if i + 1 < t.len() {
            seq![t[i]] + unescaped_from(t, i + 2)
        } else {
            seq![t[i]]
        }
    } else {
        seq![t[i]] + unescaped_from(t, i + 1)
    }
}

pub proof fn lemma_scan_escaped_suffix(t: Seq<char>, i: int)
    requires
        0 <= i <= t.len(),
        brace_escaped_from(t, i),
    ensures
        scan_from(t, i, false, None).1 is Done,
        all_literals(scan_from(t, i, false, None).0),
        lit_concat(scan_from(t, i, false, None).0) == unescaped_from(t, i),
    decreases t.len() - i,
{
    let r = scan_from(t, i, false, None);
    if i >= t.len() {
        lemma_scan_end_unfold(t, i);
        assert(lit_concat(r.0) =~= unescaped_from(t, i));
    } else if t[i] == '{' {
        lemma_scan_escaped_suffix(t, i + 2);
        let rest = scan_from(t, i + 2, false, None);
        lemma_scan_open_escape_unfold(t, i);
        lemma_cons_lit('{', rest.0);
        assert(seq!['{'] + unescaped_from(t, i + 2) =~= unescaped_from(t, i));
    } else if t[i] == '}' {
        lemma_scan_escaped_suffix(t, i + 2);
        let rest = scan_from(t, i + 2, false, None);
        lemma_scan_close_escape_unfold(t, i);
        lemma_cons_lit('}', rest.0);
        assert(seq!['}'] + unescaped_from(t, i + 2) =~= unescaped_from(t, i));
    } else {
        lemma_scan_escaped_suffix(t, i + 1);
        let rest = scan_from(t, i + 1, false, None);
        lemma_scan_lit_unfold(t, i);
        lemma_cons_lit(t[i], rest.0);
        assert(seq![t[i]] + unescaped_from(t, i + 1) =~= unescaped_from(t, i));
    }
}

/// Whether every placeholder of `items` has a specifier that parses.
pub open spec fn phs_parse_ok(items: Seq<ScanItem>) -> bool {
    forall|j: int| 0 <= j < items.len() && (#[trigger] items[j]) is Ph ==> spec_chunk_from_str(
        items[j]->Ph_0,
    ) is Ok
}

/// Whether every placeholder whose identifier the map holds also pads.
pub open spec fn phs_write_ok(items: Seq<ScanItem>, m: Map<Seq<char>, Seq<char>>) -> bool {
    forall|j: int| 0 <= j < items.len() && (#[trigger] items[j]) is Ph ==> {
        let ch = spec_chunk_from_str(items[j]->Ph_0)->Ok_0;
        m.contains_key(ch.identifier) ==> spec_chunk_write(ch, m) is Ok
    }
}

/// Whether some placeholder's identifier is missing from the map.
pub open spec fn some_ph_missing(items: Seq<ScanItem>, m: Map<Seq<char>, Seq<char>>) -> bool {
    exists|j: int| 0 <= j < items.len() && (#[trigger] items[j]) is Ph && !m.contains_key(
        spec_chunk_from_str(items[j]->Ph_0)->Ok_0.identifier,
    )
}

pub proof fn lemma_run_missing(items: Seq<ScanItem>, m: Map<Seq<char>, Seq<char>>)
    requires
        phs_parse_ok(items),
        phs_write_ok(items, m),
        some_ph_missing(items, m),
    ensures
        run_items(items, ScanEnd::Done, m, false) matches Err(e) && e is Key,
    decreases items.len(),
{
    let j = choose|j: int| 0 <= j < items.len() && (#[trigger] items[j]) is Ph && !m.contains_key(
        spec_chunk_from_str(items[j]->Ph_0)->Ok_0.identifier,
    );
    let rest = items.drop_first();
    assert(forall|i: int| 0 <= i < rest.len() ==> rest[i] == items[i + 1]);
    match items[0] {
        ScanItem::Lit(_) => {
            assert(j >= 1);
            assert(rest[j - 1] == items[j]);
            lemma_run_missing(rest, m);
        },
        ScanItem::Ph(p) => {
            let ch = spec_chunk_from_str(p)->Ok_0;
            if !m.contains_key(ch.identifier) {
                assert(spec_chunk_write(ch, m) == Err::<Seq<char>, ErrModel>(
                    ErrModel::Key(ch.identifier),
                ));
            } else {
                assert(j >= 1);
                assert(rest[j - 1] == items[j]);
                lemma_run_missing(rest, m);
            }
        },
    }
}

pub proof fn lemma_run_ignore_total(items: Seq<ScanItem>, m: Map<Seq<char>, Seq<char>>)
    requires
        phs_parse_ok(items),
        phs_write_ok(items, m),
    ensures
        run_items(items, ScanEnd::Done, m, true) is Ok,
    decreases items.len(),
{
    if items.len() > 0 {
        let rest = items.drop_first();
        assert(forall|i: int| 0 <= i < rest.len() ==> rest[i] == items[i + 1]);
        lemma_run_ignore_total(rest, m);
    }
}


} // verus!
