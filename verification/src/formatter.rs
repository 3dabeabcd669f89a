//! Parsing one placeholder's raw text into a [`Formatter`]: the identifier,
//! the parsed specifier fields, and the output buffer the renderers write
//! into.

use vstd::prelude::*;
use vstd::string::StringExecFns;

use crate::chars::{chars_of, string_of};
use crate::specs::{
    align_of_char, colon_pos, comma_type_ok, digit_run_end, digit_value, digits_value,
    invalid_comma_msg, invalid_type_msg, is_align_char, is_digit_char, is_sign_char, is_type_char,
    run_overflows, sign_of_char, spec_from_str, spec_parse, spec_parse_finish, FmtState,
    FormatSpec,
};
use crate::types::{Alignment, ErrModel, FmtError, Sign};

verus! {

/// The per-placeholder formatting state: the lookup key, the parsed
/// specifier, the raw placeholder text, and the buffer the rendered output
/// is written into.
#[derive(Debug)]
pub struct Formatter {
    /// The identifier that names the value to format.
    pub key: String,
    fill: char,
    align: Alignment,
    sign: Sign,
    alternate: bool,
    width: Option<usize>,
    thousands: bool,
    precision: Option<usize>,
    ty: Option<char>,
    buff: Vec<char>,
    pattern: Vec<char>,
}

impl View for Formatter {
    type V = FmtState;

    closed spec fn view(&self) -> FmtState {
        FmtState {
            key: self.key@,
            fill: self.fill,
            align: self.align,
            sign: self.sign,
            alternate: self.alternate,
            width: self.width,
            thousands: self.thousands,
            precision: self.precision,
            ty: self.ty,
            buff: self.buff@,
            pattern: self.pattern@,
        }
    }
}

/// Whether `c` is one of the four alignment tokens of the mini-language.
pub fn is_alignment_token(c: char) -> (r: bool)
    ensures
        r == is_align_char(c),
{
    match c {
        '=' | '<' | '^' | '>' => true,
        _ => false,
    }
}

/// Whether `c` is one of the three sign tokens.
pub fn is_sign_element(c: char) -> (r: bool)
    ensures
        r == is_sign_char(c),
{
    match c {
        ' ' | '-' | '+' => true,
        _ => false,
    }
}

/// Whether `c` is a recognized type letter.
pub fn is_type_element(c: char) -> (r: bool)
    ensures
        r == is_type_char(c),
{
    match c {
        'b' | 'c' | 'd' | 'o' | 'x' | 'X' | 'n' | 'e' | 'E' | 'f' | 'F' | 'g' | 'G' | '%' | 's'
            | '?' => true,
        _ => false,
    }
}

fn alignment_of(c: char) -> (r: Alignment)
    ensures
        r == align_of_char(c),
{
    match c {
        '<' => Alignment::Left,
        '^' => Alignment::Center,
        '>' => Alignment::Right,
        _ => Alignment::Equal,
    }
}

fn sign_of(c: char) -> (r: Sign)
    ensures
        r == sign_of_char(c),
{
    match c {
        '+' => Sign::Plus,
        '-' => Sign::Minus,
        _ => Sign::Space,
    }
}

fn digit_of(c: char) -> (r: u64)
    requires
        is_digit_char(c),
    ensures
        r == digit_value(c),
        r <= 9,
{
    match c {
        '0' => 0,
        '1' => 1,
        '2' => 2,
        '3' => 3,
        '4' => 4,
        '5' => 5,
        '6' => 6,
        '7' => 7,
        '8' => 8,
        _ => 9,
    }
}

/// A digit run ends no earlier than it starts and no later than the end of
/// the text.
proof fn lemma_digit_run_end_bounds(s: Seq<char>, i: int)
    requires
        0 <= i <= s.len(),
    ensures
        i <= digit_run_end(s, i) <= s.len(),
    decreases s.len() - i,
{
    if i < s.len() && is_digit_char(s[i]) {
        lemma_digit_run_end_bounds(s, i + 1);
    }
}

/// The run of digits starting at `i` keeps the same end wherever inside it
/// the measurement starts.
proof fn lemma_digit_run_skip(s: Seq<char>, i: int)
    requires
        0 <= i < s.len(),
        is_digit_char(s[i]),
    ensures
        digit_run_end(s, i) == digit_run_end(s, i + 1),
{
}

/// Appending one digit to a run multiplies its value by ten and adds the
/// digit.
proof fn lemma_digits_value_step(s: Seq<char>, a: int, j: int)
    requires
        0 <= a <= j < s.len(),
    ensures
        digits_value(s.subrange(a, j + 1)) == digits_value(s.subrange(a, j)) * 10 + digit_value(
            s[j],
        ),
{
    let w = s.subrange(a, j + 1);
    assert(w.drop_last() =~= s.subrange(a, j));
    assert(w.last() == s[j]);
}

/// Scans the maximal digit run at `pos`, returning how many characters it
/// holds and its value, or `None` for a run whose value does not fit.
fn get_integer(s: &[char], pos: usize) -> (r: (usize, Option<i64>))
    requires
        pos <= s@.len(),
    ensures
        ({
            let e = digit_run_end(s@, pos as int);
            let run = s@.subrange(pos as int, e);
            &&& pos + r.0 == e
            &&& e <= s@.len()
            &&& (if r.0 == 0 {
                r.1 is None
            } else if digits_value(run) > i64::MAX as nat {
                r.1 is None
            } else {
                r.1 == Some(digits_value(run) as i64)
            })
        }),
{
    let ghost gend = digit_run_end(s@, pos as int);
    let mut j: usize = pos;
    let mut val: i64 = 0;
    let mut overflow: bool = false;
    loop
        invariant
            pos <= j <= s@.len(),
            gend == digit_run_end(s@, pos as int),
            gend == digit_run_end(s@, j as int),
            0 <= val <= i64::MAX,
            !overflow ==> val == digits_value(s@.subrange(pos as int, j as int)),
            overflow ==> digits_value(s@.subrange(pos as int, j as int)) > i64::MAX as nat,
        ensures
            j == gend,
            !overflow ==> val == digits_value(s@.subrange(pos as int, j as int)),
            overflow ==> digits_value(s@.subrange(pos as int, j as int)) > i64::MAX as nat,
        decreases s@.len() - j,
    {
        if j >= s.len() || !is_ascii_digit(s[j]) {
            proof {
                assert(digit_run_end(s@, j as int) == j);
            }
            break ;
        }
        let d: u64 = digit_of(s[j]);
        proof {
            lemma_digit_run_skip(s@, j as int);
            lemma_digits_value_step(s@, pos as int, j as int);
        }
        if !overflow {
            if val <= (i64::MAX - (d as i64)) / 10 {
                val = val * 10 + (d as i64);
            } else {
                proof {
                    assert(val * 10 + d > i64::MAX) by (nonlinear_arith)
                        requires
                            val > (i64::MAX - (d as i64)) / 10,
                            0 <= d <= 9,
                            0 <= val,
                    ;
                }
                overflow = true;
            }
        } else {
            proof {
                let prev = digits_value(s@.subrange(pos as int, j as int));
                assert(prev * 10 + digit_value(s@[j as int]) > i64::MAX as nat) by (
                nonlinear_arith)
                    requires
                        prev > i64::MAX as nat,
                ;
            }
        }
        j = j + 1;
    }
    let consumed: usize = j - pos;
    if consumed == 0 {
        (0, None)
    } else if overflow {
        (consumed, None)
    } else {
        (consumed, Some(val))
    }
}

fn is_ascii_digit(c: char) -> (r: bool)
    ensures
        r == is_digit_char(c),
{
    match c {
        '0' | '1' | '2' | '3' | '4' | '5' | '6' | '7' | '8' | '9' => true,
        _ => false,
    }
}

/// Parses the grammar steps before the type letter, returning the fields
/// so far and the position where the type letter would start.
#[verifier::rlimit(100)]
fn parse_front(s: &[char]) -> (r: Result<(FormatSpec, usize), FmtError>)
    requires
        s@.len() > 0,
    ensures
        match r {
            Ok(f) => crate::specs::spec_parse_front(s@) == Ok::<(FormatSpec, int), Seq<char>>(
                (f.0, f.1 as int),
            ) && f.1 <= s@.len(),
            Err(e) => crate::specs::spec_parse_front(s@) matches Err(m) && e@ == ErrModel::Invalid(
                m,
            ),
        },
{
    let n: usize = s.len();
    let ghost st1 = crate::specs::sp_fill_align(s@);
    let mut fill: char = ' ';
    let mut align: Alignment = Alignment::Unspecified;
    let mut fill_explicit: bool = false;
    let mut pos: usize = 0;
    if n >= 2 && is_alignment_token(s[1]) {
        fill = s[0];
        align = alignment_of(s[1]);
        fill_explicit = true;
        pos = 2;
    } else if is_alignment_token(s[0]) {
        align = alignment_of(s[0]);
        pos = 1;
    }
    proof {
        assert(st1 == (fill, align, fill_explicit, pos as int));
    }
    let ghost st2 = crate::specs::sp_sign(s@, st1.3);
    let mut sign: Sign = Sign::Unspecified;
    if pos < n && is_sign_element(s[pos]) {
        sign = sign_of(s[pos]);
        pos = pos + 1;
    }
    proof {
        assert(st2 == (sign, pos as int));
    }
    let ghost st3 = crate::specs::sp_alternate(s@, st2.1);
    let mut alternate: bool = false;
    if pos < n && s[pos] == '#' {
        alternate = true;
        pos = pos + 1;
    }
    proof {
        assert(st3 == (alternate, pos as int));
    }
    let ghost st4 = crate::specs::sp_zero(s@, st1.0, st1.1, st1.2, st3.1);
    if !fill_explicit && pos < n && s[pos] == '0' {
        fill = '0';
        if matches!(align, Alignment::Unspecified) {
            align = Alignment::Equal;
        }
        pos = pos + 1;
    }
    proof {
        assert(st4 == (fill, align, pos as int));
    }
    let ghost w = crate::specs::sp_run(s@, st4.2);
    let width_scan = get_integer(s, pos);
    proof {
        assert(w.0 == s@.subrange(pos as int, digit_run_end(s@, pos as int)));
        assert(w.1 == pos + width_scan.0);
    }
    let mut width: Option<usize> = None;
    if width_scan.0 != 0 {
        match width_scan.1 {
            None => {
                proof {
                    assert(run_overflows(w.0));
                }
                return Err(FmtError::Invalid("overflow error when parsing width".to_owned()));
            },
            Some(v) => {
                if (v as u64) > (usize::MAX as u64) {
                    proof {
                        assert(run_overflows(w.0));
                    }
                    return Err(
                        FmtError::Invalid("overflow error when parsing width".to_owned()),
                    );
                }
                width = Some(v as usize);
            },
        }
    }
    pos = pos + width_scan.0;
    proof {
        assert(!(w.0.len() > 0 && run_overflows(w.0)));
        assert(width == (if w.0.len() == 0 {
            None
        } else {
            Some(digits_value(w.0) as usize)
        }));
    }
    let ghost st6 = crate::specs::sp_comma(s@, w.1);
    let mut thousands: bool = false;
    if pos < n && s[pos] == ',' {
        thousands = true;
        pos = pos + 1;
    }
    proof {
        assert(st6 == (thousands, pos as int));
    }
    let mut precision: Option<usize> = None;
    if pos < n && s[pos] == '.' {
        let ghost pr = crate::specs::sp_run(s@, st6.1 + 1);
        let prec_scan = get_integer(s, pos + 1);
        proof {
            assert(pr.0 == s@.subrange(pos + 1, digit_run_end(s@, pos + 1)));
            assert(pr.1 == pos + 1 + prec_scan.0);
        }
        if prec_scan.0 == 0 {
            return Err(FmtError::Invalid("Format specifier missing precision".to_owned()));
        }
        match prec_scan.1 {
            None => {
                proof {
                    assert(run_overflows(pr.0));
                }
                return Err(
                    FmtError::Invalid("overflow error when parsing precision".to_owned()),
                );
            },
            Some(v) => {
                if (v as u64) > (usize::MAX as u64) {
                    proof {
                        assert(run_overflows(pr.0));
                    }
                    return Err(
                        FmtError::Invalid("overflow error when parsing precision".to_owned()),
                    );
                }
                precision = Some(v as usize);
            },
        }
        pos = pos + 1 + prec_scan.0;
    }
    let partial = FormatSpec { fill, align, sign, alternate, width, thousands, precision, ty: None };
    Ok((partial, pos))
}

/// Parses the format-specifier text that follows the identifier and colon.
#[verifier::rlimit(100)]
fn parse_format(s: &[char]) -> (r: Result<FormatSpec, FmtError>)
    ensures
        match r {
            Ok(f) => spec_parse(s@) == Ok::<FormatSpec, Seq<char>>(f),
            Err(e) => spec_parse(s@) matches Err(m) && e@ == ErrModel::Invalid(m),
        },
{
    let n: usize = s.len();
    if n == 0 {
        return Ok(
            FormatSpec {
                fill: ' ',
                align: Alignment::Unspecified,
                sign: Sign::Unspecified,
                alternate: false,
                width: None,
                thousands: false,
                precision: None,
                ty: None,
            },
        );
    }
    let front = match parse_front(s) {
        Ok(f) => f,
        Err(e) => {
            return Err(e);
        },
    };
    let partial = front.0;
    let pos = front.1;
    let thousands = partial.thousands;
    proof {
        assert(spec_parse(s@) == spec_parse_finish(s@, pos as int, partial));
    }
    if n - pos > 1 {
        return Err(FmtError::Invalid("Invalid format specifier".to_owned()));
    }
    if n - pos == 1 {
        let c = s[pos];
        if !is_type_element(c) {
            let mut msg = "Invalid type specifier: '".to_owned();
            crate::chars::push_char(&mut msg, c);
            msg.append("'");
            proof {
                assert(msg@ =~= invalid_type_msg(c));
            }
            return Err(FmtError::Invalid(msg));
        }
        if thousands && !is_comma_type(c) {
            let mut msg = "Invalid comma type: ".to_owned();
            crate::chars::push_char(&mut msg, c);
            proof {
                assert(msg@ =~= invalid_comma_msg(c));
            }
            return Err(FmtError::Invalid(msg));
        }
        return Ok(FormatSpec { ty: Some(c), ..partial });
    }
    Ok(partial)
}

fn is_comma_type(c: char) -> (r: bool)
    ensures
        r == comma_type_ok(Some(c)),
{
    match c {
        'd' | 'e' | 'f' | 'g' | 'E' | 'G' | '%' | 'F' => true,
        _ => false,
    }
}

impl Formatter {
    /// Builds a formatter from one placeholder's raw text (the part between
    /// the braces): the identifier runs up to the first `:`, the rest is
    /// the format specifier.
    pub fn from_str(s: &str) -> (r: Result<Formatter, FmtError>)
        ensures
            match r {
                Ok(f) => spec_from_str(s@) == Ok::<FmtState, Seq<char>>(f@),
                Err(e) => spec_from_str(s@) matches Err(m) && e@ == ErrModel::Invalid(m),
            },
    {
        let cs = chars_of(s);
        Self::from_chars(&cs)
    }

    /// The same construction, from the placeholder text as characters.
    pub(crate) fn from_chars(p: &Vec<char>) -> (r: Result<Formatter, FmtError>)
        ensures
            match r {
                Ok(f) => spec_from_str(p@) == Ok::<FmtState, Seq<char>>(f@),
                Err(e) => spec_from_str(p@) matches Err(m) && e@ == ErrModel::Invalid(m),
            },
    {
        if p.len() == 0 || p[0] == ':' {
            return Err(FmtError::Invalid("must specify identifier".to_owned()));
        }
        let n: usize = p.len();
        let mut ci: usize = 0;
        while ci < n && p[ci] != ':'
            invariant
                0 <= ci <= n,
                n == p@.len(),
                colon_pos(p@, 0) == colon_pos(p@, ci as int),
            decreases n - ci,
        {
            ci = ci + 1;
        }
        proof {
            assert(colon_pos(p@, ci as int) == ci);
        }
        let mut key_chars: Vec<char> = Vec::new();
        let mut i: usize = 0;
        while i < ci
            invariant
                0 <= i <= ci <= n,
                n == p@.len(),
                key_chars@ == p@.take(i as int),
            decreases ci - i,
        {
            key_chars.push(p[i]);
            proof {
                assert(key_chars@ =~= p@.take(i + 1));
            }
            i = i + 1;
        }
        let key = string_of(&key_chars);
        let mut rest: Vec<char> = Vec::new();
        if ci < n {
            let mut j: usize = ci + 1;
            while j < n
                invariant
                    ci + 1 <= j <= n,
                    n == p@.len(),
                    rest@ == p@.subrange(ci + 1, j as int),
                decreases n - j,
            {
                rest.push(p[j]);
                proof {
                    assert(rest@ =~= p@.subrange(ci + 1, j + 1));
                }
                j = j + 1;
            }
            proof {
                assert(rest@ =~= p@.skip(ci + 1));
            }
        } else {
            proof {
                assert(key_chars@ =~= p@);
            }
        }
        let f = match parse_format(rest.as_slice()) {
            Ok(f) => f,
            Err(e) => {
                return Err(e);
            },
        };
        let mut pattern: Vec<char> = Vec::new();
        let mut k: usize = 0;
        while k < n
            invariant
                0 <= k <= n,
                n == p@.len(),
                pattern@ == p@.take(k as int),
            decreases n - k,
        {
            pattern.push(p[k]);
            proof {
                assert(pattern@ =~= p@.take(k + 1));
            }
            k = k + 1;
        }
        proof {
            assert(pattern@ =~= p@);
        }
        Ok(
            Formatter {
                key,
                fill: f.fill,
                align: f.align,
                sign: f.sign,
                alternate: f.alternate,
                width: f.width,
                thousands: f.thousands,
                precision: f.precision,
                ty: f.ty,
                buff: Vec::new(),
                pattern,
            },
        )
    }

    /// Re-emits the original placeholder text verbatim, braces included,
    /// into the output buffer.  Used by callers that choose to ignore a
    /// missing identifier.
    pub fn skip(&mut self) -> (r: Result<(), FmtError>)
        ensures
            r is Ok,
            final(self)@ == old(self)@.with_appended(seq!['{'] + old(self)@.pattern + seq!['}']),
    {
        self.buff.push('{');
        let mut i: usize = 0;
        let n: usize = self.pattern.len();
        while i < n
            invariant
                0 <= i <= n,
                n == self.pattern@.len(),
                self.key == old(self).key,
                self.fill == old(self).fill,
                self.align == old(self).align,
                self.sign == old(self).sign,
                self.alternate == old(self).alternate,
                self.width == old(self).width,
                self.thousands == old(self).thousands,
                self.precision == old(self).precision,
                self.ty == old(self).ty,
                self.pattern == old(self).pattern,
                self.buff@ == old(self).buff@ + seq!['{'] + self.pattern@.take(i as int),
            decreases n - i,
        {
            let c = self.pattern[i];
            self.buff.push(c);
            proof {
                assert(self.buff@ =~= old(self).buff@ + seq!['{'] + self.pattern@.take(i + 1));
            }
            i = i + 1;
        }
        self.buff.push('}');
        proof {
            assert(self.buff@ =~= old(self).buff@ + (seq!['{'] + old(self)@.pattern + seq!['}']));
        }
        Ok(())
    }

    /// The fill character.
    pub fn fill(&self) -> (r: char)
        ensures
            r == self@.fill,
    {
        self.fill
    }

    /// The alignment.
    pub fn align(&self) -> (r: Alignment)
        ensures
            r == self@.align,
    {
        self.align
    }

    /// The minimum field width, if one was written.
    pub fn width(&self) -> (r: Option<usize>)
        ensures
            r == self@.width,
    {
        self.width
    }

    /// Whether the thousands flag was written.
    pub fn thousands(&self) -> (r: bool)
        ensures
            r == self@.thousands,
    {
        self.thousands
    }

    /// The precision, if one was written.
    pub fn precision(&self) -> (r: Option<usize>)
        ensures
            r == self@.precision,
    {
        self.precision
    }

    /// Clears the precision; numeric renderers use this once the precision
    /// has been consumed as a digit count.
    pub fn clear_precision(&mut self)
        ensures
            final(self)@ == (FmtState { precision: None, ..old(self)@ }),
    {
        self.precision = None;
    }

    /// The sign token.
    pub fn sign(&self) -> (r: Sign)
        ensures
            r == self@.sign,
    {
        self.sign
    }

    /// Whether a `+` sign was requested.
    pub fn sign_plus(&self) -> (r: bool)
        ensures
            r == (self@.sign is Plus),
    {
        matches!(self.sign, Sign::Plus)
    }

    /// Whether a `-` sign was requested.
    pub fn sign_minus(&self) -> (r: bool)
        ensures
            r == (self@.sign is Minus),
    {
        matches!(self.sign, Sign::Minus)
    }

    /// Whether the alternate (`#`) flag was written.
    pub fn alternate(&self) -> (r: bool)
        ensures
            r == self@.alternate,
    {
        self.alternate
    }

    /// The type letter, if one was written.
    pub fn ty(&self) -> (r: Option<char>)
        ensures
            r == self@.ty,
    {
        self.ty
    }

    /// A copy of the lookup key.
    pub fn key_string(&self) -> (r: String)
        ensures
            r@ == self@.key,
    {
        self.key.clone()
    }

    /// The output buffer's contents, as a string.
    pub fn output(&self) -> (r: String)
        ensures
            r@ == self@.buff,
    {
        string_of(&self.buff)
    }

    /// Hands the output buffer over, consuming the formatter.
    pub(crate) fn into_buffer(self) -> (r: Vec<char>)
        ensures
            r@ == self@.buff,
    {
        self.buff
    }

    pub(crate) fn set_precision(&mut self, p: Option<usize>)
        ensures
            final(self)@ == (FmtState { precision: p, ..old(self)@ }),
    {
        self.precision = p;
    }

    pub(crate) fn push_buff(&mut self, c: char)
        ensures
            final(self)@ == old(self)@.with_appended(seq![c]),
    {
        self.buff.push(c);
        proof {
            assert(self.buff@ =~= old(self).buff@ + seq![c]);
        }
    }
}

} // verus!
