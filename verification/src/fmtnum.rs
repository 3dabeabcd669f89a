//! Rendering numbers: digit strings in the four supported bases, the sign
//! and alternate-form prefixes, and the checks the numeric paths make.
//!
//! A floating-point magnitude reaches this module as already-written text
//! (see [`Formatter::float_str`]): the engine validates the specifier,
//! writes the sign, and pads, while the caller supplies the digits.

use vstd::prelude::*;
use vstd::string::StringExecFns;

use crate::chars::chars_of;
use crate::formatter::Formatter;
use crate::specs::{
    digit_char, float_delta, float_err, float_ty, int_delta, int_err, int_numeral, int_prefix,
    num_plus, spec_digits,
};
use crate::types::{Alignment, FmtError};

verus! {

fn digit_char_of(d: u64, upper: bool) -> (r: char)
    requires
        d < 16,
    ensures
        r == digit_char(d as nat, upper),
{
    match d {
        0 => '0',
        1 => '1',
        2 => '2',
        3 => '3',
        4 => '4',
        5 => '5',
        6 => '6',
        7 => '7',
        8 => '8',
        9 => '9',
        10 => if upper {
            'A'
        } else {
            'a'
        },
        11 => if upper {
            'B'
        } else {
            'b'
        },
        12 => if upper {
            'C'
        } else {
            'c'
        },
        13 => if upper {
            'D'
        } else {
            'd'
        },
        14 => if upper {
            'E'
        } else {
            'e'
        },
        _ => if upper {
            'F'
        } else {
            'f'
        },
    }
}

/// Appends the digit string of `n` in the given base, most significant
/// digit first.
fn push_digits(n: u64, base: u64, upper: bool, out: &mut Vec<char>)
    requires
        2 <= base <= 16,
    ensures
        final(out)@ == old(out)@ + spec_digits(n as nat, base as nat, upper),
    decreases n,
{
    if n >= base {
        proof {
            assert(n / base < n) by (nonlinear_arith)
                requires
                    n >= base,
                    base >= 2,
            ;
        }
        push_digits(n / base, base, upper, out);
    }
    let d: u64 = n % base;
    out.push(digit_char_of(d, upper));
    proof {
        let nn = n as nat;
        let bn = base as nat;
        if n >= base {
            assert(spec_digits(nn, bn, upper) == spec_digits(nn / bn, bn, upper) + seq![
                digit_char(nn % bn, upper),
            ]);
            assert((n / base) as nat == nn / bn);
            assert((n % base) as nat == nn % bn);
        } else {
            assert(n % base == n) by (nonlinear_arith)
                requires
                    n < base,
                    2 <= base,
            ;
            assert(spec_digits(nn, bn, upper) == seq![digit_char(nn, upper)]);
        }
        assert(out@ =~= old(out)@ + spec_digits(nn, bn, upper));
    }
}

impl Formatter {
    /// The shared integer path: `neg` tells whether the value is negative,
    /// `dec` is its decimal magnitude, `pat` its two's-complement bit
    /// pattern for the binary, octal and hex renderings, and `name` the
    /// type name used in error messages.
    #[verifier::rlimit(100)]
    fn int_common(&mut self, neg: bool, dec: u64, pat: u64, name: &str) -> (r: Result<
        (),
        FmtError,
    >)
        ensures
            final(self)@ == old(self)@.with_appended(
                int_delta(old(self)@, neg, dec as nat, pat as nat),
            ),
            match r {
                Ok(_) => int_err(old(self)@, neg, dec as nat, pat as nat, name@) is None,
                Err(e) => int_err(old(self)@, neg, dec as nat, pat as nat, name@) == Some(e@),
            },
    {
        let tyc: char = match self.ty() {
            None => ' ',
            Some(c) => c,
        };
        if !(tyc == ' ' || tyc == 'b' || tyc == 'o' || tyc == 'x' || tyc == 'X') {
            let mut msg = "Unknown format code '".to_owned();
            crate::chars::push_char(&mut msg, tyc);
            msg.append("' for object of type ");
            msg.append(name);
            proof {
                assert(msg@ =~= crate::specs::int_unknown_code_msg(tyc, name@));
                assert(self@.buff =~= self@.buff + Seq::<char>::empty());
            }
            return Err(FmtError::TypeError(msg));
        }
        if self.precision().is_some() {
            proof {
                assert(self@.buff =~= self@.buff + Seq::<char>::empty());
            }
            return Err(FmtError::TypeError("precision not allowed for integers".to_owned()));
        }
        if self.thousands() {
            proof {
                assert(self@.buff =~= self@.buff + Seq::<char>::empty());
            }
            return Err(FmtError::Invalid("thousands specifier not yet supported".to_owned()));
        }
        if self.fill() == '0' && matches!(self.align(), Alignment::Right) {
            proof {
                assert(self@.buff =~= self@.buff + Seq::<char>::empty());
            }
            return Err(FmtError::Invalid("sign aware 0 padding not yet supported".to_owned()));
        }
        if !neg && self.sign_plus() {
            self.push_buff('+');
        }
        proof {
            assert(self@.buff =~= old(self)@.buff + num_plus(neg, old(self)@.sign));
        }
        if self.alternate() {
            match tyc {
                'b' => {
                    self.push_buff('0');
                    self.push_buff('b');
                    proof {
                        reveal_strlit("0b");
                        assert("0b"@ =~= seq!['0', 'b']);
                    }
                },
                'o' => {
                    self.push_buff('0');
                    self.push_buff('o');
                    proof {
                        reveal_strlit("0o");
                        assert("0o"@ =~= seq!['0', 'o']);
                    }
                },
                'x' | 'X' => {
                    self.push_buff('0');
                    self.push_buff('x');
                    proof {
                        reveal_strlit("0x");
                        assert("0x"@ =~= seq!['0', 'x']);
                    }
                },
                _ => {
                    proof {
                        assert(self@.buff =~= old(self)@.buff + int_delta(
                            old(self)@,
                            neg,
                            dec as nat,
                            pat as nat,
                        ));
                    }
                    return Err(
                        FmtError::TypeError(
                            "alternate ('#') cannot be used with type ' '".to_owned(),
                        ),
                    );
                },
            }
        }
        proof {
            assert(self@.buff =~= old(self)@.buff + num_plus(neg, old(self)@.sign) + int_prefix(
                old(self)@.alternate,
                tyc,
            ));
        }
        let mut numeral: Vec<char> = Vec::new();
        match tyc {
            ' ' => {
                if neg {
                    numeral.push('-');
                }
                push_digits(dec, 10, false, &mut numeral);
            },
            'b' => {
                push_digits(pat, 2, false, &mut numeral);
            },
            'o' => {
                push_digits(pat, 8, false, &mut numeral);
            },
            'x' => {
                push_digits(pat, 16, false, &mut numeral);
            },
            _ => {
                push_digits(pat, 16, true, &mut numeral);
            },
        }
        proof {
            assert(numeral@ =~= int_numeral(neg, dec as nat, pat as nat, tyc));
        }
        let eff = match self.align() {
            Alignment::Unspecified => Alignment::Right,
            a => a,
        };
        match self.write_padded(&numeral, eff) {
            Ok(_) => {
                proof {
                    assert(final(self)@.buff =~= old(self)@.buff + int_delta(
                        old(self)@,
                        neg,
                        dec as nat,
                        pat as nat,
                    ));
                }
                Ok(())
            },
            Err(e) => {
                proof {
                    assert(final(self)@.buff =~= old(self)@.buff + int_delta(
                        old(self)@,
                        neg,
                        dec as nat,
                        pat as nat,
                    ));
                }
                Err(e)
            },
        }
    }

    /// Renders a `u16` under this specifier.
    pub fn u16(&mut self, x: u16) -> (r: Result<(), FmtError>)
        ensures
            final(self)@ == old(self)@.with_appended(
                int_delta(old(self)@, false, x as nat, x as nat),
            ),
            match r {
                Ok(_) => int_err(old(self)@, false, x as nat, x as nat, "u16"@) is None,
                Err(e) => int_err(old(self)@, false, x as nat, x as nat, "u16"@) == Some(e@),
            },
    {
        self.int_common(false, x as u64, x as u64, "u16")
    }

    /// Renders an `i64` under this specifier.
    pub fn i64(&mut self, x: i64) -> (r: Result<(), FmtError>)
        ensures
            final(self)@ == old(self)@.with_appended(
                int_delta(old(self)@, x < 0, i64_mag(x), (x as u64) as nat),
            ),
            match r {
                Ok(_) => int_err(old(self)@, x < 0, i64_mag(x), (x as u64) as nat, "i64"@)
                    is None,
                Err(e) => int_err(old(self)@, x < 0, i64_mag(x), (x as u64) as nat, "i64"@)
                    == Some(e@),
            },
    {
        let neg: bool = x < 0;
        let dec: u64 = if x < 0 {
            (-(x as i128)) as u64
        } else {
            x as u64
        };
        let pat: u64 = x as u64;
        self.int_common(neg, dec, pat, "i64")
    }

    /// Renders an `i8` under this specifier.
    pub fn i8(&mut self, x: i8) -> (r: Result<(), FmtError>)
        ensures
            final(self)@ == old(self)@.with_appended(
                int_delta(old(self)@, x < 0, i8_mag(x), (x as u8) as nat),
            ),
            match r {
                Ok(_) => int_err(old(self)@, x < 0, i8_mag(x), (x as u8) as nat, "i8"@) is None,
                Err(e) => int_err(old(self)@, x < 0, i8_mag(x), (x as u8) as nat, "i8"@) == Some(
                    e@,
                ),
            },
    {
        let neg: bool = x < 0;
        let dec: u64 = if x < 0 {
            (-(x as i64)) as u64
        } else {
            x as u64
        };
        self.int_common(neg, dec, (x as u8) as u64, "i8")
    }

    /// Renders a `u8` under this specifier.
    pub fn u8(&mut self, x: u8) -> (r: Result<(), FmtError>)
        ensures
            final(self)@ == old(self)@.with_appended(
                int_delta(old(self)@, false, x as nat, x as nat),
            ),
            match r {
                Ok(_) => int_err(old(self)@, false, x as nat, x as nat, "u8"@) is None,
                Err(e) => int_err(old(self)@, false, x as nat, x as nat, "u8"@) == Some(e@),
            },
    {
        self.int_common(false, x as u64, x as u64, "u8")
    }

    /// Renders an `i16` under this specifier.
    pub fn i16(&mut self, x: i16) -> (r: Result<(), FmtError>)
        ensures
            final(self)@ == old(self)@.with_appended(
                int_delta(old(self)@, x < 0, i16_mag(x), (x as u16) as nat),
            ),
            match r {
                Ok(_) => int_err(old(self)@, x < 0, i16_mag(x), (x as u16) as nat, "i16"@)
                    is None,
                Err(e) => int_err(old(self)@, x < 0, i16_mag(x), (x as u16) as nat, "i16"@)
                    == Some(e@),
            },
    {
        let neg: bool = x < 0;
        let dec: u64 = if x < 0 {
            (-(x as i64)) as u64
        } else {
            x as u64
        };
        self.int_common(neg, dec, (x as u16) as u64, "i16")
    }

    /// Renders a `u32` under this specifier.
    pub fn u32(&mut self, x: u32) -> (r: Result<(), FmtError>)
        ensures
            final(self)@ == old(self)@.with_appended(
                int_delta(old(self)@, false, x as nat, x as nat),
            ),
            match r {
                Ok(_) => int_err(old(self)@, false, x as nat, x as nat, "u32"@) is None,
                Err(e) => int_err(old(self)@, false, x as nat, x as nat, "u32"@) == Some(e@),
            },
    {
        self.int_common(false, x as u64, x as u64, "u32")
    }

    /// Renders an `i32` under this specifier.
    pub fn i32(&mut self, x: i32) -> (r: Result<(), FmtError>)
        ensures
            final(self)@ == old(self)@.with_appended(
                int_delta(old(self)@, x < 0, i32_mag(x), (x as u32) as nat),
            ),
            match r {
                Ok(_) => int_err(old(self)@, x < 0, i32_mag(x), (x as u32) as nat, "i32"@)
                    is None,
                Err(e) => int_err(old(self)@, x < 0, i32_mag(x), (x as u32) as nat, "i32"@)
                    == Some(e@),
            },
    {
        let neg: bool = x < 0;
        let dec: u64 = if x < 0 {
            (-(x as i64)) as u64
        } else {
            x as u64
        };
        self.int_common(neg, dec, (x as u32) as u64, "i32")
    }

    /// Renders a `u64` under this specifier.
    pub fn u64(&mut self, x: u64) -> (r: Result<(), FmtError>)
        ensures
            final(self)@ == old(self)@.with_appended(
                int_delta(old(self)@, false, x as nat, x as nat),
            ),
            match r {
                Ok(_) => int_err(old(self)@, false, x as nat, x as nat, "u64"@) is None,
                Err(e) => int_err(old(self)@, false, x as nat, x as nat, "u64"@) == Some(e@),
            },
    {
        self.int_common(false, x, x, "u64")
    }

    /// Renders a `usize` under this specifier.
    pub fn usize(&mut self, x: usize) -> (r: Result<(), FmtError>)
        ensures
            final(self)@ == old(self)@.with_appended(
                int_delta(old(self)@, false, x as nat, x as nat),
            ),
            match r {
                Ok(_) => int_err(old(self)@, false, x as nat, x as nat, "usize"@) is None,
                Err(e) => int_err(old(self)@, false, x as nat, x as nat, "usize"@) == Some(e@),
            },
    {
        self.int_common(false, x as u64, x as u64, "usize")
    }

    /// Renders an `isize` under this specifier.
    pub fn isize(&mut self, x: isize) -> (r: Result<(), FmtError>)
        ensures
            final(self)@ == old(self)@.with_appended(
                int_delta(old(self)@, x < 0, isize_mag(x), ((x as i64) as u64) as nat),
            ),
            match r {
                Ok(_) => int_err(old(self)@, x < 0, isize_mag(x), ((x as i64) as u64) as nat,
                    "isize"@) is None,
                Err(e) => int_err(old(self)@, x < 0, isize_mag(x), ((x as i64) as u64) as nat,
                    "isize"@) == Some(e@),
            },
    {
        let neg: bool = x < 0;
        let dec: u64 = if x < 0 {
            (-(x as i128)) as u64
        } else {
            (x as i64) as u64
        };
        self.int_common(neg, dec, (x as i64) as u64, "isize")
    }

    /// Renders an already-written floating-point magnitude under this
    /// specifier: the type letter must be absent or one of `f`, `e`, `E`,
    /// and the alternate, thousands and zero-padding options are rejected.
    /// `non_negative` tells whether the value was `>= 0`, which decides the
    /// `+` sign; `s` holds the rendered magnitude, a leading minus
    /// included.  The precision counts decimal digits and was consumed
    /// when `s` was written, so it plays no part in padding.
    pub fn float_str(&mut self, non_negative: bool, s: &str) -> (r: Result<(), FmtError>)
        ensures
            final(self)@ == old(self)@.with_appended(float_delta(old(self)@, non_negative, s@)),
            match r {
                Ok(_) => float_err(old(self)@, s@.len()) is None,
                Err(e) => float_err(old(self)@, s@.len()) == Some(e@),
            },
    {
        let tyc: char = match self.ty() {
            None => 'f',
            Some(c) => c,
        };
        if !(tyc == 'f' || tyc == 'e' || tyc == 'E') {
            let mut msg = "Unknown format code '".to_owned();
            crate::chars::push_char(&mut msg, tyc);
            msg.append("' for object of type 'float'");
            proof {
                assert(msg@ =~= "Unknown format code '"@ + seq![float_ty(old(self)@.ty)]
                    + "' for object of type 'float'"@);
                assert(self@.buff =~= self@.buff + Seq::<char>::empty());
            }
            return Err(FmtError::TypeError(msg));
        }
        if self.alternate() {
            proof {
                assert(self@.buff =~= self@.buff + Seq::<char>::empty());
            }
            return Err(
                FmtError::TypeError(
                    "Alternate form (#) not allowed in float format specifier".to_owned(),
                ),
            );
        }
        if self.thousands() {
            proof {
                assert(self@.buff =~= self@.buff + Seq::<char>::empty());
            }
            return Err(FmtError::Invalid("thousands specifier not yet supported".to_owned()));
        }
        if self.fill() == '0' && matches!(self.align(), Alignment::Right) {
            proof {
                assert(self@.buff =~= self@.buff + Seq::<char>::empty());
            }
            return Err(FmtError::Invalid("sign aware 0 padding not yet supported".to_owned()));
        }
        if non_negative && self.sign_plus() {
            self.push_buff('+');
        }
        let prev = self.precision();
        self.clear_precision();
        let cs = chars_of(s);
        let eff = match self.align() {
            Alignment::Unspecified => Alignment::Right,
            a => a,
        };
        let res = self.write_padded(&cs, eff);
        self.set_precision(prev);
        proof {
            assert(final(self)@.buff =~= old(self)@.buff + float_delta(
                old(self)@,
                non_negative,
                s@,
            ));
        }
        res
    }
}

/// The decimal magnitude of an `i64`.
pub open spec fn i64_mag(x: i64) -> nat {
    if x < 0 {
        (-(x as int)) as nat
    } else {
        x as nat
    }
}

/// The decimal magnitude of an `i8`.
pub open spec fn i8_mag(x: i8) -> nat {
    if x < 0 {
        (-(x as int)) as nat
    } else {
        x as nat
    }
}

/// The decimal magnitude of an `i16`.
pub open spec fn i16_mag(x: i16) -> nat {
    if x < 0 {
        (-(x as int)) as nat
    } else {
        x as nat
    }
}

/// The decimal magnitude of an `i32`.
pub open spec fn i32_mag(x: i32) -> nat {
    if x < 0 {
        (-(x as int)) as nat
    } else {
        x as nat
    }
}

/// The decimal magnitude of an `isize`.
pub open spec fn isize_mag(x: isize) -> nat {
    if x < 0 {
        (-(x as int)) as nat
    } else {
        x as nat
    }
}

} // verus!
