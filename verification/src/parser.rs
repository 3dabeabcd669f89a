//! Formatting against a map of string variables: a parsed placeholder
//! chunk, its writer, and the `strfmt_options` entry point with its
//! ignore-missing mode.

use std::collections::HashMap;

use vstd::prelude::*;

use crate::chars::{chars_of, push_char};
use crate::formatter::Formatter;
use crate::scan::{scan_template, tokens_view, Token};
use crate::specs::{
    pad_rejected, pad_rejected_msg, rep_char, run_items, scan, spec_chunk_from_str,
    spec_chunk_write, spec_pad, spec_strfmt_options, trunc_len, ChunkModel, ScanEnd, ScanItem,
};
use crate::types::{Alignment, ErrModel, FmtError};

verus! {

/// Writes `n` copies of `c` onto the string.
pub fn write_char(s: &mut String, c: char, n: usize)
    ensures
        final(s)@ == old(s)@ + rep_char(c, n as nat),
{
    let mut i: usize = 0;
    proof {
        assert(old(s)@ + rep_char(c, 0) =~= old(s)@);
    }
    while i < n
        invariant
            0 <= i <= n,
            s@ == old(s)@ + rep_char(c, i as nat),
        decreases n - i,
    {
        push_char(s, c);
        proof {
            assert(old(s)@ + rep_char(c, i as nat) + seq![c] =~= old(s)@ + rep_char(
                c,
                (i + 1) as nat,
            ));
        }
        i = i + 1;
    }
}

/// Writes up to `n` leading characters of `src` onto the string, returning
/// how many were written: all of `src` when it is short enough, else
/// exactly `n`.
pub fn write_from(s: &mut String, src: &Vec<char>, n: usize) -> (w: usize)
    ensures
        w == trunc_len(src@.len(), Some(n)),
        final(s)@ == old(s)@ + src@.take(w as int),
{
    let lim: usize = if n < src.len() {
        n
    } else {
        src.len()
    };
    let mut i: usize = 0;
    proof {
        assert(old(s)@ + src@.take(0) =~= old(s)@);
    }
    while i < lim
        invariant
            0 <= i <= lim <= src@.len(),
            s@ == old(s)@ + src@.take(i as int),
        decreases lim - i,
    {
        push_char(s, src[i]);
        proof {
            assert(old(s)@ + src@.take(i as int) + seq![src@[i as int]] =~= old(s)@ + src@.take(
                i + 1,
            ));
        }
        i = i + 1;
    }
    lim
}

/// Truncates `text` by the precision, pads it with the fill character to
/// the width under the given effective alignment, and appends the result
/// to the string.  Padding into an `Equal` field is the one failure.
#[verifier::rlimit(100)]
fn pad_into_string(
    s: &mut String,
    text: &Vec<char>,
    fill: char,
    align: Alignment,
    width: Option<usize>,
    precision: Option<usize>,
) -> (r: Result<(), FmtError>)
    requires
        !(align is Unspecified),
    ensures
        match r {
            Ok(_) => !pad_rejected(text@.len(), align, width, precision) && final(s)@ == old(s)@
                + spec_pad(text@, fill, align, width, precision),
            Err(e) => pad_rejected(text@.len(), align, width, precision) && e@
                == ErrModel::Invalid(pad_rejected_msg()) && final(s)@ == old(s)@,
        },
{
    let len: usize = match precision {
        Some(p) => if p < text.len() {
            p
        } else {
            text.len()
        },
        None => text.len(),
    };
    let mut pad_after: usize = 0;
    match width {
        Some(w) => {
            if w > len {
                match align {
                    Alignment::Left => {
                        pad_after = w - len;
                    },
                    Alignment::Center => {
                        let total: usize = w - len;
                        write_char(s, fill, total / 2);
                        pad_after = total / 2 + total % 2;
                    },
                    Alignment::Right => {
                        write_char(s, fill, w - len);
                    },
                    _ => {
                        return Err(
                            FmtError::Invalid("sign aware 0 padding not yet supported".to_owned()),
                        );
                    },
                }
            }
        },
        None => {},
    }
    write_from(s, text, len);
    write_char(s, fill, pad_after);
    proof {
        let l = trunc_len(text@.len(), precision);
        assert(l == len);
        match width {
            None => {
                assert(old(s)@ + text@.take(l as int) + rep_char(fill, 0) =~= old(s)@ + spec_pad(
                    text@,
                    fill,
                    align,
                    width,
                    precision,
                ));
            },
            Some(w) => {
                if w <= l {
                    assert(old(s)@ + text@.take(l as int) + rep_char(fill, 0) =~= old(s)@
                        + spec_pad(text@, fill, align, width, precision));
                } else {
                    let p = (w - l) as nat;
                    if align is Left {
                        assert(old(s)@ + text@.take(l as int) + rep_char(fill, p) =~= old(s)@
                            + spec_pad(text@, fill, align, width, precision));
                    } else if align is Right {
                        assert(old(s)@ + rep_char(fill, p) + text@.take(l as int) + rep_char(
                            fill,
                            0,
                        ) =~= old(s)@ + spec_pad(text@, fill, align, width, precision));
                    } else {
                        assert(old(s)@ + rep_char(fill, p / 2) + text@.take(l as int) + rep_char(
                            fill,
                            p / 2 + p % 2,
                        ) =~= old(s)@ + spec_pad(text@, fill, align, width, precision));
                    }
                }
            },
        }
    }
    Ok(())
}

/// One parsed placeholder, kept apart from any value: the identifier and
/// the specifier fields its writer uses.
#[derive(Debug)]
pub struct FmtChunk {
    pub identifier: String,
    pub fill: char,
    pub align: Alignment,
    pub alternate: bool,
    pub width: Option<usize>,
    pub thousands: bool,
    pub precision: Option<usize>,
    pub ty: Option<char>,
}

impl View for FmtChunk {
    type V = ChunkModel;

    open spec fn view(&self) -> ChunkModel {
        ChunkModel {
            identifier: self.identifier@,
            fill: self.fill,
            align: self.align,
            alternate: self.alternate,
            width: self.width,
            thousands: self.thousands,
            precision: self.precision,
            ty: self.ty,
        }
    }
}

/// Relies on std's `HashMap::get` with `String` keys: `String` hashing and
/// equality go by the characters alone, so the call returns the value of
/// the entry whose key reads as `key` when the map holds one, and nothing
/// otherwise.
#[verifier::external_body]
fn lookup<'a>(vars: &'a HashMap<String, String>, key: &String) -> (r: Option<&'a String>)
    ensures
        match r {
            Some(v) => vars.deep_view().contains_key(key@) && v@ == vars.deep_view()[key@],
            None => !vars.deep_view().contains_key(key@),
        },
{
    vars.get(key)
}

impl FmtChunk {
    /// Builds a chunk from one placeholder's raw text, under the same
    /// grammar as [`Formatter::from_str`].
    pub fn from_str(s: &str) -> (r: Result<FmtChunk, FmtError>)
        ensures
            match r {
                Ok(c) => spec_chunk_from_str(s@) == Ok::<ChunkModel, Seq<char>>(c@),
                Err(e) => spec_chunk_from_str(s@) matches Err(m) && e@ == ErrModel::Invalid(m),
            },
    {
        let cs = chars_of(s);
        Self::from_chars(&cs)
    }

    /// The same construction, from the placeholder text as characters.
    pub(crate) fn from_chars(p: &Vec<char>) -> (r: Result<FmtChunk, FmtError>)
        ensures
            match r {
                Ok(c) => spec_chunk_from_str(p@) == Ok::<ChunkModel, Seq<char>>(c@),
                Err(e) => spec_chunk_from_str(p@) matches Err(m) && e@ == ErrModel::Invalid(m),
            },
    {
        match Formatter::from_chars(p) {
            Ok(f) => {
                let identifier = f.key_string();
                let fill = f.fill();
                let align = f.align();
                let alternate = f.alternate();
                let width = f.width();
                let thousands = f.thousands();
                let precision = f.precision();
                let ty = f.ty();
                Ok(
                    FmtChunk {
                        identifier,
                        fill,
                        align,
                        alternate,
                        width,
                        thousands,
                        precision,
                        ty,
                    },
                )
            },
            Err(e) => Err(e),
        }
    }

    /// Looks the identifier up in `vars` and appends the value, truncated
    /// and padded as a string, to `s`.  A missing identifier is a key
    /// error carrying the identifier itself; on any error `s` is left
    /// unchanged.
    pub fn write(&self, s: &mut String, vars: &HashMap<String, String>) -> (r: Result<
        (),
        FmtError,
    >)
        ensures
            match r {
                Ok(_) => spec_chunk_write(self@, vars.deep_view()) matches Ok(w) && final(s)@ == old(
                    s,
                )@ + w,
                Err(e) => spec_chunk_write(self@, vars.deep_view()) == Err::<Seq<char>, ErrModel>(
                    e@,
                ) && final(s)@ == old(s)@,
            },
    {
        let value = match lookup(vars, &self.identifier) {
            Some(v) => v,
            None => {
                return Err(FmtError::KeyError(self.identifier.clone()));
            },
        };
        let cs = chars_of(value.as_str());
        let eff = match self.align {
            Alignment::Unspecified => Alignment::Left,
            a => a,
        };
        pad_into_string(s, &cs, self.fill, eff, self.width, self.precision)
    }
}

/// Formats `fmtstr` against the string variables of `vars`.  In strict
/// mode every missing identifier aborts the call with a key error; with
/// `ignore_missing` such a placeholder is re-emitted verbatim, braces
/// included, while every other error still aborts.
#[verifier::rlimit(100)]
pub fn strfmt_options(fmtstr: &str, vars: &HashMap<String, String>, ignore_missing: bool) -> (r:
    Result<String, FmtError>)
    ensures
        match r {
            Ok(o) => spec_strfmt_options(fmtstr@, vars.deep_view(), ignore_missing) == Ok::<
                Seq<char>,
                ErrModel,
            >(o@),
            Err(e) => spec_strfmt_options(fmtstr@, vars.deep_view(), ignore_missing) == Err::<
                Seq<char>,
                ErrModel,
            >(e@),
        },
{
    let ghost m = vars.deep_view();
    let t = chars_of(fmtstr);
    let scanned = scan_template(&t);
    let toks = scanned.0;
    let end = scanned.1;
    let ghost items = scan(fmtstr@).0;
    let mut out = String::new();
    let mut k: usize = 0;
    proof {
        assert(items.skip(0) =~= items);
        match run_items(items, end, m, ignore_missing) {
            Ok(rest) => {
                assert(out@ + rest =~= rest);
            },
            Err(_) => {},
        }
    }
    while k < toks.len()
        invariant
            0 <= k <= toks@.len(),
            tokens_view(toks@) == items,
            items == scan(fmtstr@).0,
            end == scan(fmtstr@).1,
            items.len() == toks@.len(),
            m == vars.deep_view(),
            spec_strfmt_options(fmtstr@, m, ignore_missing) == (match run_items(
                items.skip(k as int),
                end,
                m,
                ignore_missing,
            ) {
                Ok(rest) => Ok::<Seq<char>, ErrModel>(out@ + rest),
                Err(e) => Err::<Seq<char>, ErrModel>(e),
            }),
        decreases toks@.len() - k,
    {
        let ghost pre = items.skip(k as int);
        let tok = &toks[k];
        proof {
            assert(items[k as int] == toks@[k as int]@);
            assert(pre.len() == items.len() - k);
            assert(pre[0] == items[k as int]);
            assert(pre.drop_first() =~= items.skip(k + 1));
        }
        match tok {
            Token::Lit(c) => {
                let ghost before = out@;
                push_char(&mut out, *c);
                proof {
                    match run_items(items.skip(k + 1), end, m, ignore_missing) {
                        Ok(rest) => {
                            assert(before + (seq![*c] + rest) =~= out@ + rest);
                        },
                        Err(_) => {},
                    }
                }
            },
            Token::Ph(p) => {
                let chunk = match FmtChunk::from_chars(p) {
                    Ok(c) => c,
                    Err(e) => {
                        return Err(e);
                    },
                };
                let ghost before = out@;
                match chunk.write(&mut out, vars) {
                    Ok(_) => {
                        proof {
                            let w = spec_chunk_write(chunk@, m)->Ok_0;
                            match run_items(items.skip(k + 1), end, m, ignore_missing) {
                                Ok(rest) => {
                                    assert(before + (w + rest) =~= out@ + rest);
                                },
                                Err(_) => {},
                            }
                        }
                    },
                    Err(e) => {
                        let is_key = matches!(e, FmtError::KeyError(_));
                        if ignore_missing && is_key {
                            push_char(&mut out, '{');
                            let mut j: usize = 0;
                            let ghost mid = out@;
                            while j < p.len()
                                invariant
                                    0 <= j <= p@.len(),
                                    out@ == mid + p@.take(j as int),
                                decreases p@.len() - j,
                            {
                                push_char(&mut out, p[j]);
                                proof {
                                    assert(mid + p@.take(j as int) + seq![p@[j as int]] =~= mid
                                        + p@.take(j + 1));
                                }
                                j = j + 1;
                            }
                            push_char(&mut out, '}');
                            proof {
                                reveal_strlit("{");
                                reveal_strlit("}");
                                assert("{"@ =~= seq!['{']);
                                assert("}"@ =~= seq!['}']);
                                assert(p@.take(p@.len() as int) =~= p@);
                                assert(out@ =~= before + ("{"@ + p@ + "}"@));
                                match run_items(items.skip(k + 1), end, m, ignore_missing) {
                                    Ok(rest) => {
                                        assert(before + (("{"@ + p@ + "}"@) + rest) =~= out@
                                            + rest);
                                    },
                                    Err(_) => {},
                                }
                            }
                        } else {
                            return Err(e);
                        }
                    },
                }
            },
        }
        k = k + 1;
    }
    proof {
        assert(items.skip(k as int) =~= Seq::<ScanItem>::empty());
    }
    match end {
        ScanEnd::Done => {
            proof {
                assert(out@ + Seq::<char>::empty() =~= out@);
            }
            Ok(out)
        },
        ScanEnd::ExtraOpen => Err(FmtError::Invalid("extra { found".to_owned())),
        ScanEnd::SingleClose => Err(
            FmtError::Invalid("Single '}' encountered in format string".to_owned()),
        ),
        ScanEnd::Unclosed => Err(FmtError::Invalid("Expected '}' before end of string".to_owned())),
    }
}

} // verus!
