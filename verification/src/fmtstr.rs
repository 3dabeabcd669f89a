//! Rendering strings: precision truncation, fill and alignment, and the
//! checks the string path makes before rendering.

use vstd::prelude::*;
use vstd::string::StringExecFns;

use crate::chars::{chars_of, string_of};
use crate::formatter::Formatter;
use crate::scan::{scan_template, tokens_view, Token};
use crate::specs::{
    all_literals, consumes, glue, lemma_glue_literals, lemma_glue_snoc_lit, lemma_glue_snoc_ph,
    lit_concat, pad_rejected, pad_rejected_msg, rep_char, scan, scan_end_msg, spec_from_str,
    spec_pad, str_delta, str_err, str_unchecked_err, trunc_len, FmtState, ScanEnd, ScanItem,
};
use crate::types::{Alignment, ErrModel, FmtError};

verus! {

/// Writes `n` copies of `c` into the formatter's output buffer.
pub fn write_char(f: &mut Formatter, c: char, n: usize)
    ensures
        final(f)@ == old(f)@.with_appended(rep_char(c, n as nat)),
{
    let mut i: usize = 0;
    proof {
        assert(old(f)@.buff + rep_char(c, 0) =~= old(f)@.buff);
    }
    while i < n
        invariant
            0 <= i <= n,
            f@ == old(f)@.with_appended(rep_char(c, i as nat)),
        decreases n - i,
    {
        f.push_buff(c);
        proof {
            assert(old(f)@.buff + rep_char(c, i as nat) + seq![c] =~= old(f)@.buff + rep_char(
                c,
                (i + 1) as nat,
            ));
        }
        i = i + 1;
    }
}

/// Writes up to `n` leading characters of `src` into the buffer, returning
/// how many were written: all of `src` when it is short enough, else
/// exactly `n`.
pub fn write_from(f: &mut Formatter, src: &Vec<char>, n: usize) -> (w: usize)
    ensures
        w == trunc_len(src@.len(), Some(n)),
        final(f)@ == old(f)@.with_appended(src@.take(w as int)),
{
    let lim: usize = if n < src.len() {
        n
    } else {
        src.len()
    };
    let mut i: usize = 0;
    proof {
        assert(old(f)@.buff + src@.take(0) =~= old(f)@.buff);
    }
    while i < lim
        invariant
            0 <= i <= lim <= src@.len(),
            f@ == old(f)@.with_appended(src@.take(i as int)),
        decreases lim - i,
    {
        let c = src[i];
        f.push_buff(c);
        proof {
            assert(old(f)@.buff + src@.take(i as int) + seq![src@[i as int]] =~= old(f)@.buff
                + src@.take(i + 1));
        }
        i = i + 1;
    }
    lim
}

impl Formatter {
    /// Truncates `text` by the precision, pads it with the fill character
    /// to the width under the given effective alignment, and writes the
    /// result into the buffer.  Padding into an `Equal` field is the one
    /// failure.
    #[verifier::rlimit(100)]
    pub(crate) fn write_padded(&mut self, text: &Vec<char>, align: Alignment) -> (r: Result<
        (),
        FmtError,
    >)
        requires
            !(align is Unspecified),
        ensures
            match r {
                Ok(_) => !pad_rejected(text@.len(), align, old(self)@.width, old(self)@.precision)
                    && final(self)@ == old(self)@.with_appended(
                    spec_pad(text@, old(self)@.fill, align, old(self)@.width, old(self)@.precision),
                ),
                Err(e) => pad_rejected(text@.len(), align, old(self)@.width, old(self)@.precision)
                    && e@ == ErrModel::Invalid(pad_rejected_msg()) && final(self)@ == old(self)@,
            },
    {
        let fill = self.fill();
        let len: usize = match self.precision() {
            Some(p) => if p < text.len() {
                p
            } else {
                text.len()
            },
            None => text.len(),
        };
        let mut pad_after: usize = 0;
        match self.width() {
            Some(width) => {
                if width > len {
                    match align {
                        Alignment::Left => {
                            pad_after = width - len;
                        },
                        Alignment::Center => {
                            let total: usize = width - len;
                            write_char(self, fill, total / 2);
                            pad_after = total / 2 + total % 2;
                        },
                        Alignment::Right => {
                            write_char(self, fill, width - len);
                        },
                        _ => {
                            return Err(
                                FmtError::Invalid(
                                    "sign aware 0 padding not yet supported".to_owned(),
                                ),
                            );
                        },
                    }
                }
            },
            None => {},
        }
        write_from(self, text, len);
        write_char(self, fill, pad_after);
        proof {
            let st = old(self)@;
            let l = trunc_len(text@.len(), st.precision);
            assert(l == len);
            match st.width {
                None => {
                    assert(st.buff + text@.take(l as int) + rep_char(st.fill, 0) =~= st.buff
                        + spec_pad(text@, st.fill, align, st.width, st.precision));
                },
                Some(w) => {
                    if w <= l {
                        assert(st.buff + text@.take(l as int) + rep_char(st.fill, 0) =~= st.buff
                            + spec_pad(text@, st.fill, align, st.width, st.precision));
                    } else {
                        let p = (w - l) as nat;
                        if align is Left {
                            assert(st.buff + text@.take(l as int) + rep_char(st.fill, p) =~= st.buff
                                + spec_pad(text@, st.fill, align, st.width, st.precision));
                        } else if align is Right {
                            assert(st.buff + rep_char(st.fill, p) + text@.take(l as int)
                                + rep_char(st.fill, 0) =~= st.buff + spec_pad(
                                text@,
                                st.fill,
                                align,
                                st.width,
                                st.precision,
                            ));
                        } else {
                            assert(st.buff + rep_char(st.fill, p / 2) + text@.take(l as int)
                                + rep_char(st.fill, p / 2 + p % 2) =~= st.buff + spec_pad(
                                text@,
                                st.fill,
                                align,
                                st.width,
                                st.precision,
                            ));
                        }
                    }
                },
            }
        }
        Ok(())
    }

    /// Renders `s` under this specifier after the checks of the string
    /// path: the type letter must be absent or `s`, and the alternate,
    /// thousands and sign options are all incompatible with strings.
    pub fn str(&mut self, s: &str) -> (r: Result<(), FmtError>)
        ensures
            match r {
                Ok(_) => str_err(old(self)@, s@) is None && final(self)@ == old(self)@
                    .with_appended(str_delta(old(self)@, s@)),
                Err(e) => str_err(old(self)@, s@) == Some(e@) && final(self)@ == old(self)@,
            },
    {
        let ty_ok = match self.ty() {
            None => true,
            Some(c) => c == 's',
        };
        if !ty_ok {
            let mut msg = "Unknown format code '".to_owned();
            let c = match self.ty() {
                Some(c) => c,
                None => ' ',
            };
            crate::chars::push_char(&mut msg, c);
            msg.append("' for object of type 'str'");
            proof {
                assert(msg@ =~= "Unknown format code '"@ + seq![old(self)@.ty->0]
                    + "' for object of type 'str'"@);
            }
            return Err(FmtError::TypeError(msg));
        }
        if self.alternate() {
            return Err(
                FmtError::TypeError(
                    "Alternate form (#) not allowed in string format specifier".to_owned(),
                ),
            );
        }
        if self.thousands() {
            return Err(FmtError::TypeError("Cannot specify ',' with 's'".to_owned()));
        }
        if self.sign().is_unspecified() {
            return Err(
                FmtError::TypeError("Sign not allowed in string format specifier".to_owned()),
            );
        }
        self.str_unchecked(s)
    }

    /// Renders `s` with truncation and padding only, making none of the
    /// compatibility checks of [`Self::str`].
    pub fn str_unchecked(&mut self, s: &str) -> (r: Result<(), FmtError>)
        ensures
            match r {
                Ok(_) => str_unchecked_err(old(self)@, s@) is None && final(self)@ == old(self)@
                    .with_appended(str_delta(old(self)@, s@)),
                Err(e) => str_unchecked_err(old(self)@, s@) == Some(e@) && final(self)@ == old(
                    self,
                )@,
            },
    {
        let cs = chars_of(s);
        let eff = match self.align() {
            Alignment::Unspecified => Alignment::Left,
            a => a,
        };
        self.write_padded(&cs, eff)
    }
}

/// Whether `outs` holds, for each placeholder of `items` in order, an
/// output that the callback `f` can produce for the parsed formatter of
/// that placeholder.
pub open spec fn valid_outputs<F: Fn(Formatter) -> Result<Formatter, FmtError>>(
    f: F,
    items: Seq<ScanItem>,
    outs: Seq<Seq<char>>,
) -> bool
    decreases items.len(),
{
    if items.len() == 0 {
        outs.len() == 0
    } else {
        match items[0] {
            ScanItem::Lit(_) => valid_outputs(f, items.drop_first(), outs),
            ScanItem::Ph(p) => outs.len() > 0 && (exists|fm1: Formatter, fm2: Formatter|
                spec_from_str(p) == Ok::<FmtState, Seq<char>>(fm1@) && call_ensures(
                    f,
                    (fm1,),
                    Ok::<Formatter, FmtError>(fm2),
                ) && fm2@.buff == outs[0]) && valid_outputs(
                f,
                items.drop_first(),
                outs.drop_first(),
            ),
        }
    }
}

proof fn lemma_valid_snoc_lit<F: Fn(Formatter) -> Result<Formatter, FmtError>>(
    f: F,
    items: Seq<ScanItem>,
    outs: Seq<Seq<char>>,
    c: char,
)
    requires
        valid_outputs(f, items, outs),
    ensures
        valid_outputs(f, items.push(ScanItem::Lit(c)), outs),
    decreases items.len(),
{
    let ext = items.push(ScanItem::Lit(c));
    assert(ext.len() == items.len() + 1);
    if items.len() == 0 {
        assert(ext[0] == ScanItem::Lit(c));
        assert(ext.drop_first() =~= Seq::<ScanItem>::empty());
        assert(valid_outputs(f, ext.drop_first(), outs));
        assert(valid_outputs(f, ext, outs));
    } else {
        assert(ext[0] == items[0]);
        assert(ext.drop_first() =~= items.drop_first().push(ScanItem::Lit(c)));
        match items[0] {
            ScanItem::Lit(_) => {
                lemma_valid_snoc_lit(f, items.drop_first(), outs, c);
            },
            ScanItem::Ph(_) => {
                lemma_valid_snoc_lit(f, items.drop_first(), outs.drop_first(), c);
            },
        }
        assert(valid_outputs(f, ext, outs));
    }
}

proof fn lemma_valid_snoc_ph<F: Fn(Formatter) -> Result<Formatter, FmtError>>(
    f: F,
    items: Seq<ScanItem>,
    outs: Seq<Seq<char>>,
    p: Seq<char>,
    o: Seq<char>,
    fm1: Formatter,
    fm2: Formatter,
)
    requires
        valid_outputs(f, items, outs),
        spec_from_str(p) == Ok::<FmtState, Seq<char>>(fm1@),
        call_ensures(f, (fm1,), Ok::<Formatter, FmtError>(fm2)),
        fm2@.buff == o,
    ensures
        valid_outputs(f, items.push(ScanItem::Ph(p)), outs.push(o)),
    decreases items.len(),
{
    let ext = items.push(ScanItem::Ph(p));
    let exto = outs.push(o);
    assert(ext.len() == items.len() + 1);
    assert(exto.len() == outs.len() + 1);
    if items.len() == 0 {
        assert(ext[0] == ScanItem::Ph(p));
        assert(ext.drop_first() =~= Seq::<ScanItem>::empty());
        assert(exto[0] == o);
        assert(exto.drop_first() =~= Seq::<Seq<char>>::empty());
        assert(valid_outputs(f, ext.drop_first(), exto.drop_first()));
        assert(valid_outputs(f, ext, exto));
    } else {
        assert(ext[0] == items[0]);
        assert(ext.drop_first() =~= items.drop_first().push(ScanItem::Ph(p)));
        match items[0] {
            ScanItem::Lit(_) => {
                lemma_valid_snoc_ph(f, items.drop_first(), outs, p, o, fm1, fm2);
            },
            ScanItem::Ph(_) => {
                assert(exto[0] == outs[0]);
                assert(exto.drop_first() =~= outs.drop_first().push(o));
                lemma_valid_snoc_ph(f, items.drop_first(), outs.drop_first(), p, o, fm1, fm2);
            },
        }
        assert(valid_outputs(f, ext, exto));
    }
}

/// Formats a template by handing each placeholder's parsed formatter to
/// the callback, which renders a value into the formatter's buffer and
/// hands the formatter back.
///
/// A structurally invalid template is rejected with the scanner's error; a
/// placeholder whose specifier text does not parse aborts with the
/// parser's error; an error from the callback aborts the call.  On a
/// template of literal text and escapes only, the call succeeds with
/// exactly that text, whatever the callback does.
#[verifier::rlimit(100)]
pub fn strfmt_map<F: Fn(Formatter) -> Result<Formatter, FmtError>>(fmtstr: &str, f: &F) -> (r:
    Result<String, FmtError>)
    requires
        forall|fm: Formatter| call_requires(*f, (fm,)),
    ensures
        r is Ok ==> scan(fmtstr@).1 is Done,
        !(scan(fmtstr@).1 is Done) ==> r is Err,
        scan(fmtstr@).1 is Done && all_literals(scan(fmtstr@).0) ==> (r matches Ok(out) && out@
            == lit_concat(scan(fmtstr@).0)),
        !(scan(fmtstr@).1 is Done) && all_literals(scan(fmtstr@).0) ==> (r matches Err(e) && e@
            == ErrModel::Invalid(scan_end_msg(scan(fmtstr@).1))),
        (exists|j: int|
            0 <= j < scan(fmtstr@).0.len() && (#[trigger] scan(fmtstr@).0[j]) is Ph
                && spec_from_str(scan(fmtstr@).0[j]->Ph_0) is Err) ==> r is Err,
        r matches Ok(out) ==> exists|outs: Seq<Seq<char>>|
            valid_outputs(*f, scan(fmtstr@).0, outs) && out@ == glue(scan(fmtstr@).0, outs),
        r matches Err(e) ==> ({
            ||| !(scan(fmtstr@).1 is Done) && e@ == ErrModel::Invalid(
                scan_end_msg(scan(fmtstr@).1),
            )
            ||| exists|j: int|
                0 <= j < scan(fmtstr@).0.len() && (#[trigger] scan(fmtstr@).0[j]) is Ph && (
                spec_from_str(scan(fmtstr@).0[j]->Ph_0) matches Err(m) && e@ == ErrModel::Invalid(
                    m,
                ))
            ||| exists|j: int, fm1: Formatter|
                #![trigger scan(fmtstr@).0[j], call_ensures(*f, (fm1,), Err::<Formatter, FmtError>(e))]
                0 <= j < scan(fmtstr@).0.len() && scan(fmtstr@).0[j] is Ph && spec_from_str(
                    scan(fmtstr@).0[j]->Ph_0,
                ) == Ok::<FmtState, Seq<char>>(fm1@) && call_ensures(
                    *f,
                    (fm1,),
                    Err::<Formatter, FmtError>(e),
                )
        }),
{
    let t = chars_of(fmtstr);
    let scanned = scan_template(&t);
    let toks = scanned.0;
    let end = scanned.1;
    let ghost items = scan(fmtstr@).0;
    let mut out: Vec<char> = Vec::new();
    let ghost mut outs: Seq<Seq<char>> = Seq::empty();
    let mut k: usize = 0;
    proof {
        assert(items.take(0) =~= Seq::<ScanItem>::empty());
        assert(valid_outputs(*f, items.take(0), outs));
        assert(consumes(items.take(0), outs));
        assert(glue(items.take(0), outs) =~= Seq::<char>::empty());
    }
    while k < toks.len()
        invariant
            forall|fm: Formatter| call_requires(*f, (fm,)),
            0 <= k <= toks@.len(),
            tokens_view(toks@) == items,
            items == scan(fmtstr@).0,
            items.len() == toks@.len(),
            valid_outputs(*f, items.take(k as int), outs),
            consumes(items.take(k as int), outs),
            out@ == glue(items.take(k as int), outs),
            forall|j: int|
                0 <= j < k ==> !((#[trigger] items[j]) is Ph) || spec_from_str(
                    items[j]->Ph_0,
                ) is Ok,
        decreases toks@.len() - k,
    {
        let tok = &toks[k];
        proof {
            assert(items[k as int] == toks@[k as int]@);
            assert(items.take(k + 1) =~= items.take(k as int).push(items[k as int]));
        }
        match tok {
            Token::Lit(c) => {
                out.push(*c);
                proof {
                    lemma_glue_snoc_lit(items.take(k as int), outs, *c);
                    lemma_valid_snoc_lit(*f, items.take(k as int), outs, *c);
                    assert(out@ =~= glue(items.take(k + 1), outs));
                }
            },
            Token::Ph(p) => {
                proof {
                    assert(items[k as int] is Ph);
                    assert(!(items[k as int] is Lit));
                    assert(!all_literals(items));
                }
                let fm = match Formatter::from_chars(p) {
                    Ok(fm) => fm,
                    Err(e) => {
                        proof {
                            let si = scan(fmtstr@).0[k as int];
                            assert(si is Ph);
                            assert(spec_from_str(si->Ph_0) matches Err(m) && e@
                                == ErrModel::Invalid(m));
                        }
                        return Err(e);
                    },
                };
                let ghost gfm1 = fm;
                let fm2 = match f(fm) {
                    Ok(fm2) => fm2,
                    Err(e) => {
                        proof {
                            let si = scan(fmtstr@).0[k as int];
                            assert(si is Ph);
                            assert(spec_from_str(si->Ph_0) == Ok::<FmtState, Seq<char>>(gfm1@));
                            assert(call_ensures(*f, (gfm1,), Err::<Formatter, FmtError>(e)));
                        }
                        return Err(e);
                    },
                };
                let ghost gfm2 = fm2;
                let mut buf = fm2.into_buffer();
                let ghost o = buf@;
                out.append(&mut buf);
                proof {
                    lemma_glue_snoc_ph(items.take(k as int), outs, p@, o);
                    lemma_valid_snoc_ph(*f, items.take(k as int), outs, p@, o, gfm1, gfm2);
                    outs = outs.push(o);
                    assert(out@ =~= glue(items.take(k + 1), outs));
                }
            },
        }
        k = k + 1;
    }
    proof {
        assert(items.take(k as int) =~= items);
    }
    match end {
        ScanEnd::Done => {
            let res = string_of(&out);
            proof {
                if all_literals(items) {
                    lemma_glue_literals(items, outs);
                }
            }
            Ok(res)
        },
        ScanEnd::ExtraOpen => Err(FmtError::Invalid("extra { found".to_owned())),
        ScanEnd::SingleClose => Err(
            FmtError::Invalid("Single '}' encountered in format string".to_owned()),
        ),
        ScanEnd::Unclosed => Err(FmtError::Invalid("Expected '}' before end of string".to_owned())),
    }
}

} // verus!
