//! The template scanner: one left-to-right walk that splits a template
//! into literal characters and raw placeholder texts, recognizing the
//! `{{` and `}}` escapes.

use vstd::prelude::*;

use crate::specs::{scan, scan_from, ScanEnd, ScanItem};

verus! {

/// One scanned piece of a template: a literal character of the output, or
/// the raw text of one placeholder (the part between its braces).
pub enum Token {
    Lit(char),
    Ph(Vec<char>),
}

impl View for Token {
    type V = ScanItem;

    open spec fn view(&self) -> ScanItem {
        match self {
            Token::Lit(c) => ScanItem::Lit(*c),
            Token::Ph(p) => ScanItem::Ph(p@),
        }
    }
}

/// The items a sequence of tokens stands for.
pub open spec fn tokens_view(v: Seq<Token>) -> Seq<ScanItem> {
    v.map_values(|t: Token| t@)
}

/// Appending one token appends exactly its item to the view.
proof fn lemma_tokens_view_push(v: Seq<Token>, tk: Token)
    ensures
        tokens_view(v.push(tk)) == tokens_view(v) + seq![tk@],
{
    let a = tokens_view(v.push(tk));
    let b = tokens_view(v) + seq![tk@];
    assert forall|j: int| 0 <= j < a.len() implies a[j] == b[j] by {
        if j < v.len() {
            assert(v.push(tk)[j] == v[j]);
        } else {
            assert(v.push(tk)[j] == tk);
        }
    }
    assert(a =~= b);
}

/// One literal character advances the scan by exactly its item.
proof fn lemma_lit_step(t: Seq<char>, i: int, prev: Seq<Token>, now: Seq<Token>, c: char)
    requires
        0 <= i < t.len(),
        t[i] != '{',
        t[i] != '}',
        c == t[i],
        now == prev.push(Token::Lit(c)),
        scan(t).0 == tokens_view(prev) + scan_from(t, i, false, None).0,
        scan(t).1 == scan_from(t, i, false, None).1,
    ensures
        scan(t).0 == tokens_view(now) + scan_from(t, i + 1, false, None).0,
        scan(t).1 == scan_from(t, i + 1, false, None).1,
{
    let post = scan_from(t, i + 1, false, None);
    assert(scan_from(t, i, false, None).0 =~= seq![ScanItem::Lit(c)] + post.0);
    lemma_tokens_view_push(prev, Token::Lit(c));
    assert(Token::Lit(c)@ == ScanItem::Lit(c));
    assert(scan(t).0 =~= tokens_view(now) + post.0);
}

/// The scanner's position state as the model sees it.
pub open spec fn opt_pos(o: Option<usize>) -> Option<int> {
    match o {
        Some(s) => Some(s as int),
        None => None,
    }
}

/// Walks the whole template and returns its pieces together with how the
/// walk ended; the pieces are exactly those of the model's scan, cut short
/// at the first scanner fault.
#[verifier::rlimit(100)]
pub fn scan_template(t: &Vec<char>) -> (r: (Vec<Token>, ScanEnd))
    ensures
        tokens_view(r.0@) == scan(t@).0,
        r.1 == scan(t@).1,
{
    let n: usize = t.len();
    let mut toks: Vec<Token> = Vec::new();
    let mut i: usize = 0;
    let mut pending: bool = false;
    let mut open_at: Option<usize> = None;
    proof {
        assert(tokens_view(Seq::<Token>::empty()) =~= Seq::<ScanItem>::empty());
    }
    while i < n
        invariant
            0 <= i <= n,
            n == t@.len(),
            match open_at {
                Some(s) => 0 <= s < i,
                None => true,
            },
            scan(t@).0 == tokens_view(toks@) + scan_from(t@, i as int, pending, opt_pos(open_at)).0,
            scan(t@).1 == scan_from(t@, i as int, pending, opt_pos(open_at)).1,
        decreases n - i,
    {
        let ghost pre = scan_from(t@, i as int, pending, opt_pos(open_at));
        let c = t[i];
        if c == '{' {
            match open_at {
                Some(s) => {
                    if i == s + 1 {
                        let ghost prev_toks = toks@;
                        toks.push(Token::Lit('{'));
                        open_at = None;
                        proof {
                            let post = scan_from(t@, i + 1, pending, opt_pos(open_at));
                            assert(pre.0 =~= seq![ScanItem::Lit('{')] + post.0);
                            lemma_tokens_view_push(prev_toks, Token::Lit('{'));
                            assert(Token::Lit('{')@ == ScanItem::Lit('{'));
                            assert(scan(t@).0 =~= tokens_view(toks@) + post.0);
                        }
                    } else {
                        proof {
                            assert(pre.0 =~= Seq::<ScanItem>::empty());
                            assert(scan(t@).0 =~= tokens_view(toks@));
                        }
                        return (toks, ScanEnd::ExtraOpen);
                    }
                },
                None => {
                    open_at = Some(i);
                },
            }
        } else if c == '}' {
            if open_at.is_none() && !pending {
                pending = true;
            } else if pending {
                let ghost prev_toks = toks@;
                toks.push(Token::Lit('}'));
                pending = false;
                proof {
                    let post = scan_from(t@, i + 1, pending, opt_pos(open_at));
                    assert(pre.0 =~= seq![ScanItem::Lit('}')] + post.0);
                    lemma_tokens_view_push(prev_toks, Token::Lit('}'));
                    assert(Token::Lit('}')@ == ScanItem::Lit('}'));
                    assert(scan(t@).0 =~= tokens_view(toks@) + post.0);
                }
            } else {
                // a close in this branch always has an open placeholder
                let s: usize = match open_at {
                    Some(s) => s,
                    None => 0,
                };
                let mut p: Vec<char> = Vec::new();
                let mut k: usize = s + 1;
                while k < i
                    invariant
                        s + 1 <= k <= i <= n,
                        n == t@.len(),
                        p@ == t@.subrange(s + 1, k as int),
                    decreases i - k,
                {
                    p.push(t[k]);
                    proof {
                        assert(p@ =~= t@.subrange(s + 1, k + 1));
                    }
                    k = k + 1;
                }
                let ghost ph = ScanItem::Ph(t@.subrange(s + 1, i as int));
                let ghost prev_toks = toks@;
                toks.push(Token::Ph(p));
                open_at = None;
                proof {
                    let post = scan_from(t@, i + 1, pending, opt_pos(open_at));
                    assert(pre.0 =~= seq![ph] + post.0);
                    let tk = toks@.last();
                    assert(toks@ == prev_toks.push(tk));
                    lemma_tokens_view_push(prev_toks, tk);
                    assert(tk@ == ph);
                    assert(scan(t@).0 =~= tokens_view(toks@) + post.0);
                }
            }
        } else {
            if pending {
                proof {
                    assert(pre.0 =~= Seq::<ScanItem>::empty());
                    assert(scan(t@).0 =~= tokens_view(toks@));
                }
                return (toks, ScanEnd::SingleClose);
            }
            if open_at.is_none() {
                let ghost prev_toks = toks@;
                toks.push(Token::Lit(c));
                proof {
                    lemma_lit_step(t@, i as int, prev_toks, toks@, c);
                }
            }
        }
        i = i + 1;
    }
    let end = if pending {
        ScanEnd::SingleClose
    } else if open_at.is_some() {
        ScanEnd::Unclosed
    } else {
        ScanEnd::Done
    };
    proof {
        assert(scan_from(t@, i as int, pending, opt_pos(open_at)).0 =~= Seq::<ScanItem>::empty());
        assert(scan(t@).0 =~= tokens_view(toks@));
    }
    (toks, end)
}

} // verus!
