//! The range-expansion engine: replays a token block once per integer in
//! a half-open range, substituting the bound identifier.
//!
//! Inside the body, an occurrence of the bound identifier becomes an
//! unsuffixed integer literal; an occurrence of `prefix~identifier`
//! written with no separating whitespace - detected by comparing the
//! tokens' source positions - fuses into the single identifier
//! `prefix<integer>`; grouped sub-trees are expanded recursively under
//! their delimiter; every other token passes through unchanged.
//!
//! The input has the form `identifier in integer..integer { body }`.
//! A nested repeat-this-sub-block escape form is deliberately not
//! offered: the whole body is replayed once per integer in the range.

use vstd::prelude::*;
use vstd::string::StringExecFns;

use crate::attrs::str_eq;
use crate::decimal::i64_to_string;
use crate::decimal::int_digits;
use crate::decimal::int_lit_value;
use crate::decimal::lit_fits_i64;
use crate::decimal::parse_int_lit;

verus! {

/// A position in the source text.
#[derive(Clone, Copy, PartialEq, Eq, Structural)]
pub struct Pos {
    pub line: usize,
    pub col: usize,
}

/// The source span of one token: where it starts and where it ends.
#[derive(Clone, Copy, PartialEq, Eq, Structural)]
pub struct Span {
    pub lo: Pos,
    pub hi: Pos,
}

/// The delimiter of a token group.
#[derive(Clone, Copy, PartialEq, Eq, Structural)]
pub enum Delim {
    Paren,
    Brace,
    Bracket,
    NoDelim,
}

/// One token tree, with source positions.
pub enum Tok {
    /// An identifier or keyword.
    IdentTok(String, Span),
    /// One punctuation character.
    PunctTok(char, Span),
    /// A literal, carrying its source text.
    LitTok(String, Span),
    /// A delimited group of tokens.
    GroupTok(Delim, Vec<Tok>, Span),
}

/// Specification-level view of one token tree.
pub ghost enum TokV {
    IdentV(Seq<char>, Span),
    PunctV(char, Span),
    LitV(Seq<char>, Span),
    GroupV(Delim, Seq<TokV>, Span),
}

/// The view of one token.
pub open spec fn tok_view(t: Tok) -> TokV
    decreases t,
{
    match t {
        Tok::IdentTok(s, sp) => TokV::IdentV(s@, sp),
        Tok::PunctTok(c, sp) => TokV::PunctV(c, sp),
        Tok::LitTok(s, sp) => TokV::LitV(s@, sp),
        Tok::GroupTok(d, body, sp) => TokV::GroupV(d, toks_view(body@), sp),
    }
}

/// The views of a token sequence.
pub open spec fn toks_view(s: Seq<Tok>) -> Seq<TokV>
    decreases s,
{
    if s.len() == 0 {
        Seq::empty()
    } else {
        seq![tok_view(s[0])] + toks_view(s.drop_first())
    }
}

impl View for Tok {
    type V = TokV;

    open spec fn view(&self) -> TokV {
        tok_view(*self)
    }
}

proof fn lemma_toks_view_len(s: Seq<Tok>)
    ensures
        toks_view(s).len() == s.len(),
    decreases s,
{
    if s.len() > 0 {
        lemma_toks_view_len(s.drop_first());
    }
}

proof fn lemma_toks_view_index(s: Seq<Tok>, i: int)
    requires
        0 <= i < s.len(),
    ensures
        toks_view(s).len() == s.len(),
        toks_view(s)[i] == tok_view(s[i]),
    decreases s,
{
    lemma_toks_view_len(s);
    if i > 0 {
        lemma_toks_view_index(s.drop_first(), i - 1);
    }
}

proof fn lemma_toks_view_concat(a: Seq<Tok>, b: Seq<Tok>)
    ensures
        toks_view(a + b) == toks_view(a) + toks_view(b),
    decreases a,
{
    if a.len() == 0 {
        assert(a + b =~= b);
        assert(toks_view(a) + toks_view(b) =~= toks_view(b));
    } else {
        assert((a + b)[0] == a[0]);
        assert((a + b).drop_first() =~= a.drop_first() + b);
        lemma_toks_view_concat(a.drop_first(), b);
        assert(toks_view(a + b) =~= toks_view(a) + toks_view(b));
    }
}

proof fn lemma_toks_view_skip(s: Seq<Tok>, i: int)
    requires
        0 <= i <= s.len(),
    ensures
        toks_view(s.skip(i)) == toks_view(s).skip(i),
    decreases i,
{
    lemma_toks_view_len(s);
    if i == 0 {
        assert(s.skip(0) =~= s);
        assert(toks_view(s).skip(0) =~= toks_view(s));
    } else {
        lemma_toks_view_skip(s.drop_first(), i - 1);
        assert(s.skip(i) =~= s.drop_first().skip(i - 1));
        assert(toks_view(s).skip(i) =~= toks_view(s.drop_first()).skip(i - 1));
    }
}

proof fn lemma_toks_view_push(pre: Seq<Tok>, t: Tok)
    ensures
        toks_view(pre.push(t)) == toks_view(pre) + seq![tok_view(t)],
{
    assert(pre.push(t) =~= pre + seq![t]);
    lemma_toks_view_concat(pre, seq![t]);
    assert(seq![t].drop_first() =~= Seq::<Tok>::empty());
    assert(seq![t][0] == t);
    assert(toks_view(Seq::<Tok>::empty()) =~= Seq::<TokV>::empty());
    assert(toks_view(seq![t]) =~= seq![tok_view(t)]);
}

/// Does the sequence start with the splice pattern: an identifier, a
/// tilde, and the bound identifier, written with no separating
/// whitespace?
pub open spec fn splice_at_front(s: Seq<TokV>, bound: Seq<char>) -> bool {
    &&& s.len() >= 3
    &&& s[0] is IdentV
    &&& s[1] is PunctV
    &&& s[2] is IdentV
    &&& s[1]->PunctV_0 == '~'
    &&& s[2]->IdentV_0 == bound
    &&& s[0]->IdentV_1.hi == s[1]->PunctV_1.lo
    &&& s[1]->PunctV_1.hi == s[2]->IdentV_1.lo
}

/// One replay of a token sequence for the integer `n`: the splice
/// pattern fuses into `prefix<n>` under the prefix's span; a bare
/// occurrence of the bound identifier becomes the unsuffixed decimal
/// literal `n` under that identifier's span; a group is expanded
/// recursively under its delimiter; everything else passes through.
pub open spec fn spec_expand(s: Seq<TokV>, bound: Seq<char>, n: int) -> Seq<TokV>
    decreases s,
{
    if s.len() == 0 {
        Seq::empty()
    } else if splice_at_front(s, bound) {
        seq![TokV::IdentV(s[0]->IdentV_0 + int_digits(n), s[0]->IdentV_1)] + spec_expand(
            s.skip(3),
            bound,
            n,
        )
    } else {
        (match s[0] {
            TokV::GroupV(d, body, sp) => seq![TokV::GroupV(d, spec_expand(body, bound, n), sp)],
            TokV::IdentV(name, sp) => if name == bound {
                seq![TokV::LitV(int_digits(n), sp)]
            } else {
                seq![s[0]]
            },
            _ => seq![s[0]],
        }) + spec_expand(s.skip(1), bound, n)
    }
}

/// LAW: a prefix and the bound identifier written apart are never fused:
/// when the three tokens of the splice pattern are present but not
/// position-adjacent, the leading identifier passes through unchanged
/// (it is not the bound identifier itself) and expansion continues
/// behind it.
pub proof fn lemma_no_fuse_when_separated(s: Seq<TokV>, bound: Seq<char>, n: int)
    requires
        s.len() >= 3,
        s[0] is IdentV,
        s[1] is PunctV && s[1]->PunctV_0 == '~',
        s[2] is IdentV && s[2]->IdentV_0 == bound,
        s[0]->IdentV_0 != bound,
        !(s[0]->IdentV_1.hi == s[1]->PunctV_1.lo && s[1]->PunctV_1.hi == s[2]->IdentV_1.lo),
    ensures
        spec_expand(s, bound, n) == seq![s[0]] + spec_expand(s.skip(1), bound, n),
{
}

/// A parsed range-expansion request: the bound identifier, the half-open
/// integer range, and the body to replay.
pub struct SeqParser {
    pub ident: String,
    pub begin: i64,
    pub end: i64,
    pub body: Vec<Tok>,
}

/// One range bound starting at index `i`: an integer literal, or a
/// minus punct directly followed by one (the minus becomes part of the
/// literal's text). Yields the bound's value, which must fit the signed
/// 64-bit range, and the index after the bound.
pub open spec fn spec_bound(s: Seq<TokV>, i: int) -> Option<(int, int)> {
    if 0 <= i < s.len() && s[i] is LitV {
        if lit_fits_i64(s[i]->LitV_0) {
            Some((int_lit_value(s[i]->LitV_0)->Some_0, i + 1))
        } else {
            None
        }
    } else if 0 <= i && i + 1 < s.len() && s[i] is PunctV && s[i]->PunctV_0 == '-' && s[i
        + 1] is LitV {
        if lit_fits_i64(seq!['-'] + s[i + 1]->LitV_0) {
            Some((int_lit_value(seq!['-'] + s[i + 1]->LitV_0)->Some_0, i + 2))
        } else {
            None
        }
    } else {
        None
    }
}

/// What a request's tokens must look like: an identifier, the keyword
/// `in`, an integer-literal bound, two adjacent dots, an integer-literal
/// bound, and a braced body, with nothing after it.
pub open spec fn spec_parse(s: Seq<TokV>) -> Option<(Seq<char>, int, int, Seq<TokV>)> {
    if s.len() >= 2 && s[0] is IdentV && s[1] is IdentV && s[1]->IdentV_0 == "in"@ {
        match spec_bound(s, 2) {
            Some(b) => if b.1 + 1 < s.len() && s[b.1] is PunctV && s[b.1]->PunctV_0 == '.' && s[b.1
                + 1] is PunctV && s[b.1 + 1]->PunctV_0 == '.' && s[b.1]->PunctV_1.hi == s[b.1
                + 1]->PunctV_1.lo {
                match spec_bound(s, b.1 + 2) {
                    Some(e) => if e.1 == s.len() - 1 && s[e.1] is GroupV && s[e.1]->GroupV_0
                        == Delim::Brace {
                        Some((s[0]->IdentV_0, b.0, e.0, s[e.1]->GroupV_1))
                    } else {
                        None
                    },
                    None => None,
                }
            } else {
                None
            },
            None => None,
        }
    } else {
        None
    }
}

/// Every replay of the body, in range order, concatenated.
pub open spec fn spec_replay(body: Seq<TokV>, bound: Seq<char>, b: int, e: int) -> Seq<TokV>
    decreases e - b,
{
    if b >= e {
        Seq::empty()
    } else {
        spec_expand(body, bound, b) + spec_replay(body, bound, b + 1, e)
    }
}

/// The whole engine on a request's tokens: what `seq` returns.
pub open spec fn spec_seq(s: Seq<TokV>) -> Option<Seq<TokV>> {
    match spec_parse(s) {
        Some(q) => Some(spec_replay(q.3, q.0, q.1, q.2)),
        None => None,
    }
}

/// Reads one range bound starting at index `i`.
fn read_bound(toks: &Vec<Tok>, i: usize) -> (r: Option<(i64, usize)>)
    ensures
        match r {
            Some(p) => spec_bound(toks_view(toks@), i as int) == Some((p.0 as int, p.1 as int))
                && i < p.1 <= toks@.len(),
            None => spec_bound(toks_view(toks@), i as int) is None,
        },
{
    proof {
        lemma_toks_view_len(toks@);
        if (i as int) < toks@.len() {
            lemma_toks_view_index(toks@, i as int);
        }
        if i as int + 1 < toks@.len() {
            lemma_toks_view_index(toks@, i as int + 1);
        }
    }
    if i >= toks.len() {
        return None;
    }
    match &toks[i] {
        Tok::LitTok(text, _) => {
            match parse_int_lit(text.as_str()) {
                Some(value) => Some((value, i + 1)),
                None => None,
            }
        },
        Tok::PunctTok(c, _) => {
            if *c == '-' && i + 1 < toks.len() {
                match &toks[i + 1] {
                    Tok::LitTok(text, _) => {
                        let mut neg_text: String = "-".to_owned();
                        neg_text.append(text.as_str());
                        proof {
                            reveal_strlit("-");
                            assert(neg_text@ =~= seq!['-'] + text@);
                        }
                        match parse_int_lit(neg_text.as_str()) {
                            Some(value) => Some((value, i + 2)),
                            None => None,
                        }
                    },
                    _ => None,
                }
            } else {
                None
            }
        },
        _ => None,
    }
}

impl SeqParser {
    /// Parses a request of the form `identifier in integer..integer
    /// { body }`: exactly that shape succeeds, with each bound an
    /// integer literal (optionally behind a minus) whose value fits the
    /// signed 64-bit range, and the two dots adjacent.
    pub fn parse(toks: Vec<Tok>) -> (r: Option<SeqParser>)
        ensures
            match r {
                Some(p) => spec_parse(toks_view(toks@)) == Some(
                    (p.ident@, p.begin as int, p.end as int, toks_view(p.body@)),
                ),
                None => spec_parse(toks_view(toks@)) is None,
            },
    {
        let ghost v = toks_view(toks@);
        proof {
            lemma_toks_view_len(toks@);
        }
        if toks.len() < 2 {
            return None;
        }
        proof {
            lemma_toks_view_index(toks@, 0);
            lemma_toks_view_index(toks@, 1);
        }
        match &toks[0] {
            Tok::IdentTok(_, _) => {},
            _ => {
                return None;
            },
        }
        match &toks[1] {
            Tok::IdentTok(name, _) => {
                if !str_eq(name, "in") {
                    return None;
                }
            },
            _ => {
                return None;
            },
        }
        let (begin, after_b) = match read_bound(&toks, 2) {
            Some(p) => p,
            None => {
                return None;
            },
        };
        if after_b >= toks.len() - 1 {
            return None;
        }
        proof {
            lemma_toks_view_index(toks@, after_b as int);
            lemma_toks_view_index(toks@, after_b as int + 1);
        }
        let hi_dot = match &toks[after_b] {
            Tok::PunctTok(c, sp) => {
                if *c != '.' {
                    return None;
                }
                sp.hi
            },
            _ => {
                return None;
            },
        };
        match &toks[after_b + 1] {
            Tok::PunctTok(c, sp) => {
                if *c != '.' || !(hi_dot == sp.lo) {
                    return None;
                }
            },
            _ => {
                return None;
            },
        }
        let (end, after_e) = match read_bound(&toks, after_b + 2) {
            Some(p) => p,
            None => {
                return None;
            },
        };
        if after_e != toks.len() - 1 {
            return None;
        }
        proof {
            lemma_toks_view_index(toks@, after_e as int);
        }
        match &toks[after_e] {
            Tok::GroupTok(d, _, _) => {
                if !matches!(d, Delim::Brace) {
                    return None;
                }
            },
            _ => {
                return None;
            },
        }
        let mut rest = toks;
        let body = match rest.remove(after_e) {
            Tok::GroupTok(_, b, _) => b,
            _ => {
                proof {
                    assert(false);
                }
                return None;
            },
        };
        let ident = match rest.remove(0) {
            Tok::IdentTok(s, _) => s,
            _ => {
                proof {
                    assert(false);
                }
                return None;
            },
        };
        Some(SeqParser { ident, begin, end, body })
    }

    /// One replay of a token sequence for the integer `n`.
    pub fn expand(&self, ts: &Vec<Tok>, n: i64) -> (r: Vec<Tok>)
        ensures
            toks_view(r@) == spec_expand(toks_view(ts@), self.ident@, n as int),
        decreases ts@,
    {
        let ghost v = toks_view(ts@);
        let ghost bound = self.ident@;
        let len = ts.len();
        let mut r: Vec<Tok> = Vec::new();
        let mut idx: usize = 0;
        proof {
            lemma_toks_view_len(ts@);
            lemma_toks_view_skip(ts@, 0);
            assert(v.skip(0) =~= v);
            assert(toks_view(r@) + spec_expand(v.skip(0), bound, n as int) =~= spec_expand(
                v,
                bound,
                n as int,
            ));
        }
        while idx < len
            invariant
                idx <= len,
                len == ts@.len(),
                v == toks_view(ts@),
                v.len() == len,
                bound == self.ident@,
                toks_view(r@) + spec_expand(v.skip(idx as int), bound, n as int) == spec_expand(
                    v,
                    bound,
                    n as int,
                ),
            decreases len - idx,
        {
            proof {
                lemma_toks_view_index(ts@, idx as int);
                if idx + 2 < len {
                    lemma_toks_view_index(ts@, idx as int + 1);
                    lemma_toks_view_index(ts@, idx as int + 2);
                }
            }
            let splice = if len - idx > 2 {
                match (&ts[idx], &ts[idx + 1], &ts[idx + 2]) {
                    (
                        Tok::IdentTok(_, sp0),
                        Tok::PunctTok(ch, sp1),
                        Tok::IdentTok(id2, sp2),
                    ) => *ch == '~' && str_eq(id2, self.ident.as_str()) && sp0.hi == sp1.lo
                        && sp1.hi == sp2.lo,
                    _ => false,
                }
            } else {
                false
            };
            proof {
                assert(splice == splice_at_front(v.skip(idx as int), bound));
            }
            let ghost r_pre = r@;
            if splice {
                match &ts[idx] {
                    Tok::IdentTok(prefix, sp0) => {
                        let num = i64_to_string(n);
                        let fused = prefix.clone().concat(num.as_str());
                        r.push(Tok::IdentTok(fused, *sp0));
                    },
                    _ => {
                        proof {
                            assert(false);
                        }
                    },
                }
                proof {
                    lemma_toks_view_push(r_pre, r@[r@.len() - 1]);
                    assert(v.skip(idx as int).skip(3) =~= v.skip(idx as int + 3));
                    assert(toks_view(r@) + spec_expand(v.skip(idx as int + 3), bound, n as int)
                        =~= spec_expand(v, bound, n as int));
                }
                idx = idx + 3;
            } else {
                match &ts[idx] {
                    Tok::GroupTok(d, body, sp) => {
                        proof {
                            assert(decreases_to!(ts@ => ts@[idx as int]));
                            assert(decreases_to!(ts@[idx as int] => *body));
                            assert(decreases_to!(*body => body@));
                        }
                        let sub = self.expand(body, n);
                        r.push(Tok::GroupTok(*d, sub, *sp));
                    },
                    Tok::IdentTok(name, sp) => {
                        if str_eq(name, self.ident.as_str()) {
                            r.push(Tok::LitTok(i64_to_string(n), *sp));
                        } else {
                            r.push(Tok::IdentTok(name.clone(), *sp));
                        }
                    },
                    Tok::PunctTok(c, sp) => {
                        r.push(Tok::PunctTok(*c, *sp));
                    },
                    Tok::LitTok(text, sp) => {
                        r.push(Tok::LitTok(text.clone(), *sp));
                    },
                }
                proof {
                    lemma_toks_view_push(r_pre, r@[r@.len() - 1]);
                    assert(v.skip(idx as int).drop_first() =~= v.skip(idx as int + 1));
                    assert(toks_view(r@) + spec_expand(v.skip(idx as int + 1), bound, n as int)
                        =~= spec_expand(v, bound, n as int));
                }
                idx = idx + 1;
            }
        }
        proof {
            assert(v.skip(len as int) =~= Seq::<TokV>::empty());
            assert(toks_view(r@) =~= toks_view(r@) + spec_expand(
                v.skip(len as int),
                bound,
                n as int,
            ));
        }
        r
    }
}

/// The range-expansion entry point: parses `identifier in
/// integer..integer { body }` and replays the body once per integer in
/// the half-open range, in range order.
pub fn seq(toks: Vec<Tok>) -> (r: Option<Vec<Tok>>)
    ensures
        match r {
            Some(out) => spec_seq(toks_view(toks@)) == Some(toks_view(out@)),
            None => spec_seq(toks_view(toks@)) is None,
        },
{
    let p = match SeqParser::parse(toks) {
        Some(p) => p,
        None => {
            return None;
        },
    };
    let ghost body_v = toks_view(p.body@);
    let ghost bound = p.ident@;
    let mut out: Vec<Tok> = Vec::new();
    let mut i: i64 = p.begin;
    while i < p.end
        invariant
            p.begin <= i,
            i <= p.end || i == p.begin,
            body_v == toks_view(p.body@),
            bound == p.ident@,
            toks_view(out@) + spec_replay(body_v, bound, i as int, p.end as int) == spec_replay(
                body_v,
                bound,
                p.begin as int,
                p.end as int,
            ),
        decreases p.end as int - i as int,
    {
        let ghost out_pre = out@;
        let mut chunk = p.expand(&p.body, i);
        let ghost chunk_pre = chunk@;
        out.append(&mut chunk);
        proof {
            lemma_toks_view_concat(out_pre, chunk_pre);
            assert(toks_view(out@) + spec_replay(body_v, bound, i as int + 1, p.end as int)
                =~= spec_replay(body_v, bound, p.begin as int, p.end as int));
        }
        i = i + 1;
    }
    proof {
        assert(toks_view(out@) =~= toks_view(out@) + spec_replay(
            body_v,
            bound,
            i as int,
            p.end as int,
        ));
    }
    Some(out)
}

} // verus!
