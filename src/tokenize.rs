//! Normalization and the script-aware tokenizer used by memory recall.
use vstd::prelude::*;
use crate::text::{chars_of, string_of, trim, trim_chars};

verus! {

/// What `str::to_lowercase` makes of a text.
pub uninterp spec fn lower_of(s: Seq<char>) -> Seq<char>;

/// Relies on `str::to_lowercase`: the result depends on the characters alone.
#[verifier::external_body]
pub(crate) fn lowercase(s: &str) -> (r: String)
    ensures
        r@ == lower_of(s@),
{
    s.to_lowercase()
}

/// The ideographic space U+3000 read as an ordinary space.
pub open spec fn plain_spaces(s: Seq<char>) -> Seq<char> {
    s.map_values(|c: char| if c == '\u{3000}' { ' ' } else { c })
}

/// Lower-cased, full-width spaces made plain, trimmed.
pub open spec fn normalized(s: Seq<char>) -> Seq<char> {
    trim(plain_spaces(lower_of(s)))
}

pub fn normalize_chars(s: &str) -> (r: Vec<char>)
    ensures
        r@ == normalized(s@),
{
    let low = lowercase(s);
    let v = chars_of(low.as_str());
    normalize_lowered(&v)
}

/// The rest of normalization on already lower-cased text: U+3000 becomes a
/// space, then the text is trimmed.
pub fn normalize_lowered(v: &Vec<char>) -> (r: Vec<char>)
    ensures
        r@ == trim(plain_spaces(v@)),
{
    let mut w: Vec<char> = Vec::new();
    let mut i: usize = 0;
    while i < v.len()
        invariant
            i <= v@.len(),
            w@ == plain_spaces(v@.subrange(0, i as int)),
        decreases v@.len() - i,
    {
        let c = v[i];
        if c == '\u{3000}' {
            w.push(' ');
        } else {
            w.push(c);
        }
        i = i + 1;
        assert(w@ =~= plain_spaces(v@.subrange(0, i as int)));
    }
    assert(v@.subrange(0, v@.len() as int) =~= v@);
    trim_chars(&w)
}

/// Lower-cases a text, turns U+3000 into a space and trims it.
pub fn normalize_text(s: &str) -> (r: String)
    ensures
        r@ == normalized(s@),
{
    let v = normalize_chars(s);
    string_of(v.as_slice())
}

/// Character class: 1 for ASCII letters and digits, 2 for kana and CJK
/// ideographs, 0 for everything else (a separator).
pub open spec fn class_of(c: char) -> int {
    let u = c as u32;
    if (0x30 <= u && u <= 0x39) || (0x41 <= u && u <= 0x5a) || (0x61 <= u && u <= 0x7a) {
        1
    } else if (0x3040 <= u && u <= 0x30ff) || (0x4e00 <= u && u <= 0x9fff) {
        2
    } else {
        0
    }
}

fn class_exec(c: char) -> (r: u8)
    ensures
        r as int == class_of(c),
{
    let u = c as u32;
    if (0x30 <= u && u <= 0x39) || (0x41 <= u && u <= 0x5a) || (0x61 <= u && u <= 0x7a) {
        1
    } else if (0x3040 <= u && u <= 0x30ff) || (0x4e00 <= u && u <= 0x9fff) {
        2
    } else {
        0
    }
}

pub open spec fn is_digit(c: char) -> bool {
    0x30 <= (c as u32) && (c as u32) <= 0x39
}

/// Scanner state after a prefix: finished runs, the open run, its class.
pub struct ScanState {
    pub runs: Seq<Seq<char>>,
    pub cur: Seq<char>,
    pub last: int,
}

pub open spec fn close_run(runs: Seq<Seq<char>>, cur: Seq<char>) -> Seq<Seq<char>> {
    if cur.len() > 0 {
        runs.push(cur)
    } else {
        runs
    }
}

pub open spec fn scan_step(st: ScanState, c: char) -> ScanState {
    let cl = class_of(c);
    if cl == 0 {
        ScanState { runs: close_run(st.runs, st.cur), cur: Seq::empty(), last: 0 }
    } else if st.last != 0 && cl != st.last {
        ScanState { runs: close_run(st.runs, st.cur), cur: seq![c], last: cl }
    } else {
        ScanState { runs: st.runs, cur: st.cur.push(c), last: cl }
    }
}

pub open spec fn scan(s: Seq<char>) -> ScanState
    decreases s.len(),
{
    if s.len() == 0 {
        ScanState { runs: Seq::empty(), cur: Seq::empty(), last: 0 }
    } else {
        scan_step(scan(s.drop_last()), s.last())
    }
}

/// The maximal runs of one non-separator class, in order.
pub open spec fn runs_of(s: Seq<char>) -> Seq<Seq<char>> {
    close_run(scan(s).runs, scan(s).cur)
}

/// Tokens of two or more characters are kept, and purely numeric ones of any length.
pub open spec fn keep_token(t: Seq<char>) -> bool {
    t.len() >= 2 || forall|i: int| 0 <= i < t.len() ==> is_digit(#[trigger] t[i])
}

pub open spec fn kept(ts: Seq<Seq<char>>) -> Seq<Seq<char>>
    decreases ts.len(),
{
    if ts.len() == 0 {
        Seq::empty()
    } else if keep_token(ts.last()) {
        kept(ts.drop_last()).push(ts.last())
    } else {
        kept(ts.drop_last())
    }
}

/// The tokens of an already normalized text.
pub open spec fn tokens_of(s: Seq<char>) -> Seq<Seq<char>> {
    kept(runs_of(s))
}

/// The tokens of a raw text.
pub open spec fn tokenized(s: Seq<char>) -> Seq<Seq<char>> {
    tokens_of(normalized(s))
}

/// All characters of `t` share one non-separator class.
pub open spec fn one_class(t: Seq<char>) -> bool {
    t.len() > 0 && class_of(t[0]) != 0 && forall|i: int| 0 <= i < t.len() ==> class_of(#[trigger] t[i])
        == class_of(t[0])
}

pub open spec fn views(v: Seq<Vec<char>>) -> Seq<Seq<char>> {
    v.map_values(|t: Vec<char>| t@)
}

pub open spec fn scan_ok(st: ScanState) -> bool {
    &&& forall|k: int| 0 <= k < st.runs.len() ==> one_class(#[trigger] st.runs[k])
    &&& (st.cur.len() == 0 <==> st.last == 0)
    &&& forall|i: int| 0 <= i < st.cur.len() ==> class_of(#[trigger] st.cur[i]) == st.last
}

proof fn lemma_scan_ok(s: Seq<char>)
    ensures
        scan_ok(scan(s)),
    decreases s.len(),
{
    if s.len() > 0 {
        lemma_scan_ok(s.drop_last());
        let st = scan(s.drop_last());
        let c = s.last();
        let n = scan_step(st, c);
        if st.cur.len() > 0 {
            assert(one_class(st.cur));
        }
        assert forall|k: int| 0 <= k < n.runs.len() implies one_class(#[trigger] n.runs[k]) by {
            if k < st.runs.len() {
                assert(n.runs[k] == st.runs[k]);
            }
        }
    }
}

proof fn lemma_runs_one_class(s: Seq<char>)
    ensures
        forall|k: int| 0 <= k < runs_of(s).len() ==> one_class(#[trigger] runs_of(s)[k]),
{
    lemma_scan_ok(s);
    let st = scan(s);
    if st.cur.len() > 0 {
        assert(one_class(st.cur));
    }
}

proof fn lemma_kept_props(ts: Seq<Seq<char>>)
    ensures
        forall|k: int| 0 <= k < kept(ts).len() ==> keep_token(#[trigger] kept(ts)[k]),
        forall|k: int| 0 <= k < kept(ts).len() ==> ts.contains(#[trigger] kept(ts)[k]),
    decreases ts.len(),
{
    if ts.len() > 0 {
        lemma_kept_props(ts.drop_last());
        let r = kept(ts.drop_last());
        assert forall|k: int| 0 <= k < kept(ts).len() implies ts.contains(#[trigger] kept(ts)[k]) by {
            if k < r.len() {
                let j = choose|j: int| 0 <= j < ts.drop_last().len() && ts.drop_last()[j] == r[k];
                assert(ts[j] == r[k]);
            } else {
                assert(ts[ts.len() - 1] == ts.last());
            }
        }
    }
}

/// Every token of a text is made of one character class, and is at least two
/// characters long unless it is purely numeric.
pub proof fn lemma_token_shape(s: Seq<char>)
    ensures
        forall|k: int| 0 <= k < tokens_of(s).len() ==> one_class(#[trigger] tokens_of(s)[k]),
        forall|k: int| 0 <= k < tokens_of(s).len() ==> keep_token(#[trigger] tokens_of(s)[k]),
{
    lemma_runs_one_class(s);
    lemma_kept_props(runs_of(s));
    assert forall|k: int| 0 <= k < tokens_of(s).len() implies one_class(#[trigger] tokens_of(s)[k]) by {
        let t = tokens_of(s)[k];
        assert(runs_of(s).contains(t));
        let j = choose|j: int| 0 <= j < runs_of(s).len() && runs_of(s)[j] == t;
        assert(one_class(runs_of(s)[j]));
    }
}

fn all_digits(t: &Vec<char>) -> (r: bool)
    ensures
        r == forall|i: int| 0 <= i < t@.len() ==> is_digit(t@[i]),
{
    let mut i: usize = 0;
    while i < t.len()
        invariant
            i <= t@.len(),
            forall|k: int| 0 <= k < i ==> is_digit(t@[k]),
        decreases t@.len() - i,
    {
        let u = t[i] as u32;
        if !(0x30 <= u && u <= 0x39) {
            return false;
        }
        i = i + 1;
    }
    true
}

/// Splits normalized text into tokens.
pub fn split_tokens(s: &Vec<char>) -> (r: Vec<Vec<char>>)
    ensures
        views(r@) == tokens_of(s@),
{
    let mut runs: Vec<Vec<char>> = Vec::new();
    let mut cur: Vec<char> = Vec::new();
    let mut last: u8 = 0;
    let mut i: usize = 0;
    while i < s.len()
        invariant
            i <= s@.len(),
            last <= 2,
            views(runs@) == scan(s@.subrange(0, i as int)).runs,
            cur@ == scan(s@.subrange(0, i as int)).cur,
            last as int == scan(s@.subrange(0, i as int)).last,
        decreases s@.len() - i,
    {
        let ghost pre = s@.subrange(0, i as int);
        let c = s[i];
        let cl = class_exec(c);
        proof {
            assert(s@.subrange(0, i + 1).drop_last() =~= pre);
        }
        if cl == 0 {
            if cur.len() > 0 {
                let done = cur;
                runs.push(done);
                assert(views(runs@) =~= close_run(scan(pre).runs, scan(pre).cur));
            }
            cur = Vec::new();
            last = 0;
        } else if last != 0 && cl != last {
            if cur.len() > 0 {
                let done = cur;
                runs.push(done);
                assert(views(runs@) =~= close_run(scan(pre).runs, scan(pre).cur));
            }
            cur = Vec::new();
            cur.push(c);
            assert(cur@ =~= seq![c]);
            last = cl;
        } else {
            cur.push(c);
            last = cl;
        }
        i = i + 1;
    }
    assert(s@.subrange(0, s@.len() as int) =~= s@);
    if cur.len() > 0 {
        runs.push(cur);
    }
    assert(views(runs@) =~= runs_of(s@));
    let mut out: Vec<Vec<char>> = Vec::new();
    let mut j: usize = 0;
    let ghost all = views(runs@);
    let n = runs.len();
    while j < n
        invariant
            j <= n == runs@.len(),
            all == views(runs@),
            views(out@) == kept(all.subrange(0, j as int)),
        decreases n - j,
    {
        let t = &runs[j];
        let keep = t.len() >= 2 || all_digits(t);
        proof {
            assert(all.subrange(0, j + 1).drop_last() =~= all.subrange(0, j as int));
            assert(all.subrange(0, j + 1).last() == t@);
        }
        if keep {
            let tc = slice_all(t);
            out.push(tc);
            assert(views(out@) =~= kept(all.subrange(0, j as int)).push(t@));
        }
        j = j + 1;
    }
    assert(all.subrange(0, n as int) =~= all);
    out
}

fn slice_all(t: &Vec<char>) -> (r: Vec<char>)
    ensures
        r@ == t@,
{
    crate::text::slice_vec(t, 0, t.len())
}

/// Tokenizes a text for recall: normalizes it, splits it at every change of
/// character class and at separators, and drops one-character tokens that are
/// not numeric.
pub fn tokenize(s: &str) -> (r: Vec<String>)
    ensures
        r@.map_values(|t: String| t@) == tokenized(s@),
        forall|k: int| 0 <= k < r@.len() ==> one_class(#[trigger] r@[k]@),
        forall|k: int| 0 <= k < r@.len() ==> keep_token(#[trigger] r@[k]@),
{
    let n = normalize_chars(s);
    let toks = split_tokens(&n);
    let mut out: Vec<String> = Vec::new();
    let mut i: usize = 0;
    while i < toks.len()
        invariant
            i <= toks@.len(),
            out@.map_values(|t: String| t@) == views(toks@).subrange(0, i as int),
        decreases toks@.len() - i,
    {
        let t = string_of(toks[i].as_slice());
        assert(views(toks@)[i as int] == t@);
        let ghost before = out@;
        out.push(t);
        assert(out@.map_values(|t: String| t@) =~= before.map_values(|t: String| t@).push(t@));
        i = i + 1;
        assert(out@.map_values(|t: String| t@) =~= views(toks@).subrange(0, i as int));
    }
    assert(views(toks@).subrange(0, i as int) =~= views(toks@));
    proof {
        lemma_token_shape(n@);
        assert forall|k: int| 0 <= k < out@.len() implies one_class(#[trigger] out@[k]@) && keep_token(out@[k]@) by {
            assert(out@[k]@ == out@.map_values(|t: String| t@)[k]);
            assert(tokens_of(n@)[k] == out@[k]@);
        }
    }
    out
}

} // verus!
