//! Scoring of memory records against a query. Scores are integers in
//! millionths of a point: 1_000_000 stands for 1.0.
use vstd::prelude::*;
use vstd::set_lib::lemma_set_intersect_union_lens;
use crate::memory::{MemoryHit, MemoryIndex, MemoryKind, MemoryMeta, MemoryRecord};
use crate::text::{append_chars, append_str, chars_of, digit_char, digits, has_sub, has_sub_exec, push_digits, same_chars, string_of};
use crate::tokenize::{normalize_chars, normalized, split_tokens, tokenized, views};

verus! {

/// Milliseconds in the thirty days over which recency fades.
pub open spec fn window_ms() -> int {
    2_592_000_000
}

pub open spec fn str_views(v: Seq<String>) -> Seq<Seq<char>> {
    v.map_values(|t: String| t@)
}

/// A tag matches the query when, normalized, it contains a query token or a
/// query token contains it.
pub open spec fn tag_matches(tag: Seq<char>, qt: Seq<Seq<char>>) -> bool {
    exists|k: int|
        0 <= k < qt.len() && (has_sub(normalized(tag), #[trigger] qt[k]) || has_sub(
            qt[k],
            normalized(tag),
        ))
}

/// How many tags match the query tokens.
pub open spec fn overlap_count(tags: Seq<Seq<char>>, qt: Seq<Seq<char>>) -> nat
    decreases tags.len(),
{
    if tags.len() == 0 {
        0
    } else {
        overlap_count(tags.drop_last(), qt) + if tag_matches(tags.last(), qt) {
            1nat
        } else {
            0nat
        }
    }
}

/// Jaccard similarity of the two token sets, weighted by five.
pub open spec fn jaccard_part(a: Set<Seq<char>>, b: Set<Seq<char>>) -> int {
    if a.len() == 0 || b.len() == 0 {
        0
    } else {
        (5_000_000 * a.intersect(b).len() / (a + b).len()) as int
    }
}

/// Importance clamped to 0..=1000 thousandths, weighted by two.
pub open spec fn importance_part(importance: i32) -> int {
    if importance < 0 {
        0
    } else if importance > 1000 {
        2_000_000
    } else {
        importance * 2000
    }
}

/// `clamp(1 - age_days / 30, 0, 1)`, age never below zero.
pub open spec fn recency_part(updated_ms: i64, now_ms: i64) -> int {
    let age = if now_ms - updated_ms > 0 {
        now_ms - updated_ms
    } else {
        0
    };
    if age >= window_ms() {
        0
    } else {
        (window_ms() - age) * 1_000_000 / window_ms()
    }
}

/// Two points when the whole normalized query occurs in the search text.
pub open spec fn exact_part(search_text: Seq<char>, q: Seq<char>) -> int {
    if has_sub(search_text, q) {
        2_000_000
    } else {
        0
    }
}

/// The score of a record against normalized query `q` with tokens `qt`.
pub open spec fn score_of(meta: &MemoryMeta, q: Seq<char>, qt: Seq<Seq<char>>, now_ms: i64) -> int {
    jaccard_part(qt.to_set(), tokenized(meta.search_text@).to_set()) + overlap_count(
        str_views(meta.tags@),
        qt,
    ) * 1_500_000 + importance_part(meta.importance) + recency_part(meta.updated_at_ms, now_ms)
        + exact_part(meta.search_text@, q)
}

/// The cheap filter: some query token occurs in the search text, or some tag matches.
pub open spec fn passes_filter(meta: &MemoryMeta, qt: Seq<Seq<char>>) -> bool {
    (exists|k: int| 0 <= k < qt.len() && has_sub(meta.search_text@, #[trigger] qt[k]))
        || overlap_count(str_views(meta.tags@), qt) > 0
}

/// A record takes part in the ranking: not sealed, with a search text, past
/// the filter, and with a positive score.
pub open spec fn candidate(meta: &MemoryMeta, q: Seq<char>, qt: Seq<Seq<char>>, now_ms: i64) -> bool {
    &&& meta.kind != MemoryKind::Sealed
    &&& meta.search_text@.len() > 0
    &&& passes_filter(meta, qt)
    &&& score_of(meta, q, qt, now_ms) > 0
}

fn tag_matches_exec(tag: &str, qt: &Vec<Vec<char>>) -> (r: bool)
    ensures
        r == tag_matches(tag@, views(qt@)),
{
    let tn = normalize_chars(tag);
    let mut k: usize = 0;
    while k < qt.len()
        invariant
            k <= qt@.len(),
            tn@ == normalized(tag@),
            forall|j: int|
                0 <= j < k ==> !(has_sub(normalized(tag@), #[trigger] views(qt@)[j]) || has_sub(
                    views(qt@)[j],
                    normalized(tag@),
                )),
        decreases qt@.len() - k,
    {
        assert(views(qt@)[k as int] == qt@[k as int]@);
        if has_sub_exec(&tn, &qt[k]) || has_sub_exec(&qt[k], &tn) {
            return true;
        }
        k = k + 1;
    }
    false
}

fn overlap_exec(tags: &Vec<String>, qt: &Vec<Vec<char>>) -> (r: usize)
    ensures
        r as nat == overlap_count(str_views(tags@), views(qt@)),
{
    let mut n: usize = 0;
    let mut i: usize = 0;
    while i < tags.len()
        invariant
            i <= tags@.len(),
            n <= i,
            n as nat == overlap_count(str_views(tags@.subrange(0, i as int)), views(qt@)),
        decreases tags@.len() - i,
    {
        proof {
            assert(str_views(tags@.subrange(0, i + 1)).drop_last() =~= str_views(
                tags@.subrange(0, i as int),
            ));
            assert(str_views(tags@.subrange(0, i + 1)).last() == tags@[i as int]@);
        }
        if tag_matches_exec(tags[i].as_str(), qt) {
            n = n + 1;
        }
        i = i + 1;
    }
    assert(tags@.subrange(0, i as int) =~= tags@);
    n
}

fn token_views_of(v: &[String]) -> (r: Vec<Vec<char>>)
    ensures
        views(r@) == str_views(v@),
{
    let mut out: Vec<Vec<char>> = Vec::new();
    let mut i: usize = 0;
    while i < v.len()
        invariant
            i <= v@.len(),
            views(out@) == str_views(v@.subrange(0, i as int)),
        decreases v@.len() - i,
    {
        let c = chars_of(v[i].as_str());
        let ghost before = out@;
        out.push(c);
        assert(views(out@) =~= views(before).push(c@));
        i = i + 1;
        assert(str_views(v@.subrange(0, i as int)) =~= str_views(v@.subrange(0, i - 1)).push(
            v@[i - 1]@,
        ));
    }
    assert(v@.subrange(0, i as int) =~= v@);
    out
}

/// Counts the tags that match a query token.
pub fn tag_overlap(tags: &Vec<String>, query_tokens: &[String]) -> (r: usize)
    ensures
        r as nat == overlap_count(str_views(tags@), str_views(query_tokens@)),
{
    let qt = token_views_of(query_tokens);
    overlap_exec(tags, &qt)
}

fn contains_token(v: &Vec<Vec<char>>, t: &Vec<char>) -> (r: bool)
    ensures
        r == views(v@).contains(t@),
{
    let mut i: usize = 0;
    while i < v.len()
        invariant
            i <= v@.len(),
            forall|k: int| 0 <= k < i ==> views(v@)[k] != t@,
        decreases v@.len() - i,
    {
        if same_chars(&v[i], t) {
            assert(views(v@)[i as int] == t@);
            return true;
        }
        i = i + 1;
    }
    false
}

/// The distinct tokens of `v`, each once.
fn distinct_tokens(v: &Vec<Vec<char>>) -> (r: Vec<Vec<char>>)
    ensures
        views(r@).no_duplicates(),
        views(r@).to_set() == views(v@).to_set(),
{
    let mut out: Vec<Vec<char>> = Vec::new();
    let mut i: usize = 0;
    while i < v.len()
        invariant
            i <= v@.len(),
            views(out@).no_duplicates(),
            views(out@).to_set() == views(v@).subrange(0, i as int).to_set(),
        decreases v@.len() - i,
    {
        let t = &v[i];
        let ghost pre = views(v@).subrange(0, i as int);
        proof {
            assert(views(v@).subrange(0, i + 1) =~= pre.push(t@));
            pre.lemma_push_to_set_commute(t@);
        }
        if !contains_token(&out, t) {
            let c = crate::text::copy_chars(t);
            let ghost before = out@;
            out.push(c);
            assert(views(out@) =~= views(before).push(t@));
            proof {
                views(before).lemma_push_to_set_commute(t@);
            }
        } else {
            assert(views(out@).to_set().contains(t@));
            assert(views(out@).to_set() =~= views(out@).to_set().insert(t@));
        }
        i = i + 1;
    }
    assert(views(v@).subrange(0, i as int) =~= views(v@));
    out
}

/// The tokens of `a` that `b` holds too.
fn common_tokens(a: &Vec<Vec<char>>, b: &Vec<Vec<char>>) -> (r: Vec<Vec<char>>)
    requires
        views(a@).no_duplicates(),
    ensures
        views(r@).no_duplicates(),
        views(r@).to_set() == views(a@).to_set().intersect(views(b@).to_set()),
{
    let mut out: Vec<Vec<char>> = Vec::new();
    let mut i: usize = 0;
    while i < a.len()
        invariant
            i <= a@.len(),
            views(a@).no_duplicates(),
            views(out@).no_duplicates(),
            views(out@).to_set() == views(a@).subrange(0, i as int).to_set().intersect(
                views(b@).to_set(),
            ),
            forall|x: Seq<char>| views(out@).contains(x) ==> views(a@).subrange(0, i as int).contains(x),
        decreases a@.len() - i,
    {
        let t = &a[i];
        let ghost pre = views(a@).subrange(0, i as int);
        proof {
            assert(views(a@).subrange(0, i + 1) =~= pre.push(t@));
            pre.lemma_push_to_set_commute(t@);
        }
        if contains_token(b, t) {
            let c = crate::text::copy_chars(t);
            let ghost before = out@;
            proof {
                if views(before).contains(t@) {
                    let k = choose|k: int| 0 <= k < i && pre[k] == t@;
                    assert(views(a@)[k] == views(a@)[i as int]);
                }
            }
            out.push(c);
            assert(views(out@) =~= views(before).push(t@));
            proof {
                views(before).lemma_push_to_set_commute(t@);
                assert forall|x: Seq<char>| views(out@).contains(x) implies views(a@).subrange(0, i + 1).contains(x) by {
                    if x != t@ {
                        let k = choose|k: int| 0 <= k < views(out@).len() && views(out@)[k] == x;
                        assert(views(before)[k] == x);
                        assert(views(before).contains(x));
                        let j = choose|j: int| 0 <= j < pre.len() && pre[j] == x;
                        assert(views(a@).subrange(0, i + 1)[j] == x);
                    } else {
                        assert(views(a@).subrange(0, i + 1)[i as int] == x);
                    }
                }
            }
            assert(views(out@).to_set() =~= views(a@).subrange(0, i + 1).to_set().intersect(
                views(b@).to_set(),
            ));
        } else {
            proof {
                assert forall|x: Seq<char>| views(out@).contains(x) implies views(a@).subrange(0, i + 1).contains(x) by {
                    let j = choose|j: int| 0 <= j < pre.len() && pre[j] == x;
                    assert(views(a@).subrange(0, i + 1)[j] == x);
                }
            }
            assert(views(out@).to_set() =~= views(a@).subrange(0, i + 1).to_set().intersect(
                views(b@).to_set(),
            ));
        }
        i = i + 1;
    }
    assert(views(a@).subrange(0, i as int) =~= views(a@));
    out
}

/// Jaccard similarity of two token lists as sets, times five, in millionths.
fn jaccard_exec(a: &Vec<Vec<char>>, b: &Vec<Vec<char>>) -> (r: u128)
    ensures
        r as int == jaccard_part(views(a@).to_set(), views(b@).to_set()),
        r <= 5_000_000,
{
    let da = distinct_tokens(a);
    let db = distinct_tokens(b);
    let common = common_tokens(&da, &db);
    let ghost sa = views(a@).to_set();
    let ghost sb = views(b@).to_set();
    proof {
        views(da@).unique_seq_to_set();
        views(db@).unique_seq_to_set();
        views(common@).unique_seq_to_set();
        vstd::seq_lib::seq_to_set_is_finite(views(a@));
        vstd::seq_lib::seq_to_set_is_finite(views(b@));
        lemma_set_intersect_union_lens(sa, sb);
        assert(views(da@).len() == da@.len());
        assert(views(db@).len() == db@.len());
        assert(views(common@).len() == common@.len());
        vstd::set_lib::lemma_len_intersect(sa, sb);
        vstd::set_lib::lemma_len_intersect(sb, sa);
        assert(sa.intersect(sb) =~= sb.intersect(sa));
    }
    if da.len() == 0 || db.len() == 0 {
        return 0;
    }
    let inter = common.len() as u128;
    let uni = da.len() as u128 + db.len() as u128 - inter;
    proof {
        assert(inter <= da@.len());
        assert(inter <= db@.len());
        assert(uni >= da@.len());
        assert(5_000_000 * inter <= 5_000_000 * uni) by (nonlinear_arith)
            requires inter <= uni;
        vstd::arithmetic::div_mod::lemma_div_is_ordered(
            (5_000_000 * inter) as int,
            (5_000_000 * uni) as int,
            uni as int,
        );
        vstd::arithmetic::div_mod::lemma_div_multiples_vanish(5_000_000, uni as int);
    }
    5_000_000 * inter / uni
}

fn importance_exec(importance: i32) -> (r: u128)
    ensures
        r as int == importance_part(importance),
{
    if importance < 0 {
        0
    } else if importance > 1000 {
        2_000_000
    } else {
        importance as u128 * 2000
    }
}

fn recency_exec(updated_ms: i64, now_ms: i64) -> (r: u128)
    ensures
        r as int == recency_part(updated_ms, now_ms),
        r <= 1_000_000,
{
    let diff: i128 = now_ms as i128 - updated_ms as i128;
    let age: i128 = if diff > 0 {
        diff
    } else {
        0
    };
    if age >= 2_592_000_000 {
        0
    } else {
        let left = (2_592_000_000 - age) as u128;
        proof {
            assert(left * 1_000_000 <= 2_592_000_000 * 1_000_000) by (nonlinear_arith)
                requires left <= 2_592_000_000;
            vstd::arithmetic::div_mod::lemma_div_is_ordered(
                (left * 1_000_000) as int,
                2_592_000_000int * 1_000_000int,
                2_592_000_000,
            );
        }
        left * 1_000_000 / 2_592_000_000
    }
}

/// Scores a record against normalized query `q` with tokens `qt`; `None` when it
/// is no candidate.
pub fn score_candidate(meta: &MemoryMeta, q: &Vec<char>, qt: &Vec<Vec<char>>, now_ms: i64) -> (r:
    Option<u128>)
    ensures
        r is Some <==> candidate(meta, q@, views(qt@), now_ms),
        r matches Some(s) ==> s as int == score_of(meta, q@, views(qt@), now_ms),
{
    if meta.kind == MemoryKind::Sealed {
        return None;
    }
    let st = chars_of(meta.search_text.as_str());
    if st.len() == 0 {
        return None;
    }
    let ov = overlap_exec(&meta.tags, qt);
    let mut hit = false;
    let mut k: usize = 0;
    while k < qt.len()
        invariant
            k <= qt@.len(),
            st@ == meta.search_text@,
            !hit ==> forall|j: int| 0 <= j < k ==> !has_sub(meta.search_text@, #[trigger] views(qt@)[j]),
            hit ==> exists|j: int| 0 <= j < qt@.len() && has_sub(meta.search_text@, #[trigger] views(qt@)[j]),
        decreases qt@.len() - k,
    {
        assert(views(qt@)[k as int] == qt@[k as int]@);
        if has_sub_exec(&st, &qt[k]) {
            hit = true;
        }
        k = k + 1;
    }
    if !hit && ov == 0 {
        return None;
    }
    let stn = normalize_chars(meta.search_text.as_str());
    let tt = split_tokens(&stn);
    let jac = jaccard_exec(qt, &tt);
    let exact: u128 = if has_sub_exec(&st, q) {
        2_000_000
    } else {
        0
    };
    let score = jac + ov as u128 * 1_500_000 + importance_exec(meta.importance) + recency_exec(
        meta.updated_at_ms,
        now_ms,
    ) + exact;
    if score == 0 {
        return None;
    }
    Some(score)
}

/// `picks` is a top-`limit` ranking of the candidates among `recs`: pairs of a
/// record position and its score, best first, each candidate at most once, and
/// every candidate left out no better than any picked one.
pub open spec fn ranked(
    recs: Seq<MemoryRecord>,
    q: Seq<char>,
    qt: Seq<Seq<char>>,
    now_ms: i64,
    limit: nat,
    picks: Seq<(usize, u128)>,
) -> bool {
    &&& picks.len() <= limit
    &&& forall|k: int|
        0 <= k < picks.len() ==> {
            &&& (#[trigger] picks[k]).0 < recs.len()
            &&& candidate(&recs[picks[k].0 as int].meta, q, qt, now_ms)
            &&& picks[k].1 as int == score_of(&recs[picks[k].0 as int].meta, q, qt, now_ms)
        }
    &&& forall|k1: int, k2: int|
        0 <= k1 < k2 < picks.len() ==> (#[trigger] picks[k1]).0 != (#[trigger] picks[k2]).0
    &&& forall|k1: int, k2: int|
        0 <= k1 < k2 < picks.len() ==> (#[trigger] picks[k1]).1 >= (#[trigger] picks[k2]).1
    &&& forall|i: int|
        0 <= i < recs.len() && candidate(&(#[trigger] recs[i]).meta, q, qt, now_ms) && (forall|k: int|
            0 <= k < picks.len() ==> picks[k].0 != i) ==> picks.len() == limit && forall|k: int|
            0 <= k < picks.len() ==> picks[k].1 >= score_of(&recs[i].meta, q, qt, now_ms)
}

/// The sorted list of all candidates among the first `n` records.
spec fn sorted_prefix(
    recs: Seq<MemoryRecord>,
    q: Seq<char>,
    qt: Seq<Seq<char>>,
    now_ms: i64,
    n: int,
    all: Seq<(usize, u128)>,
) -> bool {
    &&& forall|k: int|
        0 <= k < all.len() ==> {
            &&& (#[trigger] all[k]).0 < n
            &&& candidate(&recs[all[k].0 as int].meta, q, qt, now_ms)
            &&& all[k].1 as int == score_of(&recs[all[k].0 as int].meta, q, qt, now_ms)
        }
    &&& forall|k1: int, k2: int|
        0 <= k1 < k2 < all.len() ==> (#[trigger] all[k1]).0 != (#[trigger] all[k2]).0
    &&& forall|k1: int, k2: int|
        0 <= k1 < k2 < all.len() ==> (#[trigger] all[k1]).1 >= (#[trigger] all[k2]).1
    &&& forall|i: int|
        0 <= i < n && candidate(&(#[trigger] recs[i]).meta, q, qt, now_ms) ==> exists|k: int|
            0 <= k < all.len() && (#[trigger] all[k]).0 == i
}

/// Ranks the records against normalized query `q` with tokens `qt`, keeping
/// the best `limit`.
pub fn rank_records(
    recs: &Vec<MemoryRecord>,
    q: &Vec<char>,
    qt: &Vec<Vec<char>>,
    limit: usize,
    now_ms: i64,
) -> (r: Vec<(usize, u128)>)
    ensures
        ranked(recs@, q@, views(qt@), now_ms, limit as nat, r@),
{
    let ghost gq = q@;
    let ghost gt = views(qt@);
    let mut all: Vec<(usize, u128)> = Vec::new();
    let mut i: usize = 0;
    while i < recs.len()
        invariant
            i <= recs@.len(),
            gq == q@,
            gt == views(qt@),
            sorted_prefix(recs@, gq, gt, now_ms, i as int, all@),
        decreases recs@.len() - i,
    {
        match score_candidate(&recs[i].meta, q, qt, now_ms) {
            None => {
                assert(sorted_prefix(recs@, gq, gt, now_ms, i + 1, all@)) by {
                    assert forall|j: int|
                        0 <= j < i + 1 && candidate(&(#[trigger] recs@[j]).meta, gq, gt, now_ms) implies exists|k: int|
                        0 <= k < all@.len() && (#[trigger] all@[k]).0 == j by {
                        if j < i {
                        }
                    }
                }
            },
            Some(sc) => {
                let mut pos: usize = 0;
                while pos < all.len() && all[pos].1 >= sc
                    invariant
                        pos <= all@.len(),
                        forall|k: int| 0 <= k < pos ==> (#[trigger] all@[k]).1 >= sc,
                    decreases all@.len() - pos,
                {
                    pos = pos + 1;
                }
                let ghost before = all@;
                all.insert(pos, (i, sc));
                proof {
                    let after = all@;
                    assert(after == before.insert(pos as int, (i, sc)));
                    assert(after.len() == before.len() + 1);
                    assert forall|k: int| 0 <= k < after.len() implies {
                        &&& (#[trigger] after[k]).0 < i + 1
                        &&& candidate(&recs@[after[k].0 as int].meta, gq, gt, now_ms)
                        &&& after[k].1 as int == score_of(&recs@[after[k].0 as int].meta, gq, gt, now_ms)
                    } by {
                        if k < pos {
                            assert(after[k] == before[k]);
                        } else if k > pos {
                            assert(after[k] == before[k - 1]);
                        }
                    }
                    assert forall|k1: int, k2: int| 0 <= k1 < k2 < after.len() implies (#[trigger] after[k1]).0 != (#[trigger] after[k2]).0 by {
                        if k1 < pos {
                            assert(after[k1] == before[k1]);
                        } else if k1 > pos {
                            assert(after[k1] == before[k1 - 1]);
                        }
                        if k2 < pos {
                            assert(after[k2] == before[k2]);
                        } else if k2 > pos {
                            assert(after[k2] == before[k2 - 1]);
                        }
                    }
                    assert forall|k1: int, k2: int| 0 <= k1 < k2 < after.len() implies (#[trigger] after[k1]).1 >= (#[trigger] after[k2]).1 by {
                        if k1 < pos {
                            assert(after[k1] == before[k1]);
                        } else if k1 > pos {
                            assert(after[k1] == before[k1 - 1]);
                        }
                        if k2 < pos {
                            assert(after[k2] == before[k2]);
                        } else if k2 > pos {
                            assert(after[k2] == before[k2 - 1]);
                            if k1 == pos {
                                assert(before[pos as int].1 < sc);
                                if k2 - 1 > pos {
                                    assert(before[pos as int].1 >= before[k2 - 1].1);
                                }
                            }
                        }
                    }
                    assert forall|j: int|
                        0 <= j < i + 1 && candidate(&(#[trigger] recs@[j]).meta, gq, gt, now_ms) implies exists|k: int|
                        0 <= k < after.len() && (#[trigger] after[k]).0 == j by {
                        if j == i {
                            assert(after[pos as int].0 == j);
                        } else {
                            let k = choose|k: int| 0 <= k < before.len() && (#[trigger] before[k]).0 == j;
                            if k < pos {
                                assert(after[k].0 == j);
                            } else {
                                assert(after[k + 1].0 == j);
                            }
                        }
                    }
                }
            },
        }
        i = i + 1;
    }
    let ghost full = all@;
    if all.len() > limit {
        all.truncate(limit);
    }
    proof {
        let r = all@;
        assert(r == full.subrange(0, r.len() as int));
        assert forall|j: int|
            0 <= j < recs@.len() && candidate(&(#[trigger] recs@[j]).meta, gq, gt, now_ms) && (forall|k: int|
                0 <= k < r.len() ==> r[k].0 != j) implies r.len() == limit && forall|k: int|
            0 <= k < r.len() ==> r[k].1 >= score_of(&recs@[j].meta, gq, gt, now_ms) by {
            let p = choose|p: int| 0 <= p < full.len() && (#[trigger] full[p]).0 == j;
            if p < r.len() {
                assert(r[p].0 == j);
            }
            assert forall|k: int| 0 <= k < r.len() implies r[k].1 >= score_of(&recs@[j].meta, gq, gt, now_ms) by {
                assert(full[k] == r[k]);
            }
        }
        assert forall|k1: int, k2: int| 0 <= k1 < k2 < r.len() implies (#[trigger] r[k1]).0 != (#[trigger] r[k2]).0 by {
            assert(r[k1] == full[k1]);
            assert(r[k2] == full[k2]);
        }
        assert forall|k1: int, k2: int| 0 <= k1 < k2 < r.len() implies (#[trigger] r[k1]).1 >= (#[trigger] r[k2]).1 by {
            assert(r[k1] == full[k1]);
            assert(r[k2] == full[k2]);
        }
    }
    all
}

/// `hits` are the records that `picks` names, in that order, with their scores.
pub open spec fn hits_match(recs: Seq<MemoryRecord>, picks: Seq<(usize, u128)>, hits: Seq<MemoryHit>) -> bool {
    &&& hits.len() == picks.len()
    &&& forall|k: int|
        0 <= k < hits.len() ==> {
            &&& (#[trigger] hits[k]).id@ == recs[picks[k].0 as int].meta.id@
            &&& hits[k].score == picks[k].1
            &&& hits[k].entry@ == recs[picks[k].0 as int].entry@
        }
}

/// The ranked recall for `query` at time `now_ms`.
pub open spec fn recall_result(recs: Seq<MemoryRecord>, query: Seq<char>, limit: nat, now_ms: i64, hits: Seq<MemoryHit>) -> bool {
    let q = normalized(query);
    if q.len() == 0 {
        hits.len() == 0
    } else {
        exists|picks: Seq<(usize, u128)>|
            #[trigger] ranked(recs, q, tokenized(q), now_ms, limit, picks) && hits_match(recs, picks, hits)
    }
}

/// The best `limit` records for `query` at time `now_ms`, best first; an
/// empty query gives no hits and scans nothing.
pub fn search_top_k_at(index: &MemoryIndex, query: &str, limit: usize, now_ms: i64) -> (r: Vec<MemoryHit>)
    ensures
        recall_result(index.records@, query@, limit as nat, now_ms, r@),
        forall|k1: int, k2: int| 0 <= k1 < k2 < r@.len() ==> (#[trigger] r@[k1]).score >= (#[trigger] r@[k2]).score,
{
    let q = normalize_chars(query);
    if q.len() == 0 {
        return Vec::new();
    }
    let qs = string_of(q.as_slice());
    let qn = normalize_chars(qs.as_str());
    let qt = split_tokens(&qn);
    let picks = rank_records(&index.records, &q, &qt, limit, now_ms);
    let mut hits: Vec<MemoryHit> = Vec::new();
    let mut k: usize = 0;
    while k < picks.len()
        invariant
            k <= picks@.len(),
            ranked(index.records@, q@, views(qt@), now_ms, limit as nat, picks@),
            hits@.len() == k,
            forall|j: int|
                0 <= j < k ==> {
                    &&& (#[trigger] hits@[j]).id@ == index.records@[picks@[j].0 as int].meta.id@
                    &&& hits@[j].score == picks@[j].1
                    &&& hits@[j].entry@ == index.records@[picks@[j].0 as int].entry@
                },
        decreases picks@.len() - k,
    {
        let (i, sc) = picks[k];
        let rec = &index.records[i];
        hits.push(MemoryHit { id: rec.meta.id.clone(), score: sc, entry: rec.entry.copy() });
        k = k + 1;
    }
    proof {
        assert(hits_match(index.records@, picks@, hits@));
        assert(ranked(index.records@, normalized(query@), tokenized(normalized(query@)), now_ms, limit as nat, picks@));
    }
    hits
}

/// The best `limit` records for `query` now.
pub fn search_top_k(index: &MemoryIndex, query: &str, limit: usize) -> (r: Vec<MemoryHit>)
    ensures
        exists|now_ms: i64| recall_result(index.records@, query@, limit as nat, now_ms, r@),
        forall|k1: int, k2: int| 0 <= k1 < k2 < r@.len() ==> (#[trigger] r@[k1]).score >= (#[trigger] r@[k2]).score,
{
    let now = crate::memory::clock_ms();
    search_top_k_at(index, query, limit, now)
}

/// The single best record for `query` now, if any.
pub fn search_best_for_query(index: &MemoryIndex, query: &str) -> (r: Option<MemoryHit>)
    ensures
        exists|now_ms: i64, hits: Seq<MemoryHit>|
            recall_result(index.records@, query@, 1, now_ms, hits) && (if hits.len() == 0 {
                r is None
            } else {
                r matches Some(h) && h == hits[0]
            }),
{
    let now = crate::memory::clock_ms();
    let mut hits = search_top_k_at(index, query, 1, now);
    let ghost all = hits@;
    if hits.len() == 0 {
        None
    } else {
        let h = hits.remove(0);
        assert(recall_result(index.records@, query@, 1, now, all) && h == all[0]);
        Some(h)
    }
}

/// The hit comes from a record that is not sealed.
pub open spec fn from_unsealed(recs: Seq<MemoryRecord>, h: MemoryHit) -> bool {
    exists|i: int|
        0 <= i < recs.len() && (#[trigger] recs[i]).meta.kind != MemoryKind::Sealed
            && recs[i].meta.id@ == h.id@ && recs[i].entry@ == h.entry@
}

/// Recall never returns a sealed record, and its scores never increase along
/// the result.
pub proof fn lemma_recall_excludes_sealed(
    recs: Seq<MemoryRecord>,
    query: Seq<char>,
    limit: nat,
    now_ms: i64,
    hits: Seq<MemoryHit>,
)
    requires
        recall_result(recs, query, limit, now_ms, hits),
    ensures
        forall|k: int| 0 <= k < hits.len() ==> from_unsealed(recs, #[trigger] hits[k]),
        forall|k1: int, k2: int| 0 <= k1 < k2 < hits.len() ==> (#[trigger] hits[k1]).score >= (#[trigger] hits[k2]).score,
        normalized(query).len() == 0 ==> hits.len() == 0,
{
    let q = normalized(query);
    if q.len() > 0 {
        let picks = choose|picks: Seq<(usize, u128)>|
            #[trigger] ranked(recs, q, tokenized(q), now_ms, limit, picks) && hits_match(recs, picks, hits);
        assert forall|k: int| 0 <= k < hits.len() implies from_unsealed(recs, #[trigger] hits[k]) by {
            let i = picks[k].0 as int;
            assert(0 <= i < recs.len());
            assert(candidate(&recs[i].meta, q, tokenized(q), now_ms));
            assert(recs[i].meta.kind != MemoryKind::Sealed && recs[i].meta.id@ == hits[k].id@
                && recs[i].entry@ == hits[k].entry@);
        }
        assert forall|k1: int, k2: int| 0 <= k1 < k2 < hits.len() implies (#[trigger] hits[k1]).score >= (#[trigger] hits[k2]).score by {
            assert(picks[k1].1 >= picks[k2].1);
        }
    }
}

/// Of two records that differ only in importance and age, one at importance
/// 0.9 updated now outscores one at importance 0.1 updated 29 days ago.
pub proof fn lemma_importance_and_recency_order(
    fresh: &MemoryMeta,
    stale: &MemoryMeta,
    q: Seq<char>,
    qt: Seq<Seq<char>>,
    now_ms: i64,
)
    requires
        fresh.search_text@ == stale.search_text@,
        fresh.tags@.map_values(|t: String| t@) == stale.tags@.map_values(|t: String| t@),
        fresh.importance == 900,
        stale.importance == 100,
        fresh.updated_at_ms == now_ms,
        stale.updated_at_ms as int == now_ms - 29 * 86_400_000,
    ensures
        score_of(fresh, q, qt, now_ms) > score_of(stale, q, qt, now_ms),
{
    assert(recency_part(fresh.updated_at_ms, now_ms) == 1_000_000);
    assert(importance_part(fresh.importance) - importance_part(stale.importance) == 1_600_000);
    assert(recency_part(stale.updated_at_ms, now_ms) < 1_000_000) by {
        let age = 29 * 86_400_000int;
        assert((window_ms() - age) * 1_000_000 / window_ms() < 1_000_000);
    }
}

/// The first `n` characters of `s`.
pub open spec fn take(s: Seq<char>, n: int) -> Seq<char> {
    if s.len() <= n {
        s
    } else {
        s.subrange(0, n)
    }
}

/// A score in millionths shown with two decimals, rounded.
pub open spec fn score_text(score: int) -> Seq<char> {
    let c = (score + 5000) / 10000;
    digits((c / 100) as nat) + seq!['.', digit_char(((c % 100) / 10) as nat), digit_char((c % 10) as nat)]
}

pub open spec fn hit_line(h: MemoryHit) -> Seq<char> {
    "- (score="@ + score_text(h.score as int) + ") Q: "@ + take(h.entry.input.text@, 80) + " / A: "@
        + take(h.entry.output.text@, 120)
}

pub open spec fn hit_lines(hits: Seq<MemoryHit>) -> Seq<char>
    decreases hits.len(),
{
    if hits.len() == 0 {
        Seq::empty()
    } else if hits.len() == 1 {
        hit_line(hits[0])
    } else {
        hit_lines(hits.drop_last()) + "\n"@ + hit_line(hits.last())
    }
}

/// The prompt section for a list of hits: empty when there are none.
pub open spec fn memory_context_text(hits: Seq<MemoryHit>) -> Seq<char> {
    if hits.len() == 0 {
        Seq::empty()
    } else {
        "\n[Relevant Memories]\n"@ + hit_lines(hits)
    }
}

fn push_take(out: &mut Vec<char>, s: &str, n: usize)
    ensures
        final(out)@ == old(out)@ + take(s@, n as int),
{
    let v = chars_of(s);
    if v.len() <= n {
        append_chars(out, &v);
    } else {
        let w = crate::text::slice_vec(&v, 0, n);
        append_chars(out, &w);
    }
}

fn push_score(out: &mut Vec<char>, score: u128)
    ensures
        final(out)@ == old(out)@ + score_text(score as int),
{
    let c: u128 = if score > u128::MAX - 5000 {
        (score / 10000) + ((score % 10000 + 5000) / 10000)
    } else {
        (score + 5000) / 10000
    };
    proof {
        if score > u128::MAX - 5000 {
            let a = score as int / 10000;
            let b = score as int % 10000;
            vstd::arithmetic::div_mod::lemma_fundamental_div_mod(score as int, 10000);
            vstd::arithmetic::div_mod::lemma_hoist_over_denominator(b + 5000, a, 10000);
            assert(score as int + 5000 == (b + 5000) + a * 10000);
        }
    }
    assert(c as int == (score as int + 5000) / 10000);
    let whole = c / 100;
    let ghost start = out@;
    if whole <= u64::MAX as u128 {
        push_digits(out, whole as u64);
    } else {
        push_big_digits(out, whole);
    }
    out.push('.');
    out.push(digit_exec(((c % 100) / 10) as u64));
    out.push(digit_exec((c % 10) as u64));
    assert(out@ =~= start + score_text(score as int));
}

fn push_big_digits(out: &mut Vec<char>, n: u128)
    ensures
        final(out)@ == old(out)@ + digits(n as nat),
    decreases n,
{
    if n < 10 {
        out.push(digit_exec(n as u64));
        assert(digits(n as nat) =~= seq![digit_char(n as nat)]);
    } else {
        let ghost start = out@;
        push_big_digits(out, n / 10);
        out.push(digit_exec((n % 10) as u64));
        assert(out@ =~= start + digits(n as nat));
    }
}

fn digit_exec(d: u64) -> (c: char)
    requires
        d < 10,
    ensures
        c == digit_char(d as nat),
{
    let mut v: Vec<char> = Vec::new();
    push_digits(&mut v, d);
    assert(digits(d as nat) =~= seq![digit_char(d as nat)]);
    v[0]
}

/// Renders hits as the memory section of a worker prompt: input cut to 80
/// characters, output to 120, score with two decimals.
pub fn render_memory_context(hits: &Vec<MemoryHit>) -> (r: String)
    ensures
        r@ == memory_context_text(hits@),
{
    if hits.len() == 0 {
        return String::new();
    }
    let mut out: Vec<char> = Vec::new();
    append_str(&mut out, "\n[Relevant Memories]\n");
    let mut k: usize = 0;
    while k < hits.len()
        invariant
            1 <= hits@.len(),
            k <= hits@.len(),
            out@ == "\n[Relevant Memories]\n"@ + hit_lines(hits@.subrange(0, k as int)),
        decreases hits@.len() - k,
    {
        let ghost before = out@;
        let h = &hits[k];
        if k > 0 {
            append_str(&mut out, "\n");
        }
        append_str(&mut out, "- (score=");
        push_score(&mut out, h.score);
        append_str(&mut out, ") Q: ");
        push_take(&mut out, h.entry.input.text.as_str(), 80);
        append_str(&mut out, " / A: ");
        push_take(&mut out, h.entry.output.text.as_str(), 120);
        proof {
            let sub = hits@.subrange(0, k + 1);
            assert(sub.drop_last() =~= hits@.subrange(0, k as int));
            assert(sub.last() == *h);
            if k == 0 {
                assert(hit_lines(hits@.subrange(0, 0)) =~= Seq::<char>::empty());
                assert(out@ =~= before + hit_line(*h));
            } else {
                assert(out@ =~= before + "\n"@ + hit_line(*h));
            }
        }
        k = k + 1;
    }
    assert(hits@.subrange(0, k as int) =~= hits@);
    string_of(out.as_slice())
}

/// The memory section for `query` now: the best `limit` hits rendered, or an
/// empty string when there are none.
pub fn build_memory_context(index: &MemoryIndex, query: &str, limit: usize) -> (r: String)
    ensures
        exists|now_ms: i64, hits: Seq<MemoryHit>|
            recall_result(index.records@, query@, limit as nat, now_ms, hits) && r@
                == memory_context_text(hits),
{
    let now = crate::memory::clock_ms();
    let hits = search_top_k_at(index, query, limit, now);
    render_memory_context(&hits)
}

} // verus!
