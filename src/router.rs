//! The commander: turns the arbitration model's reply into a routing decision.
use vstd::prelude::*;
use crate::text::{chars_of, has_sub, slice_vec, str_is, string_of, trim, trim_str};

verus! {

/// Where a request goes and why; never persisted on its own.
pub struct RoutingDecision {
    pub target: String,
    pub strategy: String,
    pub reason: String,
    pub task_type: String,
}

/// The four fields of a decision, as text.
pub struct DecisionView {
    pub target: Seq<char>,
    pub strategy: Seq<char>,
    pub reason: Seq<char>,
    pub task_type: Seq<char>,
}

impl View for RoutingDecision {
    type V = DecisionView;

    open spec fn view(&self) -> DecisionView {
        DecisionView {
            target: self.target@,
            strategy: self.strategy@,
            reason: self.reason@,
            task_type: self.task_type@,
        }
    }
}

/// The worker families a decision can name.
#[derive(PartialEq, Eq, Structural, Clone, Copy, Debug)]
pub enum Worker {
    Gpt,
    Gemini,
    Grok,
    Ensemble,
    Local,
}

/// What `serde_json` makes of `doc` as a JSON object when asked for the member
/// `key` as a string: `None` when `doc` is no JSON object or the member is not a
/// string, `Some(None)` when the member is absent.
pub uninterp spec fn json_string_member(doc: Seq<char>, key: Seq<char>) -> Option<Option<Seq<char>>>;

/// Relies on `serde_json::from_str` into a `serde_json::Map` and on
/// `Map::get`: decodes `doc` and reads one member as a string.
#[verifier::external_body]
fn string_member(doc: &str, key: &str) -> (r: Result<Option<String>, ()>)
    ensures
        match r {
            Err(_) => json_string_member(doc@, key@) is None,
            Ok(None) => json_string_member(doc@, key@) == Some(None::<Seq<char>>),
            Ok(Some(v)) => json_string_member(doc@, key@) == Some(Some(v@)),
        },
{
    match serde_json::from_str::<serde_json::Map<String, serde_json::Value>>(doc) {
        Err(_) => Err(()),
        Ok(m) => match m.get(key) {
            None => Ok(None),
            Some(serde_json::Value::String(v)) => Ok(Some(v.clone())),
            Some(_) => Err(()),
        },
    }
}

pub open spec fn fallback_view() -> DecisionView {
    DecisionView {
        target: "gpt"@,
        strategy: "fallback"@,
        reason: "parse failed"@,
        task_type: "unknown"@,
    }
}

/// Net count of `{` over `}` in `s`.
pub open spec fn brace_depth(s: Seq<char>) -> int
    decreases s.len(),
{
    if s.len() == 0 {
        0
    } else {
        brace_depth(s.drop_last()) + if s.last() == '{' {
            1int
        } else if s.last() == '}' {
            -1int
        } else {
            0int
        }
    }
}

/// `s[start..=end]` is a balanced `{...}` span that closes at `end` for the first time.
pub open spec fn closes_at(s: Seq<char>, start: int, end: int) -> bool {
    &&& 0 <= start < end < s.len()
    &&& s[start] == '{'
    &&& brace_depth(s.subrange(start, end + 1)) == 0
    &&& forall|k: int| start <= k < end ==> brace_depth(#[trigger] s.subrange(start, k + 1)) > 0
}

pub open spec fn first_open(s: Seq<char>, start: int) -> bool {
    0 <= start < s.len() && s[start] == '{' && forall|k: int| 0 <= k < start ==> s[k] != '{'
}

/// The first balanced `{...}` span of `s`, if there is one.
pub open spec fn json_span(s: Seq<char>) -> Option<Seq<char>> {
    if exists|st: int, en: int| first_open(s, st) && closes_at(s, st, en) {
        let (st, en) = choose|st: int, en: int| first_open(s, st) && closes_at(s, st, en);
        Some(s.subrange(st, en + 1))
    } else {
        None
    }
}

/// The decision a decoded span gives, defaults filled in; `None` when it does not decode.
pub open spec fn decoded(doc: Seq<char>) -> Option<DecisionView> {
    decision_of_members(
        json_string_member(doc, "target"@),
        json_string_member(doc, "strategy"@),
        json_string_member(doc, "reason"@),
        json_string_member(doc, "task_type"@),
    )
}

/// The decision for an arbitration reply (`None`: the call itself failed).
pub open spec fn routed(reply: Option<Seq<char>>) -> DecisionView {
    match reply {
        None => fallback_view(),
        Some(r) => match json_span(trim(r)) {
            None => fallback_view(),
            Some(span) => match decoded(span) {
                Some(d) => d,
                None => fallback_view(),
            },
        },
    }
}

pub fn default_strategy() -> (r: String)
    ensures
        r@ == "general"@,
{
    string_of(chars_of("general").as_slice())
}

pub fn default_reason() -> (r: String)
    ensures
        r@ == "Default decision"@,
{
    string_of(chars_of("Default decision").as_slice())
}

pub fn fallback_decision() -> (r: RoutingDecision)
    ensures
        r@ == fallback_view(),
{
    RoutingDecision {
        target: string_of(chars_of("gpt").as_slice()),
        strategy: string_of(chars_of("fallback").as_slice()),
        reason: string_of(chars_of("parse failed").as_slice()),
        task_type: string_of(chars_of("unknown").as_slice()),
    }
}

proof fn lemma_depth_push(s: Seq<char>, c: char)
    ensures
        brace_depth(s.push(c)) == brace_depth(s) + if c == '{' {
            1int
        } else if c == '}' {
            -1int
        } else {
            0int
        },
{
    assert(s.push(c).drop_last() =~= s);
}

/// Finds the first balanced `{...}` span of `s`.
pub fn extract_json_span(s: &Vec<char>) -> (r: Option<Vec<char>>)
    ensures
        r matches Some(v) ==> json_span(s@) == Some(v@),
        r is None ==> json_span(s@) is None,
{
    let n = s.len();
    let mut st: usize = 0;
    while st < n && s[st] != '{'
        invariant
            st <= n == s@.len(),
            forall|k: int| 0 <= k < st ==> s@[k] != '{',
        decreases n - st,
    {
        st = st + 1;
    }
    if st == n {
        assert(!exists|a: int, b: int| first_open(s@, a) && closes_at(s@, a, b));
        return None;
    }
    assert(first_open(s@, st as int));
    proof {
        lemma_depth_push(Seq::<char>::empty(), '{');
        assert(s@.subrange(st as int, st + 1) =~= Seq::<char>::empty().push('{'));
        assert(brace_depth(s@.subrange(st as int, st + 1)) == 1);
    }
    let mut depth: usize = 1;
    let mut e: usize = st + 1;
    while e < n
        invariant
            st < e <= n == s@.len(),
            first_open(s@, st as int),
            depth >= 1,
            depth <= e - st,
            brace_depth(s@.subrange(st as int, e as int)) == depth,
            forall|k: int| st <= k < e ==> brace_depth(#[trigger] s@.subrange(st as int, k + 1)) > 0,
        decreases n - e,
    {
        proof {
            lemma_depth_push(s@.subrange(st as int, e as int), s@[e as int]);
            assert(s@.subrange(st as int, e as int).push(s@[e as int]) =~= s@.subrange(st as int, e + 1));
        }
        if s[e] == '{' {
            depth = depth + 1;
        } else if s[e] == '}' {
            if depth == 1 {
                assert(closes_at(s@, st as int, e as int));
                let v = slice_vec(s, st, e + 1);
                proof {
                    let (a, b) = choose|a: int, b: int| first_open(s@, a) && closes_at(s@, a, b);
                    assert(a == st);
                    if b < e {
                        assert(brace_depth(s@.subrange(st as int, b + 1)) > 0);
                    }
                    if b > e {
                        assert(brace_depth(s@.subrange(st as int, e + 1)) > 0);
                    }
                }
                return Some(v);
            }
            depth = depth - 1;
        }
        e = e + 1;
    }
    proof {
        if exists|a: int, b: int| first_open(s@, a) && closes_at(s@, a, b) {
            let (a, b) = choose|a: int, b: int| first_open(s@, a) && closes_at(s@, a, b);
            assert(a == st);
            assert(brace_depth(s@.subrange(st as int, b + 1)) > 0);
        }
    }
    None
}

pub open spec fn member_view(m: Result<Option<String>, ()>) -> Option<Option<Seq<char>>> {
    match m {
        Err(_) => None,
        Ok(None) => Some(None),
        Ok(Some(v)) => Some(Some(v@)),
    }
}

/// The decision the four decoded members give, with `None` when the target is
/// missing or a member is not a string.
pub open spec fn decision_of_members(
    t: Option<Option<Seq<char>>>,
    st: Option<Option<Seq<char>>>,
    re: Option<Option<Seq<char>>>,
    tt: Option<Option<Seq<char>>>,
) -> Option<DecisionView> {
    if t matches Some(Some(_)) && st is Some && re is Some && tt is Some {
        Some(
            DecisionView {
                target: t->0->0,
                strategy: st->0.unwrap_or("general"@),
                reason: re->0.unwrap_or("Default decision"@),
                task_type: tt->0.unwrap_or(Seq::empty()),
            },
        )
    } else {
        None
    }
}

/// Builds a decision from its decoded members (`Err`: not decodable as a
/// string, `Ok(None)`: absent), filling in the documented defaults.
pub fn decision_from_members(
    t: Result<Option<String>, ()>,
    st: Result<Option<String>, ()>,
    re: Result<Option<String>, ()>,
    tt: Result<Option<String>, ()>,
) -> (r: Option<RoutingDecision>)
    ensures
        r matches Some(d) ==> decision_of_members(member_view(t), member_view(st), member_view(re), member_view(tt)) == Some(d@),
        r is None ==> decision_of_members(member_view(t), member_view(st), member_view(re), member_view(tt)) is None,
{
    match (t, st, re, tt) {
        (Ok(Some(target)), Ok(st), Ok(re), Ok(tt)) => {
            let strategy = match st {
                Some(v) => v,
                None => default_strategy(),
            };
            let reason = match re {
                Some(v) => v,
                None => default_reason(),
            };
            let task_type = match tt {
                Some(v) => v,
                None => String::new(),
            };
            Some(RoutingDecision { target, strategy, reason, task_type })
        },
        _ => None,
    }
}

/// Decodes a span into a decision, filling in the documented defaults.
pub fn decode_decision(doc: &str) -> (r: Option<RoutingDecision>)
    ensures
        r matches Some(d) ==> decoded(doc@) == Some(d@),
        r is None ==> decoded(doc@) is None,
{
    let t = string_member(doc, "target");
    let st = string_member(doc, "strategy");
    let re = string_member(doc, "reason");
    let tt = string_member(doc, "task_type");
    decision_from_members(t, st, re, tt)
}

/// Turns the arbitration reply into a decision; the fallback stands in for a
/// failed call, a reply with no balanced `{...}` span, and a span that does not
/// decode.
pub fn decide_from_reply(reply: &Result<String, String>) -> (r: RoutingDecision)
    ensures
        r@ == routed(
            match reply {
                Ok(s) => Some(s@),
                Err(_) => None,
            },
        ),
{
    match reply {
        Err(_) => fallback_decision(),
        Ok(raw) => {
            let t = trim_str(raw.as_str());
            match extract_json_span(&t) {
                None => fallback_decision(),
                Some(span) => {
                    let doc = string_of(span.as_slice());
                    match decode_decision(doc.as_str()) {
                        Some(d) => d,
                        None => fallback_decision(),
                    }
                },
            }
        },
    }
}

/// An arbitration reply with no decodable span always yields the fallback.
pub proof fn lemma_malformed_reply_falls_back(reply: Seq<char>)
    requires
        json_span(trim(reply)) is None || decoded(json_span(trim(reply))->0) is None,
    ensures
        routed(Some(reply)) == fallback_view(),
{
}

/// Which worker family a target names; anything unknown goes to the local worker.
pub open spec fn worker_of(target: Seq<char>) -> Worker {
    if target == "gpt"@ {
        Worker::Gpt
    } else if target == "gemini"@ {
        Worker::Gemini
    } else if target == "grok"@ {
        Worker::Grok
    } else if target == "ensemble"@ {
        Worker::Ensemble
    } else {
        Worker::Local
    }
}

pub fn worker_for(target: &str) -> (r: Worker)
    ensures
        r == worker_of(target@),
{
    if str_is(target, "gpt") {
        Worker::Gpt
    } else if str_is(target, "gemini") {
        Worker::Gemini
    } else if str_is(target, "grok") {
        Worker::Grok
    } else if str_is(target, "ensemble") {
        Worker::Ensemble
    } else {
        Worker::Local
    }
}

pub open spec fn ok_or_empty(r: Result<Seq<char>, Seq<char>>) -> Seq<char> {
    match r {
        Ok(s) => s,
        Err(_) => Seq::empty(),
    }
}

pub open spec fn result_view(r: &Result<String, String>) -> Result<Seq<char>, Seq<char>> {
    match r {
        Ok(s) => Ok(s@),
        Err(e) => Err(e@),
    }
}

/// The ensemble reply: both labeled answers, a failed one as empty text.
pub open spec fn ensemble_text(gpt: Seq<char>, gemini: Seq<char>) -> Seq<char> {
    "GPT: "@ + gpt + "\nGemini: "@ + gemini
}

fn push_result_text(out: &mut Vec<char>, r: &Result<String, String>)
    ensures
        final(out)@ == old(out)@ + ok_or_empty(result_view(r)),
{
    match r {
        Ok(s) => {
            let v = chars_of(s.as_str());
            crate::text::append_chars(out, &v);
        },
        Err(_) => {
            assert(old(out)@ + Seq::<char>::empty() =~= old(out)@);
        },
    }
}

/// Joins the two answers of the ensemble target under their labels.
pub fn ensemble_reply(gpt: &Result<String, String>, gemini: &Result<String, String>) -> (r: String)
    ensures
        r@ == ensemble_text(ok_or_empty(result_view(gpt)), ok_or_empty(result_view(gemini))),
        has_sub(r@, "GPT: "@ + ok_or_empty(result_view(gpt))),
        has_sub(r@, "Gemini: "@ + ok_or_empty(result_view(gemini))),
{
    let mut out: Vec<char> = Vec::new();
    crate::text::append_str(&mut out, "GPT: ");
    push_result_text(&mut out, gpt);
    crate::text::append_str(&mut out, "\nGemini: ");
    push_result_text(&mut out, gemini);
    let ghost a = ok_or_empty(result_view(gpt));
    let ghost b = ok_or_empty(result_view(gemini));
    proof {
        reveal_strlit("GPT: ");
        reveal_strlit("\nGemini: ");
        reveal_strlit("Gemini: ");
        assert("\nGemini: "@ =~= seq!['\n'] + "Gemini: "@);
        let t = ensemble_text(a, b);
        assert(out@ =~= t);
        let first = "GPT: "@ + a;
        assert(t.subrange(0, first.len() as int) =~= first);
        assert(crate::text::occurs_at(t, first, 0));
        let second = "Gemini: "@ + b;
        let i: int = ("GPT: "@ + a).len() as int + 1;
        assert(t.subrange(i, i + second.len()) =~= second);
        assert(crate::text::occurs_at(t, second, i as int));
    }
    string_of(out.as_slice())
}

} // verus!
