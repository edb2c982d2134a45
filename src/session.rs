//! The session assembler: the flat interaction log's records, the recent-turn
//! context, and the prompts built for the router and the worker.
use vstd::prelude::*;
use crate::text::{append_str, chars_of, decimal, is_ws, is_ws_exec, push_decimal, push_digits, same_chars, string_of};

verus! {

/// One word of a user's input, as logged.
pub struct AxisToken {
    pub id: String,
    pub text: String,
    pub timestamp: i64,
    pub tags: Vec<String>,
}

/// One completed exchange, as the flat log keeps it.
pub struct InteractionLog {
    pub id: String,
    pub session_id: String,
    pub timestamp: i64,
    pub user_tokens: Vec<AxisToken>,
    pub ai_response: String,
    pub provider_used: String,
}

/// Words found so far and the word being read.
pub open spec fn words_scan(s: Seq<char>) -> (Seq<Seq<char>>, Seq<char>)
    decreases s.len(),
{
    if s.len() == 0 {
        (Seq::empty(), Seq::empty())
    } else {
        let (ws, cur) = words_scan(s.drop_last());
        if is_ws(s.last()) {
            (if cur.len() > 0 {
                ws.push(cur)
            } else {
                ws
            }, Seq::empty())
        } else {
            (ws, cur.push(s.last()))
        }
    }
}

/// The whitespace-separated words of `s`, as `str::split_whitespace` gives them.
pub open spec fn words_of(s: Seq<char>) -> Seq<Seq<char>> {
    let (ws, cur) = words_scan(s);
    if cur.len() > 0 {
        ws.push(cur)
    } else {
        ws
    }
}

/// The token of the `i`-th word of an input logged at `now`.
pub open spec fn token_ok(t: &AxisToken, word: Seq<char>, now: i64, i: int) -> bool {
    &&& t.id@ == decimal(now as int) + "-"@ + decimal(i)
    &&& t.text@ == word
    &&& t.timestamp == now
    &&& t.tags@.len() == 0
}

/// Splits the user's input into logged word tokens.
pub fn input_tokens(input: &str, now: i64) -> (r: Vec<AxisToken>)
    ensures
        r@.len() == words_of(input@).len(),
        forall|i: int| 0 <= i < r@.len() ==> token_ok(&#[trigger] r@[i], words_of(input@)[i], now, i),
{
    let v = chars_of(input);
    let mut words: Vec<Vec<char>> = Vec::new();
    let mut cur: Vec<char> = Vec::new();
    let mut i: usize = 0;
    while i < v.len()
        invariant
            i <= v@.len(),
            crate::tokenize::views(words@) == words_scan(v@.subrange(0, i as int)).0,
            cur@ == words_scan(v@.subrange(0, i as int)).1,
        decreases v@.len() - i,
    {
        let c = v[i];
        proof {
            assert(v@.subrange(0, i + 1).drop_last() =~= v@.subrange(0, i as int));
        }
        if is_ws_exec(c) {
            if cur.len() > 0 {
                let ghost before = words@;
                words.push(cur);
                assert(crate::tokenize::views(words@) =~= crate::tokenize::views(before).push(
                    words_scan(v@.subrange(0, i as int)).1,
                ));
            }
            cur = Vec::new();
        } else {
            cur.push(c);
        }
        i = i + 1;
    }
    assert(v@.subrange(0, v@.len() as int) =~= v@);
    if cur.len() > 0 {
        let ghost before = words@;
        words.push(cur);
        assert(crate::tokenize::views(words@) =~= crate::tokenize::views(before).push(
            words_scan(v@).1,
        ));
    }
    let ghost ws = crate::tokenize::views(words@);
    assert(ws == words_of(input@));
    let mut out: Vec<AxisToken> = Vec::new();
    let mut k: usize = 0;
    while k < words.len()
        invariant
            k <= words@.len(),
            ws == crate::tokenize::views(words@),
            ws == words_of(input@),
            out@.len() == k,
            forall|j: int| 0 <= j < k ==> token_ok(&#[trigger] out@[j], ws[j], now, j),
        decreases words@.len() - k,
    {
        let mut id: Vec<char> = Vec::new();
        push_decimal(&mut id, now);
        append_str(&mut id, "-");
        push_digits(&mut id, k as u64);
        let t = AxisToken {
            id: string_of(id.as_slice()),
            text: string_of(words[k].as_slice()),
            timestamp: now,
            tags: Vec::new(),
        };
        assert(ws[k as int] == words@[k as int]@);
        out.push(t);
        k = k + 1;
    }
    out
}

/// Positions of the session's logs among the first `n`, in order.
pub open spec fn session_positions(logs: Seq<InteractionLog>, sid: Seq<char>, n: int) -> Seq<int>
    decreases n,
{
    if n <= 0 {
        Seq::empty()
    } else if logs[n - 1].session_id@ == sid {
        session_positions(logs, sid, n - 1).push(n - 1)
    } else {
        session_positions(logs, sid, n - 1)
    }
}

/// The last `n` items of `s` (all of them when there are fewer).
pub open spec fn last_n(s: Seq<int>, n: int) -> Seq<int> {
    if s.len() <= n {
        s
    } else {
        s.subrange(s.len() - n, s.len() as int)
    }
}

pub open spec fn joined_words(ts: Seq<AxisToken>) -> Seq<char>
    decreases ts.len(),
{
    if ts.len() == 0 {
        Seq::empty()
    } else if ts.len() == 1 {
        ts[0].text@
    } else {
        joined_words(ts.drop_last()) + " "@ + ts.last().text@
    }
}

pub open spec fn turn_text(l: InteractionLog) -> Seq<char> {
    "User: "@ + joined_words(l.user_tokens@) + "\nAxis: "@ + l.ai_response@
}

pub open spec fn turns_text(logs: Seq<InteractionLog>, ps: Seq<int>) -> Seq<char>
    decreases ps.len(),
{
    if ps.len() == 0 {
        Seq::empty()
    } else if ps.len() == 1 {
        turn_text(logs[ps[0]])
    } else {
        turns_text(logs, ps.drop_last()) + "\n---\n"@ + turn_text(logs[ps.last()])
    }
}

/// The recent-turn context: the session's last five turns, oldest first, or `None`.
pub open spec fn history_of(logs: Seq<InteractionLog>, sid: Seq<char>) -> Seq<char> {
    let recent = last_n(session_positions(logs, sid, logs.len() as int), 5);
    if recent.len() == 0 {
        "None"@
    } else {
        turns_text(logs, recent)
    }
}

fn push_words(out: &mut Vec<char>, ts: &Vec<AxisToken>)
    ensures
        final(out)@ == old(out)@ + joined_words(ts@),
{
    let ghost start = out@;
    let mut i: usize = 0;
    while i < ts.len()
        invariant
            i <= ts@.len(),
            out@ == start + joined_words(ts@.subrange(0, i as int)),
        decreases ts@.len() - i,
    {
        proof {
            let sub = ts@.subrange(0, i + 1);
            assert(sub.drop_last() =~= ts@.subrange(0, i as int));
            if i == 0 {
                assert(joined_words(ts@.subrange(0, 0)) =~= Seq::<char>::empty());
            }
        }
        if i > 0 {
            append_str(out, " ");
        }
        append_str(out, ts[i].text.as_str());
        i = i + 1;
        assert(out@ =~= start + joined_words(ts@.subrange(0, i as int)));
    }
    assert(ts@.subrange(0, i as int) =~= ts@);
}

/// The recent-turn context for a session.
pub fn history_text(logs: &Vec<InteractionLog>, session_id: &str) -> (r: String)
    ensures
        r@ == history_of(logs@, session_id@),
{
    let sid = chars_of(session_id);
    let mut ps: Vec<usize> = Vec::new();
    let mut i: usize = 0;
    while i < logs.len()
        invariant
            i <= logs@.len(),
            sid@ == session_id@,
            ps@.map_values(|p: usize| p as int) == session_positions(logs@, session_id@, i as int),
            forall|k: int| 0 <= k < ps@.len() ==> ps@[k] < i,
        decreases logs@.len() - i,
    {
        if same_chars(&chars_of(logs[i].session_id.as_str()), &sid) {
            let ghost before = ps@;
            ps.push(i);
            assert(ps@.map_values(|p: usize| p as int) =~= before.map_values(|p: usize| p as int).push(i as int));
        }
        i = i + 1;
    }
    let ghost all = ps@.map_values(|p: usize| p as int);
    let from: usize = if ps.len() > 5 {
        ps.len() - 5
    } else {
        0
    };
    let ghost recent = last_n(all, 5);
    assert(recent =~= all.subrange(from as int, all.len() as int));
    if from == ps.len() {
        return string_of(chars_of("None").as_slice());
    }
    let mut out: Vec<char> = Vec::new();
    let mut k: usize = from;
    while k < ps.len()
        invariant
            from <= k <= ps@.len(),
            from < ps@.len(),
            all == ps@.map_values(|p: usize| p as int),
            forall|j: int| 0 <= j < ps@.len() ==> ps@[j] < logs@.len(),
            out@ == turns_text(logs@, all.subrange(from as int, k as int)),
        decreases ps@.len() - k,
    {
        let l = &logs[ps[k]];
        let ghost before = out@;
        if k > from {
            append_str(&mut out, "\n---\n");
        }
        append_str(&mut out, "User: ");
        push_words(&mut out, &l.user_tokens);
        append_str(&mut out, "\nAxis: ");
        append_str(&mut out, l.ai_response.as_str());
        proof {
            let sub = all.subrange(from as int, k + 1);
            assert(sub.drop_last() =~= all.subrange(from as int, k as int));
            assert(sub.last() == ps@[k as int] as int);
            if k == from {
                assert(sub.len() == 1);
                assert(out@ =~= turn_text(logs@[sub[0]]));
            } else {
                assert(out@ =~= before + "\n---\n"@ + turn_text(logs@[sub.last()]));
            }
        }
        k = k + 1;
    }
    string_of(out.as_slice())
}

/// The worker's input: context, recalled memories and the request.
pub open spec fn task_input_text(history: Seq<char>, memory: Seq<char>, input: Seq<char>) -> Seq<char> {
    "Context:\n"@ + history + "\n"@ + memory + "\n\nUser Request: "@ + input
}

pub fn task_input(history: &str, memory: &str, input: &str) -> (r: String)
    ensures
        r@ == task_input_text(history@, memory@, input@),
{
    let mut out: Vec<char> = Vec::new();
    append_str(&mut out, "Context:\n");
    append_str(&mut out, history);
    append_str(&mut out, "\n");
    append_str(&mut out, memory);
    append_str(&mut out, "\n\nUser Request: ");
    append_str(&mut out, input);
    string_of(out.as_slice())
}

/// The trace of who answered, as the log keeps it.
pub fn provider_trace(target: &str) -> (r: String)
    ensures
        r@ == "Llama -> "@ + target@,
{
    let mut out: Vec<char> = chars_of("Llama -> ");
    append_str(&mut out, target);
    string_of(out.as_slice())
}

/// The logs that remain when a session is deleted: all others, in order.
pub open spec fn others(logs: Seq<InteractionLog>, sid: Seq<char>) -> Seq<InteractionLog>
    decreases logs.len(),
{
    if logs.len() == 0 {
        Seq::empty()
    } else if logs.last().session_id@ == sid {
        others(logs.drop_last(), sid)
    } else {
        others(logs.drop_last(), sid).push(logs.last())
    }
}

/// Deletes every log of a session; the rest keep their order.
pub fn delete_session_logs(logs: &mut Vec<InteractionLog>, session_id: &str)
    ensures
        final(logs)@ == others(old(logs)@, session_id@),
{
    let ghost orig = logs@;
    let sid = chars_of(session_id);
    let n = logs.len();
    let mut i: usize = 0;
    let mut j: usize = 0;
    while j < n
        invariant
            n == orig.len(),
            i <= j <= orig.len(),
            sid@ == session_id@,
            i as int == others(orig.subrange(0, j as int), session_id@).len(),
            logs@ == others(orig.subrange(0, j as int), session_id@) + orig.subrange(j as int, orig.len() as int),
        decreases n - j,
    {
        proof {
            assert(orig.subrange(0, j + 1).drop_last() =~= orig.subrange(0, j as int));
            assert(logs@[i as int] == orig[j as int]);
        }
        if same_chars(&chars_of(logs[i].session_id.as_str()), &sid) {
            let ghost before = logs@;
            logs.remove(i);
            assert(logs@ =~= others(orig.subrange(0, j + 1), session_id@) + orig.subrange(j + 1, orig.len() as int));
        } else {
            assert(logs@ =~= others(orig.subrange(0, j + 1), session_id@) + orig.subrange(j + 1, orig.len() as int));
            i = i + 1;
        }
        j = j + 1;
    }
    assert(orig.subrange(0, j as int) =~= orig);
    assert(logs@ =~= others(orig, session_id@));
}

} // verus!
