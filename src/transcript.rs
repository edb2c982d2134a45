//! The per-request transcript of action side effects, and the final answer
//! that is made from it.
use vstd::prelude::*;
use crate::router::{worker_of, Worker};
use crate::text::{append_chars, append_str, chars_of, decimal, push_decimal, string_of};

verus! {

/// One web search hit.
pub struct SearchResult {
    pub title: String,
    pub link: String,
    pub snippet: String,
}

/// What a search page shows for one result block: the title anchor's text
/// and `href` when the block has an anchor, and the snippet's text if any.
pub struct ScrapedResult {
    pub anchor_text: Option<String>,
    pub anchor_href: Option<String>,
    pub snippet: Option<String>,
}

pub struct ResultView {
    pub title: Seq<char>,
    pub link: Seq<char>,
    pub snippet: Seq<char>,
}

pub open spec fn result_view(r: SearchResult) -> ResultView {
    ResultView { title: r.title@, link: r.link@, snippet: r.snippet@ }
}

/// The results kept from a page: blocks with a non-empty title, an absent
/// link read as empty, an absent snippet as `No description`, at most five.
pub open spec fn collected(raw: Seq<ScrapedResult>) -> Seq<ResultView>
    decreases raw.len(),
{
    if raw.len() == 0 {
        Seq::empty()
    } else {
        let prev = collected(raw.drop_last());
        let b = raw.last();
        if prev.len() >= 5 {
            prev
        } else if b.anchor_text is Some && b.anchor_text->0@.len() > 0 {
            prev.push(
                ResultView {
                    title: b.anchor_text->0@,
                    link: match b.anchor_href {
                        Some(h) => h@,
                        None => Seq::empty(),
                    },
                    snippet: match b.snippet {
                        Some(n) => n@,
                        None => "No description"@,
                    },
                },
            )
        } else {
            prev
        }
    }
}

/// Keeps the usable results of a scraped page, in page order.
pub fn collect_search_results(raw: &Vec<ScrapedResult>) -> (r: Vec<SearchResult>)
    ensures
        r@.map_values(|x: SearchResult| result_view(x)) == collected(raw@),
{
    let mut out: Vec<SearchResult> = Vec::new();
    let mut i: usize = 0;
    while i < raw.len()
        invariant
            i <= raw@.len(),
            out@.map_values(|x: SearchResult| result_view(x)) == collected(raw@.subrange(0, i as int)),
        decreases raw@.len() - i,
    {
        let b = &raw[i];
        proof {
            assert(raw@.subrange(0, i + 1).drop_last() =~= raw@.subrange(0, i as int));
            assert(raw@.subrange(0, i + 1).last() == *b);
        }
        if out.len() < 5 {
            match &b.anchor_text {
                Some(t) => {
                    if t.as_str().unicode_len() > 0 {
                        let link = match &b.anchor_href {
                            Some(h) => h.clone(),
                            None => String::new(),
                        };
                        let snippet = match &b.snippet {
                            Some(n) => n.clone(),
                            None => string_of(chars_of("No description").as_slice()),
                        };
                        let x = SearchResult { title: t.clone(), link, snippet };
                        let ghost before = out@;
                        out.push(x);
                        assert(out@.map_values(|x: SearchResult| result_view(x)) =~= before.map_values(
                            |x: SearchResult| result_view(x),
                        ).push(result_view(x)));
                    }
                },
                None => {},
            }
        }
        i = i + 1;
    }
    assert(raw@.subrange(0, i as int) =~= raw@);
    out
}

/// The log of what the actions of one request did.
pub struct Transcript {
    log: Vec<char>,
}

impl View for Transcript {
    type V = Seq<char>;

    closed spec fn view(&self) -> Seq<char> {
        self.log@
    }
}

/// What a vision description contributes: the description, or the agent's error.
pub open spec fn vision_text(r: &Result<String, String>) -> Seq<char> {
    match r {
        Ok(d) => d@,
        Err(e) => "[Vision Agent Error] "@ + e@,
    }
}

/// The note of a `LOOK`: the capture's failure, or the screen's description.
pub open spec fn look_note(outcome: &Result<Result<String, String>, String>) -> Seq<char> {
    match outcome {
        Err(e) => "[System] Screen capture failed: "@ + e@ + "\n"@,
        Ok(v) => "[System] Analyzed screen.\n"@ + "\n[Vision Report]\n"@ + vision_text(v) + "\n"@,
    }
}

/// The numbered lines for the first `n` application names.
pub open spec fn app_lines(apps: Seq<String>, n: int) -> Seq<char>
    decreases n,
{
    if n <= 0 {
        Seq::empty()
    } else {
        app_lines(apps, n - 1) + decimal(n) + ". "@ + apps[n - 1]@ + "\n"@
    }
}

/// The note of an `APPS`: at most the first ten names, numbered from one.
pub open spec fn apps_note(apps: Seq<String>) -> Seq<char> {
    "[System] Running Apps:\n"@ + app_lines(apps, if apps.len() < 10 {
        apps.len() as int
    } else {
        10
    })
}

pub open spec fn result_lines(rs: Seq<SearchResult>) -> Seq<char>
    decreases rs.len(),
{
    if rs.len() == 0 {
        Seq::empty()
    } else {
        result_lines(rs.drop_last()) + "- "@ + rs.last().title@ + " ("@ + rs.last().link@ + ")\n"@
    }
}

/// The primary search came back with results, so no fallback is asked.
pub open spec fn primary_found(primary: &Result<Vec<SearchResult>, String>) -> bool {
    primary matches Ok(v) && v@.len() > 0
}

/// The note of a `SEARCH`: the primary provider's results when it found any,
/// else the fallback's, else a "no results" line; a fallback error is noted too.
pub open spec fn search_note(
    primary: &Result<Vec<SearchResult>, String>,
    fallback: &Option<Result<Vec<SearchResult>, String>>,
) -> Seq<char> {
    if primary_found(primary) {
        "[Search Results: Grokipedia]\n"@ + result_lines(primary->Ok_0@)
    } else {
        let error_line = match fallback {
            Some(Err(e)) => "Search Error (DDG): "@ + e@ + "\n"@,
            _ => Seq::empty(),
        };
        let found = match fallback {
            Some(Ok(v)) => v@,
            _ => Seq::empty(),
        };
        error_line + if found.len() > 0 {
            "[Search Results: DuckDuckGo]\n"@ + result_lines(found)
        } else {
            "No search results found from both sources.\n"@
        }
    }
}

/// The note of a `SAVE`: the resolved path on success, the I/O error otherwise.
pub open spec fn save_note(outcome: &Result<String, String>) -> Seq<char> {
    match outcome {
        Ok(path) => "[System] File saved successfully: "@ + path@ + "\n"@,
        Err(e) => "[System] File Save Error: "@ + e@ + "\n"@,
    }
}

pub open spec fn invalid_save_note() -> Seq<char> {
    "[System] Save Error: Invalid format. Use 'SAVE: filename ||| content'\n"@
}

fn push_text(out: &mut Vec<char>, s: &String)
    ensures
        final(out)@ == old(out)@ + s@,
{
    append_str(out, s.as_str());
}

/// Whether the secondary search provider must be asked.
pub fn search_needs_fallback(primary: &Result<Vec<SearchResult>, String>) -> (r: bool)
    ensures
        r == !primary_found(primary),
{
    match primary {
        Ok(v) => v.len() == 0,
        Err(_) => true,
    }
}

fn push_results(out: &mut Vec<char>, rs: &Vec<SearchResult>)
    ensures
        final(out)@ == old(out)@ + result_lines(rs@),
{
    let ghost start = out@;
    let mut i: usize = 0;
    while i < rs.len()
        invariant
            i <= rs@.len(),
            out@ == start + result_lines(rs@.subrange(0, i as int)),
        decreases rs@.len() - i,
    {
        let r = &rs[i];
        append_str(out, "- ");
        push_text(out, &r.title);
        append_str(out, " (");
        push_text(out, &r.link);
        append_str(out, ")\n");
        proof {
            let sub = rs@.subrange(0, i + 1);
            assert(sub.drop_last() =~= rs@.subrange(0, i as int));
            assert(sub.last() == *r);
        }
        i = i + 1;
        assert(out@ =~= start + result_lines(rs@.subrange(0, i as int)));
    }
    assert(rs@.subrange(0, i as int) =~= rs@);
}

impl Transcript {
    pub fn new() -> (r: Transcript)
        ensures
            r@ == Seq::<char>::empty(),
    {
        Transcript { log: Vec::new() }
    }

    pub fn is_empty(&self) -> (r: bool)
        ensures
            r == (self@.len() == 0),
    {
        self.log.len() == 0
    }

    pub fn text(&self) -> (r: String)
        ensures
            r@ == self@,
    {
        string_of(self.log.as_slice())
    }

    pub fn note_look(&mut self, outcome: &Result<Result<String, String>, String>)
        ensures
            final(self)@ == old(self)@ + look_note(outcome),
    {
        let ghost start = self.log@;
        match outcome {
            Err(e) => {
                append_str(&mut self.log, "[System] Screen capture failed: ");
                push_text(&mut self.log, e);
                append_str(&mut self.log, "\n");
            },
            Ok(v) => {
                append_str(&mut self.log, "[System] Analyzed screen.\n");
                append_str(&mut self.log, "\n[Vision Report]\n");
                match v {
                    Ok(d) => push_text(&mut self.log, d),
                    Err(e) => {
                        append_str(&mut self.log, "[Vision Agent Error] ");
                        push_text(&mut self.log, e);
                    },
                }
                append_str(&mut self.log, "\n");
            },
        }
        assert(self.log@ =~= start + look_note(outcome));
    }

    pub fn note_apps(&mut self, apps: &Vec<String>)
        ensures
            final(self)@ == old(self)@ + apps_note(apps@),
    {
        let ghost start = self.log@;
        append_str(&mut self.log, "[System] Running Apps:\n");
        let n: usize = if apps.len() < 10 {
            apps.len()
        } else {
            10
        };
        let mut i: usize = 0;
        while i < n
            invariant
                i <= n <= apps@.len(),
                n <= 10,
                self.log@ == start + "[System] Running Apps:\n"@ + app_lines(apps@, i as int),
            decreases n - i,
        {
            push_decimal(&mut self.log, (i + 1) as i64);
            append_str(&mut self.log, ". ");
            push_text(&mut self.log, &apps[i]);
            append_str(&mut self.log, "\n");
            i = i + 1;
            assert(self.log@ =~= start + "[System] Running Apps:\n"@ + app_lines(apps@, i as int));
        }
        assert(self.log@ =~= start + apps_note(apps@));
    }

    pub fn note_search(
        &mut self,
        primary: &Result<Vec<SearchResult>, String>,
        fallback: &Option<Result<Vec<SearchResult>, String>>,
    )
        ensures
            final(self)@ == old(self)@ + search_note(primary, fallback),
    {
        let ghost start = self.log@;
        if !search_needs_fallback(primary) {
            append_str(&mut self.log, "[Search Results: Grokipedia]\n");
            match primary {
                Ok(v) => push_results(&mut self.log, v),
                Err(_) => {},
            }
            assert(self.log@ =~= start + search_note(primary, fallback));
            return;
        }
        match fallback {
            Some(Err(e)) => {
                append_str(&mut self.log, "Search Error (DDG): ");
                push_text(&mut self.log, e);
                append_str(&mut self.log, "\n");
            },
            _ => {},
        }
        let ghost mid = self.log@;
        let found = match fallback {
            Some(Ok(v)) => v.len() > 0,
            _ => false,
        };
        if found {
            append_str(&mut self.log, "[Search Results: DuckDuckGo]\n");
            match fallback {
                Some(Ok(v)) => push_results(&mut self.log, v),
                _ => {},
            }
        } else {
            append_str(&mut self.log, "No search results found from both sources.\n");
        }
        assert(self.log@ =~= start + search_note(primary, fallback));
    }

    pub fn note_save(&mut self, outcome: &Result<String, String>)
        ensures
            final(self)@ == old(self)@ + save_note(outcome),
    {
        let ghost start = self.log@;
        match outcome {
            Ok(p) => {
                append_str(&mut self.log, "[System] File saved successfully: ");
                push_text(&mut self.log, p);
            },
            Err(e) => {
                append_str(&mut self.log, "[System] File Save Error: ");
                push_text(&mut self.log, e);
            },
        }
        append_str(&mut self.log, "\n");
        assert(self.log@ =~= start + save_note(outcome));
    }

    pub fn note_invalid_save(&mut self)
        ensures
            final(self)@ == old(self)@ + invalid_save_note(),
    {
        append_str(&mut self.log, "[System] Save Error: Invalid format. Use 'SAVE: filename ||| content'\n");
    }

    /// Notes the result line of a launch or typing capability.
    pub fn note_result(&mut self, result: &str)
        ensures
            final(self)@ == old(self)@ + result@ + "\n"@,
    {
        append_str(&mut self.log, result);
        append_str(&mut self.log, "\n");
    }

    /// The prompt that asks a worker to report on the transcript.
    pub fn report_prompt(&self) -> (r: String)
        ensures
            r@ == "Report the result based on log:\n"@ + self@,
    {
        let mut out: Vec<char> = Vec::new();
        append_str(&mut out, "Report the result based on log:\n");
        append_chars(&mut out, &self.log);
        string_of(out.as_slice())
    }
}

/// The reasoning-oriented target reports wittily; every other one briefly.
pub open spec fn report_is_witty(target: Seq<char>) -> bool {
    worker_of(target) == Worker::Grok
}

pub fn report_instruction(target: &str) -> (r: String)
    ensures
        r@ == (if report_is_witty(target@) {
            "Report witty."@
        } else {
            "Report briefly."@
        }),
{
    if crate::router::worker_for(target) == Worker::Grok {
        string_of(chars_of("Report witty.").as_slice())
    } else {
        string_of(chars_of("Report briefly.").as_slice())
    }
}

/// The user-facing answer: the sanitized reply when no action left a note,
/// else the report, or `Done.` when the report call failed or was not made.
pub open spec fn final_text(
    sanitized: Seq<char>,
    transcript: Seq<char>,
    report: Option<Result<Seq<char>, Seq<char>>>,
) -> Seq<char> {
    if transcript.len() == 0 {
        sanitized
    } else {
        match report {
            Some(Ok(t)) => t,
            _ => "Done."@,
        }
    }
}

pub open spec fn report_view(r: &Option<Result<String, String>>) -> Option<Result<Seq<char>, Seq<char>>> {
    match r {
        Some(Ok(t)) => Some(Ok(t@)),
        Some(Err(e)) => Some(Err(e@)),
        None => None,
    }
}

pub fn final_answer(sanitized: &str, transcript: &Transcript, report: &Option<Result<String, String>>) -> (r: String)
    ensures
        r@ == final_text(sanitized@, transcript@, report_view(report)),
{
    if transcript.is_empty() {
        return string_of(chars_of(sanitized).as_slice());
    }
    match report {
        Some(Ok(t)) => t.clone(),
        _ => string_of(chars_of("Done.").as_slice()),
    }
}

/// The worker's reply, or `Error: ` and the failure when the call failed.
pub fn worker_reply_text(reply: &Result<String, String>) -> (r: String)
    ensures
        r@ == match reply {
            Ok(s) => s@,
            Err(e) => "Error: "@ + e@,
        },
{
    match reply {
        Ok(s) => s.clone(),
        Err(e) => {
            let mut out = chars_of("Error: ");
            push_text(&mut out, e);
            string_of(out.as_slice())
        },
    }
}

} // verus!
