//! The router's prompt: the worker profile catalog rendered as text, and the
//! arbitration prompt that embeds it. Capability scores are kept in hundredths.
use vstd::prelude::*;
use crate::text::{append_str, chars_of, digit_char, digits, push_digits, string_of};

verus! {

/// Capability scores of one worker, each in hundredths (`85` stands for 0.85).
pub struct ModelScore {
    pub code: u32,
    pub reasoning: u32,
    pub math: u32,
    pub general_qa: u32,
    pub planning: u32,
    pub multimodal: u32,
    pub speed: u32,
    pub cost: u32,
}

/// A named worker profile of the catalog.
pub struct ModelProfile {
    pub name: String,
    pub score: ModelScore,
}

/// A score in hundredths written as a decimal with no trailing zeros
/// (`85` is `0.85`, `70` is `0.7`, `300` is `3`).
pub open spec fn hundredths_text(h: u32) -> Seq<char> {
    let whole = digits((h / 100) as nat);
    let frac = h % 100;
    if frac == 0 {
        whole
    } else if frac % 10 == 0 {
        whole + seq!['.', digit_char((frac / 10) as nat)]
    } else {
        whole + seq!['.', digit_char((frac / 10) as nat), digit_char((frac % 10) as nat)]
    }
}

pub open spec fn score_line(label: Seq<char>, h: u32) -> Seq<char> {
    "  "@ + label + ": "@ + hundredths_text(h) + "\n"@
}

/// The block of one profile: its name, then one line per capability, then a blank line.
pub open spec fn profile_text(p: ModelProfile) -> Seq<char> {
    "- "@ + p.name@ + ":\n"@ + score_line("code"@, p.score.code) + score_line(
        "reasoning"@,
        p.score.reasoning,
    ) + score_line("math"@, p.score.math) + score_line("general_qa"@, p.score.general_qa)
        + score_line("planning"@, p.score.planning) + score_line("multimodal"@, p.score.multimodal)
        + score_line("speed"@, p.score.speed) + score_line("cost"@, p.score.cost) + "\n"@
}

pub open spec fn profiles_blocks(ps: Seq<ModelProfile>) -> Seq<char>
    decreases ps.len(),
{
    if ps.len() == 0 {
        Seq::empty()
    } else {
        profiles_blocks(ps.drop_last()) + profile_text(ps.last())
    }
}

/// The catalog as the router reads it; a placeholder line when it is empty.
pub open spec fn profiles_text(ps: Seq<ModelProfile>) -> Seq<char> {
    if ps.len() == 0 {
        "  (no model profiles loaded)"@
    } else {
        profiles_blocks(ps)
    }
}

fn push_hundredths(out: &mut Vec<char>, h: u32)
    ensures
        final(out)@ == old(out)@ + hundredths_text(h),
{
    let ghost start = out@;
    push_digits(out, (h / 100) as u64);
    let frac = h % 100;
    if frac != 0 {
        out.push('.');
        let mut d: Vec<char> = Vec::new();
        push_digits(&mut d, (frac / 10) as u64);
        assert(d@ =~= seq![digit_char((frac / 10) as nat)]);
        out.push(d[0]);
        if frac % 10 != 0 {
            let mut e: Vec<char> = Vec::new();
            push_digits(&mut e, (frac % 10) as u64);
            assert(e@ =~= seq![digit_char((frac % 10) as nat)]);
            out.push(e[0]);
        }
    }
    assert(out@ =~= start + hundredths_text(h));
}

fn push_score_line(out: &mut Vec<char>, label: &str, h: u32)
    ensures
        final(out)@ == old(out)@ + score_line(label@, h),
{
    let ghost start = out@;
    append_str(out, "  ");
    append_str(out, label);
    append_str(out, ": ");
    push_hundredths(out, h);
    append_str(out, "\n");
    assert(out@ =~= start + score_line(label@, h));
}

fn push_profile(out: &mut Vec<char>, p: &ModelProfile)
    ensures
        final(out)@ == old(out)@ + profile_text(*p),
{
    let ghost before = out@;
    append_str(out, "- ");
    append_str(out, p.name.as_str());
    append_str(out, ":\n");
    let ghost head = out@;
    push_score_line(out, "code", p.score.code);
    push_score_line(out, "reasoning", p.score.reasoning);
    push_score_line(out, "math", p.score.math);
    push_score_line(out, "general_qa", p.score.general_qa);
    push_score_line(out, "planning", p.score.planning);
    push_score_line(out, "multimodal", p.score.multimodal);
    push_score_line(out, "speed", p.score.speed);
    push_score_line(out, "cost", p.score.cost);
    append_str(out, "\n");
    assert(head =~= before + "- "@ + p.name@ + ":\n"@);
    assert(out@ =~= before + profile_text(*p));
}

/// Renders the worker catalog for the router's prompt.
pub fn build_profiles_prompt(profiles: &Vec<ModelProfile>) -> (r: String)
    ensures
        r@ == profiles_text(profiles@),
{
    if profiles.len() == 0 {
        return string_of(chars_of("  (no model profiles loaded)").as_slice());
    }
    let mut out: Vec<char> = Vec::new();
    let mut i: usize = 0;
    while i < profiles.len()
        invariant
            i <= profiles@.len(),
            out@ == profiles_blocks(profiles@.subrange(0, i as int)),
        decreases profiles@.len() - i,
    {
        let p = &profiles[i];
        push_profile(&mut out, p);
        proof {
            let sub = profiles@.subrange(0, i + 1);
            assert(sub.drop_last() =~= profiles@.subrange(0, i as int));
            assert(sub.last() == *p);
        }
        i = i + 1;
    }
    assert(profiles@.subrange(0, i as int) =~= profiles@);
    string_of(out.as_slice())
}

pub open spec fn dispatch_head() -> Seq<char> {
    "You are the Kernel of AxisOS (2026).\n    You must choose the best AI model for the current user request.\n\n    [Model Profiles]\n    "@
}

pub open spec fn dispatch_middle() -> Seq<char> {
    "\n\n    [Context]\n    "@
}

pub open spec fn dispatch_tail() -> Seq<char> {
    "\n\n    [Model Aliases]\n    - \"gpt\"    = OpenAI / gpt-5-nano (strong at coding, reasoning).\n    - \"gemini\" = Google / gemini-2.5-flash (strong at planning, multimodal).\n    - \"grok\"   = xAI / grok-4-1-fast-reasoning (strong at reasoning, math, news).\n    - \"llama\"  = Local meta/llama-3.1-70b-instruct.\n\n    [Your Task]\n\n    1. Infer the task_type of the user request.\n       Examples:\n       - \"code_edit\", \"code_explain\", \"planning\", \"casual_chat\",\n         \"news_query\", \"math_solve\", \"file_gen\", etc.\n\n    2. Using [Model Profiles], pick the best model alias (\"gpt\", \"gemini\", \"grok\", or \"llama\")\n       for this task_type. \n       - Prefer higher 'code' for coding tasks.\n       - Prefer higher 'planning' for roadmap / project design.\n       - Prefer higher 'news'/'reasoning' (here: reasoning + general_qa) for real-time info or analysis.\n       - Consider 'speed' and 'cost' if multiple models are similar.\n\n    3. Return STRICT JSON with the following shape:\n\n    {\n       \"target\": \"<gpt|gemini|grok|llama>\",\n       \"task_type\": \"<short_label>\",\n       \"reason\": \"<brief explanation in Japanese>\"\n    }"@
}

/// The arbitration prompt: instructions around the catalog and the recent context.
pub open spec fn dispatch_prompt_text(profiles_block: Seq<char>, history: Seq<char>) -> Seq<char> {
    dispatch_head() + profiles_block + dispatch_middle() + history + dispatch_tail()
}

pub fn build_dispatch_prompt(profiles_block: &str, history: &str) -> (r: String)
    ensures
        r@ == dispatch_prompt_text(profiles_block@, history@),
{
    let mut out: Vec<char> = Vec::new();
    append_str(&mut out, "You are the Kernel of AxisOS (2026).\n    You must choose the best AI model for the current user request.\n\n    [Model Profiles]\n    ");
    append_str(&mut out, profiles_block);
    append_str(&mut out, "\n\n    [Context]\n    ");
    append_str(&mut out, history);
    append_str(&mut out, "\n\n    [Model Aliases]\n    - \"gpt\"    = OpenAI / gpt-5-nano (strong at coding, reasoning).\n    - \"gemini\" = Google / gemini-2.5-flash (strong at planning, multimodal).\n    - \"grok\"   = xAI / grok-4-1-fast-reasoning (strong at reasoning, math, news).\n    - \"llama\"  = Local meta/llama-3.1-70b-instruct.\n\n    [Your Task]\n\n    1. Infer the task_type of the user request.\n       Examples:\n       - \"code_edit\", \"code_explain\", \"planning\", \"casual_chat\",\n         \"news_query\", \"math_solve\", \"file_gen\", etc.\n\n    2. Using [Model Profiles], pick the best model alias (\"gpt\", \"gemini\", \"grok\", or \"llama\")\n       for this task_type. \n       - Prefer higher 'code' for coding tasks.\n       - Prefer higher 'planning' for roadmap / project design.\n       - Prefer higher 'news'/'reasoning' (here: reasoning + general_qa) for real-time info or analysis.\n       - Consider 'speed' and 'cost' if multiple models are similar.\n\n    3. Return STRICT JSON with the following shape:\n\n    {\n       \"target\": \"<gpt|gemini|grok|llama>\",\n       \"task_type\": \"<short_label>\",\n       \"reason\": \"<brief explanation in Japanese>\"\n    }");
    string_of(out.as_slice())
}

} // verus!
