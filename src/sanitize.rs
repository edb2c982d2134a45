//! Removes meta-commentary that workers sometimes leak into their replies.
use vstd::prelude::*;
use crate::text::{after_last, occurs_at, chars_of, find_last, has_sub, has_sub_exec, matches_at, slice_vec, starts_with, string_of, trim, trim_chars, trim_str};

verus! {

pub open spec fn label_marker() -> Seq<char> {
    "CONVERSATION:"@
}

pub open spec fn natural_marker() -> Seq<char> {
    "Here's a natural response:"@
}

pub open spec fn blank_line() -> Seq<char> {
    "\n\n"@
}

/// A leading `CONVERSATION:` label is dropped.
pub open spec fn strip_label(t: Seq<char>) -> Seq<char> {
    if starts_with(t, label_marker()) {
        trim(t.subrange(label_marker().len() as int, t.len() as int))
    } else {
        t
    }
}

/// Only what follows the last `Here's a natural response:` is kept.
pub open spec fn after_natural(t: Seq<char>) -> Seq<char> {
    if has_sub(t, natural_marker()) {
        trim(after_last(t, natural_marker()))
    } else {
        t
    }
}

pub open spec fn has_leak_marker(t: Seq<char>) -> bool {
    has_sub(t, "To classify"@) || has_sub(t, "[Phase"@) || has_sub(t, "Therefore,"@)
}

/// With a leak marker present, only the text after the last blank line is kept.
pub open spec fn drop_rationale(t: Seq<char>) -> Seq<char> {
    if has_leak_marker(t) && has_sub(t, blank_line()) {
        trim(after_last(t, blank_line()))
    } else {
        t
    }
}

/// The sanitizer's rules, applied in order to the trimmed reply.
pub open spec fn sanitized(s: Seq<char>) -> Seq<char> {
    drop_rationale(after_natural(strip_label(trim(s))))
}

fn strip_label_exec(t: Vec<char>) -> (r: Vec<char>)
    ensures
        r@ == strip_label(t@),
{
    let m = chars_of("CONVERSATION:");
    if matches_at(&t, &m, 0) {
        let rest = slice_vec(&t, m.len(), t.len());
        trim_chars(&rest)
    } else {
        t
    }
}

fn after_natural_exec(t: Vec<char>) -> (r: Vec<char>)
    ensures
        r@ == after_natural(t@),
{
    let m = chars_of("Here's a natural response:");
    match find_last(&t, &m) {
        Some(pos) => {
            assert(occurs_at(t@, m@, pos as int));
            let n = t.len();
            assert(pos + m@.len() <= n);
            let rest = slice_vec(&t, pos + m.len(), t.len());
            trim_chars(&rest)
        },
        None => t,
    }
}

fn drop_rationale_exec(t: Vec<char>) -> (r: Vec<char>)
    ensures
        r@ == drop_rationale(t@),
{
    let a = chars_of("To classify");
    let b = chars_of("[Phase");
    let c = chars_of("Therefore,");
    let leak = has_sub_exec(&t, &a) || has_sub_exec(&t, &b) || has_sub_exec(&t, &c);
    assert(leak == has_leak_marker(t@));
    if leak {
        let nl = chars_of("\n\n");
        match find_last(&t, &nl) {
            Some(pos) => {
                assert(occurs_at(t@, nl@, pos as int));
                let n = t.len();
                assert(pos + nl@.len() <= n);
                let rest = slice_vec(&t, pos + nl.len(), t.len());
                trim_chars(&rest)
            },
            None => t,
        }
    } else {
        t
    }
}

/// Cleans a worker reply: trims it, drops a `CONVERSATION:` label, keeps what
/// follows `Here's a natural response:`, and cuts classification rationale
/// back to the last paragraph.
pub fn sanitize_ai_output(s: &str) -> (r: String)
    ensures
        r@ == sanitized(s@),
{
    let t = trim_str(s);
    let t = strip_label_exec(t);
    let t = after_natural_exec(t);
    let t = drop_rationale_exec(t);
    string_of(t.as_slice())
}

} // verus!
