//! The focus observer's decisions: fed the foreground window's title at each
//! tick, it says when to notify the user.
use vstd::prelude::*;
use crate::text::{append_str, chars_of, has_sub, has_sub_exec, same_chars, string_of};

verus! {

/// What the observer remembers between ticks.
pub struct FocusWatch {
    pub last_title: String,
    pub same_count: u64,
}

/// Ticks on one window after which a long stay is noticed.
pub open spec fn stale_ticks() -> u64 {
    12
}

pub open spec fn error_notice(title: Seq<char>) -> Seq<char> {
    "[Error Detected] Looks like an error occurred in '"@ + title + "'. Need help?"@
}

pub open spec fn stale_notice() -> Seq<char> {
    "[Suggestion] You've been watching content for a while. focus_mode check?"@
}

pub open spec fn is_error_title(t: Seq<char>) -> bool {
    has_sub(t, "Error"@) || has_sub(t, "エラー"@)
}

pub open spec fn is_video_title(t: Seq<char>) -> bool {
    has_sub(t, "YouTube"@) || has_sub(t, "Netflix"@)
}

impl FocusWatch {
    pub fn new() -> (r: FocusWatch)
        ensures
            r.last_title@.len() == 0,
            r.same_count == 0,
    {
        FocusWatch { last_title: String::new(), same_count: 0 }
    }

    /// One tick. A new non-empty title resets the count and is noticed when it
    /// reads as an error; otherwise the count grows, and at exactly twelve
    /// ticks on a video title a suggestion is made.
    pub fn observe(&mut self, title: &str) -> (r: Option<String>)
        ensures
            title@ != old(self).last_title@ && title@.len() > 0 ==> {
                &&& final(self).last_title@ == title@
                &&& final(self).same_count == 0
                &&& (if is_error_title(title@) {
                    r matches Some(n) && n@ == error_notice(title@)
                } else {
                    r is None
                })
            },
            !(title@ != old(self).last_title@ && title@.len() > 0) ==> {
                &&& final(self).last_title@ == old(self).last_title@
                &&& final(self).same_count == if old(self).same_count == u64::MAX {
                    u64::MAX
                } else {
                    (old(self).same_count + 1) as u64
                }
                &&& (if final(self).same_count == stale_ticks() && is_video_title(title@) {
                    r matches Some(n) && n@ == stale_notice()
                } else {
                    r is None
                })
            },
    {
        let t = chars_of(title);
        let last = chars_of(self.last_title.as_str());
        if !same_chars(&t, &last) && t.len() > 0 {
            let err = has_sub_exec(&t, &chars_of("Error")) || has_sub_exec(&t, &chars_of("エラー"));
            self.last_title = string_of(t.as_slice());
            self.same_count = 0;
            if err {
                let mut out: Vec<char> = chars_of("[Error Detected] Looks like an error occurred in '");
                append_str(&mut out, title);
                append_str(&mut out, "'. Need help?");
                return Some(string_of(out.as_slice()));
            }
            return None;
        }
        if self.same_count < u64::MAX {
            self.same_count = self.same_count + 1;
        }
        if self.same_count == 12 && (has_sub_exec(&t, &chars_of("YouTube")) || has_sub_exec(
            &t,
            &chars_of("Netflix"),
        )) {
            return Some(
                string_of(
                    chars_of(
                        "[Suggestion] You've been watching content for a while. focus_mode check?",
                    ).as_slice(),
                ),
            );
        }
        None
    }
}

} // verus!
