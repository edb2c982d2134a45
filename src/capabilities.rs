//! Decisions around the operating-system capabilities: which well-known
//! application a launch request names, which key a key name means, the
//! result lines those capabilities report, and the full-text recall query.
use vstd::prelude::*;
use crate::text::{append_str, chars_of, str_is, string_of, trim, trim_str};
use crate::tokenize::{lower_of, lowercase};
use crate::actions::{split_on, split_pieces};

verus! {

/// Applications launched directly, without a start-menu search.
#[derive(PartialEq, Eq, Structural, Clone, Copy, Debug)]
pub enum LaunchAlias {
    Calculator,
    Notepad,
    Explorer,
    Terminal,
    TaskManager,
}

/// Keys that a `PRESS:` command can name.
#[derive(PartialEq, Eq, Structural, Clone, Copy, Debug)]
pub enum KeyName {
    Return,
    Tab,
    Space,
    Backspace,
    Meta,
    Escape,
}

/// The alias a lower-cased request names, if any.
pub open spec fn alias_of(req: Seq<char>) -> Option<LaunchAlias> {
    if req == "calc"@ || req == "calculator"@ || req == "電卓"@ {
        Some(LaunchAlias::Calculator)
    } else if req == "notepad"@ || req == "memo"@ || req == "メモ"@ || req == "メモ帳"@ {
        Some(LaunchAlias::Notepad)
    } else if req == "explorer"@ || req == "folder"@ || req == "エクスプローラー"@ {
        Some(LaunchAlias::Explorer)
    } else if req == "cmd"@ || req == "terminal"@ || req == "ターミナル"@ {
        Some(LaunchAlias::Terminal)
    } else if req == "taskmgr"@ || req == "タスクマネージャー"@ {
        Some(LaunchAlias::TaskManager)
    } else {
        None
    }
}

/// Which well-known application a launch request names: the request is
/// trimmed and lower-cased first.
pub fn launch_alias(request: &str) -> (r: Option<LaunchAlias>)
    ensures
        r == alias_of(lower_of(trim(request@))),
{
    let t = string_of(trim_str(request).as_slice());
    let l = lowercase(t.as_str());
    alias_for_lowered(l.as_str())
}

/// The alias an already trimmed and lower-cased request names.
pub fn alias_for_lowered(s: &str) -> (r: Option<LaunchAlias>)
    ensures
        r == alias_of(s@),
{
    if str_is(s, "calc") || str_is(s, "calculator") || str_is(s, "電卓") {
        Some(LaunchAlias::Calculator)
    } else if str_is(s, "notepad") || str_is(s, "memo") || str_is(s, "メモ") || str_is(s, "メモ帳") {
        Some(LaunchAlias::Notepad)
    } else if str_is(s, "explorer") || str_is(s, "folder") || str_is(s, "エクスプローラー") {
        Some(LaunchAlias::Explorer)
    } else if str_is(s, "cmd") || str_is(s, "terminal") || str_is(s, "ターミナル") {
        Some(LaunchAlias::Terminal)
    } else if str_is(s, "taskmgr") || str_is(s, "タスクマネージャー") {
        Some(LaunchAlias::TaskManager)
    } else {
        None
    }
}

/// The human label of an alias, as launch results report it.
pub open spec fn alias_label(a: LaunchAlias) -> Seq<char> {
    match a {
        LaunchAlias::Calculator => "Calculator"@,
        LaunchAlias::Notepad => "Notepad"@,
        LaunchAlias::Explorer => "File Explorer"@,
        LaunchAlias::Terminal => "Terminal"@,
        LaunchAlias::TaskManager => "Task Manager"@,
    }
}

pub fn launch_label(a: LaunchAlias) -> (r: String)
    ensures
        r@ == alias_label(a),
{
    let v = match a {
        LaunchAlias::Calculator => chars_of("Calculator"),
        LaunchAlias::Notepad => chars_of("Notepad"),
        LaunchAlias::Explorer => chars_of("File Explorer"),
        LaunchAlias::Terminal => chars_of("Terminal"),
        LaunchAlias::TaskManager => chars_of("Task Manager"),
    };
    string_of(v.as_slice())
}

/// The result line of a direct launch.
pub open spec fn launch_report(label: Seq<char>, outcome: Result<(), Seq<char>>) -> Seq<char> {
    match outcome {
        Ok(()) => "Success: Launched "@ + label + "."@,
        Err(e) => "Error launching "@ + label + ": "@ + e,
    }
}

pub fn launch_message(label: &str, outcome: &Result<(), String>) -> (r: String)
    ensures
        r@ == launch_report(
            label@,
            match outcome {
                Ok(()) => Ok(()),
                Err(e) => Err(e@),
            },
        ),
{
    let mut out: Vec<char> = Vec::new();
    match outcome {
        Ok(()) => {
            append_str(&mut out, "Success: Launched ");
            append_str(&mut out, label);
            append_str(&mut out, ".");
        },
        Err(e) => {
            append_str(&mut out, "Error launching ");
            append_str(&mut out, label);
            append_str(&mut out, ": ");
            append_str(&mut out, e.as_str());
        },
    }
    string_of(out.as_slice())
}

/// The key a lower-cased key name means, if any.
pub open spec fn key_of(name: Seq<char>) -> Option<KeyName> {
    if name == "enter"@ || name == "return"@ {
        Some(KeyName::Return)
    } else if name == "tab"@ {
        Some(KeyName::Tab)
    } else if name == "space"@ {
        Some(KeyName::Space)
    } else if name == "backspace"@ {
        Some(KeyName::Backspace)
    } else if name == "windows"@ || name == "super"@ || name == "meta"@ {
        Some(KeyName::Meta)
    } else if name == "escape"@ || name == "esc"@ {
        Some(KeyName::Escape)
    } else {
        None
    }
}

/// Which key a `PRESS:` argument names, case-insensitively.
pub fn key_for_name(name: &str) -> (r: Option<KeyName>)
    ensures
        r == key_of(lower_of(name@)),
{
    let l = lowercase(name);
    key_for_lowered(l.as_str())
}

/// The key an already lower-cased key name means.
pub fn key_for_lowered(s: &str) -> (r: Option<KeyName>)
    ensures
        r == key_of(s@),
{
    if str_is(s, "enter") || str_is(s, "return") {
        Some(KeyName::Return)
    } else if str_is(s, "tab") {
        Some(KeyName::Tab)
    } else if str_is(s, "space") {
        Some(KeyName::Space)
    } else if str_is(s, "backspace") {
        Some(KeyName::Backspace)
    } else if str_is(s, "windows") || str_is(s, "super") || str_is(s, "meta") {
        Some(KeyName::Meta)
    } else if str_is(s, "escape") || str_is(s, "esc") {
        Some(KeyName::Escape)
    } else {
        None
    }
}

/// The result line of a key press: unknown names and failures are errors.
pub open spec fn press_report(name: Seq<char>, known: bool, outcome: Result<(), Seq<char>>) -> Seq<char> {
    if !known {
        "Error: Unknown key."@
    } else {
        match outcome {
            Ok(()) => "Pressed: ["@ + name + "]"@,
            Err(e) => "Error: "@ + e,
        }
    }
}

pub fn press_message(name: &str, known: bool, outcome: &Result<(), String>) -> (r: String)
    ensures
        r@ == press_report(
            name@,
            known,
            match outcome {
                Ok(()) => Ok(()),
                Err(e) => Err(e@),
            },
        ),
{
    let mut out: Vec<char> = Vec::new();
    if !known {
        append_str(&mut out, "Error: Unknown key.");
    } else {
        match outcome {
            Ok(()) => {
                append_str(&mut out, "Pressed: [");
                append_str(&mut out, name);
                append_str(&mut out, "]");
            },
            Err(e) => {
                append_str(&mut out, "Error: ");
                append_str(&mut out, e.as_str());
            },
        }
    }
    string_of(out.as_slice())
}

/// The result line of typing text, into a named window or into the focused one.
pub open spec fn typed_report(text: Seq<char>, target: Option<Seq<char>>, outcome: Result<(), Seq<char>>) -> Seq<char> {
    match outcome {
        Err(e) => "Error typing text: "@ + e,
        Ok(()) => match target {
            Some(t) => "Focused '"@ + t + "' and Typed: '"@ + text + "'"@,
            None => "Typed: '"@ + text + "'"@,
        },
    }
}

pub fn typed_message(text: &str, target: &Option<String>, outcome: &Result<(), String>) -> (r: String)
    ensures
        r@ == typed_report(
            text@,
            match target {
                Some(t) => Some(t@),
                None => None,
            },
            match outcome {
                Ok(()) => Ok(()),
                Err(e) => Err(e@),
            },
        ),
{
    let mut out: Vec<char> = Vec::new();
    match outcome {
        Err(e) => {
            append_str(&mut out, "Error typing text: ");
            append_str(&mut out, e.as_str());
        },
        Ok(()) => match target {
            Some(t) => {
                append_str(&mut out, "Focused '");
                append_str(&mut out, t.as_str());
                append_str(&mut out, "' and Typed: '");
                append_str(&mut out, text);
                append_str(&mut out, "'");
            },
            None => {
                append_str(&mut out, "Typed: '");
                append_str(&mut out, text);
                append_str(&mut out, "'");
            },
        },
    }
    string_of(out.as_slice())
}

/// Characters that the full-text engine reads as operators become spaces.
pub open spec fn fts_char(c: char) -> char {
    if c == '"' || c == '*' || c == ':' || c == '-' {
        ' '
    } else {
        c
    }
}

/// The full-text query for a recall: operators blanked, trimmed, quoted as one phrase.
pub open spec fn fts_query_text(query: Seq<char>) -> Seq<char> {
    seq!['"'] + trim(query.map_values(|c: char| fts_char(c))) + seq!['"']
}

pub fn fts_query(query: &str) -> (r: String)
    ensures
        r@ == fts_query_text(query@),
{
    let v = chars_of(query);
    let mut w: Vec<char> = Vec::new();
    let mut i: usize = 0;
    while i < v.len()
        invariant
            i <= v@.len(),
            v@ == query@,
            w@ == v@.subrange(0, i as int).map_values(|c: char| fts_char(c)),
        decreases v@.len() - i,
    {
        let c = v[i];
        let d = if c == '"' || c == '*' || c == ':' || c == '-' {
            ' '
        } else {
            c
        };
        w.push(d);
        i = i + 1;
        assert(w@ =~= v@.subrange(0, i as int).map_values(|c: char| fts_char(c)));
    }
    assert(v@.subrange(0, i as int) =~= v@);
    let t = crate::text::trim_chars(&w);
    let mut out: Vec<char> = Vec::new();
    out.push('"');
    crate::text::append_chars(&mut out, &t);
    out.push('"');
    assert(out@ =~= fts_query_text(query@));
    string_of(out.as_slice())
}

/// The title a new session row gets: `session ` and the first eight characters of its id.
pub fn session_title(session_id: &str) -> (r: String)
    ensures
        r@ == "session "@ + (if session_id@.len() <= 8 {
            session_id@
        } else {
            session_id@.subrange(0, 8)
        }),
{
    let v = chars_of(session_id);
    let mut out: Vec<char> = chars_of("session ");
    if v.len() <= 8 {
        crate::text::append_chars(&mut out, &v);
    } else {
        let head = crate::text::slice_vec(&v, 0, 8);
        crate::text::append_chars(&mut out, &head);
    }
    string_of(out.as_slice())
}

/// What the host reports about itself.
pub struct SystemStats {
    pub cpu_usage: u8,
    pub memory_used: u64,
    pub memory_total: u64,
    pub battery_level: u8,
    pub is_charging: bool,
}

/// The non-empty trimmed lines among `lines`, in order.
pub open spec fn nonblank(lines: Seq<Seq<char>>) -> Seq<Seq<char>>
    decreases lines.len(),
{
    if lines.len() == 0 {
        Seq::empty()
    } else if trim(lines.last()).len() > 0 {
        nonblank(lines.drop_last()).push(trim(lines.last()))
    } else {
        nonblank(lines.drop_last())
    }
}

/// The window titles of a process listing: one per line, trimmed, blank lines skipped.
pub fn window_titles(listing: &str) -> (r: Vec<String>)
    ensures
        r@.map_values(|t: String| t@) == nonblank(split_on(listing@, "\n"@)),
{
    proof {
        reveal_strlit("\n");
    }
    let v = chars_of(listing);
    let nl = chars_of("\n");
    let lines = split_pieces(&v, &nl);
    let ghost ls = crate::tokenize::views(lines@);
    let mut out: Vec<String> = Vec::new();
    let mut i: usize = 0;
    while i < lines.len()
        invariant
            i <= lines@.len(),
            ls == crate::tokenize::views(lines@),
            out@.map_values(|t: String| t@) == nonblank(ls.subrange(0, i as int)),
        decreases lines@.len() - i,
    {
        let t = crate::text::trim_chars(&lines[i]);
        proof {
            assert(ls.subrange(0, i + 1).drop_last() =~= ls.subrange(0, i as int));
            assert(ls.subrange(0, i + 1).last() == lines@[i as int]@);
        }
        if t.len() > 0 {
            let s = string_of(t.as_slice());
            let ghost before = out@;
            out.push(s);
            assert(out@.map_values(|t: String| t@) =~= before.map_values(|t: String| t@).push(t@));
        }
        i = i + 1;
    }
    assert(ls.subrange(0, i as int) =~= ls);
    out
}

} // verus!
