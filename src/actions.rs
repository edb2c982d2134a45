//! The action mini-language: a worker reply split on ` && ` into commands,
//! each parsed into a tagged variant, and the transcript notes that executing
//! them leaves.
use vstd::prelude::*;
use crate::text::{
    chars_of, copy_chars, find_first, first_at, has_sub, has_sub_exec, matches_at, occurs_at,
    same_chars, slice_vec, starts_with, string_of, trim, trim_chars,
};

verus! {

/// One parsed command of a worker reply.
pub enum Command {
    Look,
    Apps,
    Search { query: String },
    Save { filename: String, content: String },
    SaveInvalid,
    Exec { app: String },
    Type { text: String, target: Option<String> },
    Press { key: String },
    Wait { ms: Option<u64> },
    Ignored,
}

/// A command as text values.
pub enum CommandView {
    Look,
    Apps,
    Search { query: Seq<char> },
    Save { filename: Seq<char>, content: Seq<char> },
    SaveInvalid,
    Exec { app: Seq<char> },
    Type { text: Seq<char>, target: Option<Seq<char>> },
    Press { key: Seq<char> },
    Wait { ms: Option<u64> },
    Ignored,
}

impl View for Command {
    type V = CommandView;

    open spec fn view(&self) -> CommandView {
        match self {
            Command::Look => CommandView::Look,
            Command::Apps => CommandView::Apps,
            Command::Search { query } => CommandView::Search { query: query@ },
            Command::Save { filename, content } => CommandView::Save {
                filename: filename@,
                content: content@,
            },
            Command::SaveInvalid => CommandView::SaveInvalid,
            Command::Exec { app } => CommandView::Exec { app: app@ },
            Command::Type { text, target } => CommandView::Type {
                text: text@,
                target: match target {
                    Some(t) => Some(t@),
                    None => None,
                },
            },
            Command::Press { key } => CommandView::Press { key: key@ },
            Command::Wait { ms } => CommandView::Wait { ms: *ms },
            Command::Ignored => CommandView::Ignored,
        }
    }
}

/// The reply holds at least one command marker, so it is run as a command chain.
pub open spec fn has_marker(s: Seq<char>) -> bool {
    has_sub(s, "EXEC:"@) || has_sub(s, "TYPE:"@) || has_sub(s, "SEARCH:"@) || has_sub(s, "APPS"@)
        || has_sub(s, "LOOK"@) || has_sub(s, "SAVE:"@)
}

pub fn has_command_marker(s: &str) -> (r: bool)
    ensures
        r == has_marker(s@),
{
    let v = chars_of(s);
    has_sub_exec(&v, &chars_of("EXEC:")) || has_sub_exec(&v, &chars_of("TYPE:")) || has_sub_exec(
        &v,
        &chars_of("SEARCH:"),
    ) || has_sub_exec(&v, &chars_of("APPS")) || has_sub_exec(&v, &chars_of("LOOK"))
        || has_sub_exec(&v, &chars_of("SAVE:"))
}

/// The pieces of `s` between the separators `sep`, in order.
pub open spec fn split_on(s: Seq<char>, sep: Seq<char>) -> Seq<Seq<char>>
    decreases s.len(),
{
    if sep.len() > 0 && has_sub(s, sep) {
        let i = first_at(s, sep);
        if 0 <= i && i + sep.len() <= s.len() {
            seq![s.subrange(0, i)] + split_on(s.subrange(i + sep.len(), s.len() as int), sep)
        } else {
            seq![s]
        }
    } else {
        seq![s]
    }
}

/// The value of a run of decimal digits.
pub open spec fn digits_value(s: Seq<char>) -> nat
    decreases s.len(),
{
    if s.len() == 0 {
        0
    } else {
        digits_value(s.drop_last()) * 10 + ((s.last() as u32) - 0x30) as nat
    }
}

pub open spec fn all_digits(s: Seq<char>) -> bool {
    forall|i: int| 0 <= i < s.len() ==> 0x30 <= (#[trigger] s[i] as u32) <= 0x39
}

/// What `u64::from_str` accepts: an optional `+`, then one or more digits,
/// with a value that fits.
pub open spec fn parsed_u64(s: Seq<char>) -> Option<u64> {
    let d = if s.len() > 0 && s[0] == '+' {
        s.drop_first()
    } else {
        s
    };
    if d.len() > 0 && all_digits(d) && digits_value(d) <= u64::MAX {
        Some(digits_value(d) as u64)
    } else {
        None
    }
}

proof fn lemma_digits_value_grows(s: Seq<char>, i: int)
    requires
        0 <= i <= s.len(),
    ensures
        digits_value(s.subrange(0, i)) <= digits_value(s),
    decreases s.len() - i,
{
    if i < s.len() {
        lemma_digits_value_grows(s, i + 1);
        assert(s.subrange(0, i + 1).drop_last() =~= s.subrange(0, i));
    } else {
        assert(s.subrange(0, i) =~= s);
    }
}

/// Parses a millisecond count as `u64::from_str` would.
pub fn parse_u64(s: &Vec<char>) -> (r: Option<u64>)
    ensures
        r == parsed_u64(s@),
{
    let start: usize = if s.len() > 0 && s[0] == '+' {
        1
    } else {
        0
    };
    let ghost d = if s@.len() > 0 && s@[0] == '+' {
        s@.drop_first()
    } else {
        s@
    };
    assert(d =~= s@.subrange(start as int, s@.len() as int));
    if start == s.len() {
        return None;
    }
    let mut v: u64 = 0;
    let mut i: usize = start;
    while i < s.len()
        invariant
            start <= i <= s@.len(),
            d =~= s@.subrange(start as int, s@.len() as int),
            d == (if s@.len() > 0 && s@[0] == '+' {
                s@.drop_first()
            } else {
                s@
            }),
            all_digits(s@.subrange(start as int, i as int)),
            v as nat == digits_value(s@.subrange(start as int, i as int)),
        decreases s@.len() - i,
    {
        let c = s[i];
        let u = c as u32;
        proof {
            assert(s@.subrange(start as int, i + 1).drop_last() =~= s@.subrange(start as int, i as int));
        }
        if !(0x30 <= u && u <= 0x39) {
            assert(d[i - start] == c);
            assert(!(0x30 <= (d[i - start] as u32) <= 0x39));
            assert(!all_digits(d));
            assert(parsed_u64(s@) is None);
            return None;
        }
        let dv = (u - 0x30) as u64;
        if v > (u64::MAX - dv) / 10 {
            proof {
                assert(v * 10 + dv > u64::MAX) by (nonlinear_arith)
                    requires v > (u64::MAX - dv) / 10, dv <= 9;
                assert(digits_value(s@.subrange(start as int, i + 1)) == v * 10 + dv);
                lemma_digits_value_grows(d, i + 1 - start);
                assert(d.subrange(0, i + 1 - start) =~= s@.subrange(start as int, i + 1));
                assert(digits_value(d) > u64::MAX);
                assert(parsed_u64(s@) is None);
            }
            return None;
        }
        proof {
            assert(v * 10 + dv <= u64::MAX) by (nonlinear_arith)
                requires v <= (u64::MAX - dv) / 10, dv <= 9;
        }
        v = v * 10 + dv;
        assert(digits_value(s@.subrange(start as int, i + 1)) == v);
        i = i + 1;
        assert(all_digits(s@.subrange(start as int, i as int)));
    }
    Some(v)
}

fn own(v: &Vec<char>) -> (r: String)
    ensures
        r@ == v@,
{
    string_of(v.as_slice())
}

/// The text after a marker prefix, trimmed.
pub open spec fn rest_after(s: Seq<char>, n: int) -> Seq<char> {
    trim(s.subrange(n, s.len() as int))
}

/// How a single trimmed command reads. The first matching rule wins: `LOOK`,
/// `APPS`, `SEARCH:`, anything holding `SAVE:`, `EXEC:`, `TYPE:`, `PRESS:`,
/// `WAIT:`; anything else is ignored.
pub open spec fn command_of(c: Seq<char>) -> CommandView {
    if c == "LOOK"@ {
        CommandView::Look
    } else if c == "APPS"@ {
        CommandView::Apps
    } else if starts_with(c, "SEARCH:"@) {
        CommandView::Search { query: rest_after(c, 7) }
    } else if has_sub(c, "SAVE:"@) {
        let raw = c.subrange(first_at(c, "SAVE:"@) + 5, c.len() as int);
        if has_sub(raw, "|||"@) {
            let i = first_at(raw, "|||"@);
            CommandView::Save {
                filename: trim(raw.subrange(0, i)),
                content: trim(raw.subrange(i + 3, raw.len() as int)),
            }
        } else {
            CommandView::SaveInvalid
        }
    } else if starts_with(c, "EXEC:"@) {
        CommandView::Exec { app: rest_after(c, 5) }
    } else if starts_with(c, "TYPE:"@) {
        let raw = c.subrange(5, c.len() as int);
        if has_sub(raw, "@"@) {
            let i = first_at(raw, "@"@);
            CommandView::Type {
                text: trim(raw.subrange(0, i)),
                target: Some(trim(raw.subrange(i + 1, raw.len() as int))),
            }
        } else {
            CommandView::Type { text: trim(raw), target: None }
        }
    } else if starts_with(c, "PRESS:"@) {
        CommandView::Press { key: rest_after(c, 6) }
    } else if starts_with(c, "WAIT:"@) {
        CommandView::Wait { ms: parsed_u64(rest_after(c, 5)) }
    } else {
        CommandView::Ignored
    }
}

fn rest_exec(c: &Vec<char>, n: usize) -> (r: Vec<char>)
    requires
        n <= c@.len(),
    ensures
        r@ == rest_after(c@, n as int),
{
    let t = slice_vec(c, n, c.len());
    trim_chars(&t)
}

/// Parses one trimmed command.
pub fn parse_command(c: &Vec<char>) -> (r: Command)
    ensures
        r@ == command_of(c@),
{
    proof {
        reveal_strlit("SEARCH:");
        reveal_strlit("SAVE:");
        reveal_strlit("|||");
        reveal_strlit("EXEC:");
        reveal_strlit("TYPE:");
        reveal_strlit("@");
        reveal_strlit("PRESS:");
        reveal_strlit("WAIT:");
    }
    if same_chars(c, &chars_of("LOOK")) {
        return Command::Look;
    }
    if same_chars(c, &chars_of("APPS")) {
        return Command::Apps;
    }
    if matches_at(c, &chars_of("SEARCH:"), 0) {
        return Command::Search { query: own(&rest_exec(c, 7)) };
    }
    let save = chars_of("SAVE:");
    match find_first(c, &save) {
        Some(p) => {
            assert(occurs_at(c@, save@, p as int));
            let n = c.len();
            assert(p + save@.len() <= n);
            let raw = slice_vec(c, p + 5, c.len());
            let sep = chars_of("|||");
            return match find_first(&raw, &sep) {
                Some(i) => {
                    assert(occurs_at(raw@, sep@, i as int));
                    let f = slice_vec(&raw, 0, i);
                    let body = slice_vec(&raw, i + 3, raw.len());
                    Command::Save {
                        filename: own(&trim_chars(&f)),
                        content: own(&trim_chars(&body)),
                    }
                },
                None => Command::SaveInvalid,
            };
        },
        None => {},
    }
    if matches_at(c, &chars_of("EXEC:"), 0) {
        return Command::Exec { app: own(&rest_exec(c, 5)) };
    }
    if matches_at(c, &chars_of("TYPE:"), 0) {
        let raw = slice_vec(c, 5, c.len());
        let at = chars_of("@");
        return match find_first(&raw, &at) {
            Some(i) => {
                assert(occurs_at(raw@, at@, i as int));
                let t = slice_vec(&raw, 0, i);
                let w = slice_vec(&raw, i + 1, raw.len());
                Command::Type { text: own(&trim_chars(&t)), target: Some(own(&trim_chars(&w))) }
            },
            None => Command::Type { text: own(&trim_chars(&raw)), target: None },
        };
    }
    if matches_at(c, &chars_of("PRESS:"), 0) {
        return Command::Press { key: own(&rest_exec(c, 6)) };
    }
    if matches_at(c, &chars_of("WAIT:"), 0) {
        let arg = rest_exec(c, 5);
        return Command::Wait { ms: parse_u64(&arg) };
    }
    Command::Ignored
}

/// The commands a chain holds: its pieces trimmed, empty ones and `NO` skipped,
/// the rest parsed in order.
pub open spec fn chain_of(pieces: Seq<Seq<char>>) -> Seq<CommandView>
    decreases pieces.len(),
{
    if pieces.len() == 0 {
        Seq::empty()
    } else {
        let t = trim(pieces.last());
        if t.len() == 0 || t == "NO"@ {
            chain_of(pieces.drop_last())
        } else {
            chain_of(pieces.drop_last()).push(command_of(t))
        }
    }
}

/// The command chain of a reply; empty when the reply holds no marker.
pub open spec fn commands_of(reply: Seq<char>) -> Seq<CommandView> {
    if has_marker(reply) {
        chain_of(split_on(reply, " && "@))
    } else {
        Seq::empty()
    }
}

pub open spec fn command_views(v: Seq<Command>) -> Seq<CommandView> {
    v.map_values(|c: Command| c@)
}

/// Splits `s` at every occurrence of a non-empty separator.
pub fn split_pieces(s: &Vec<char>, sep: &Vec<char>) -> (r: Vec<Vec<char>>)
    requires
        sep@.len() > 0,
    ensures
        crate::tokenize::views(r@) == split_on(s@, sep@),
{
    let mut out: Vec<Vec<char>> = Vec::new();
    let mut rest = copy_chars(s);
    let ghost whole = s@;
    assert(crate::tokenize::views(out@) + split_on(rest@, sep@) =~= split_on(whole, sep@));
    loop
        invariant
            sep@.len() > 0,
            whole == s@,
            crate::tokenize::views(out@) + split_on(rest@, sep@) == split_on(whole, sep@),
        decreases rest@.len(),
    {
        match find_first(&rest, sep) {
            Some(i) => {
                assert(occurs_at(rest@, sep@, i as int));
                let n = rest.len();
                assert(i + sep@.len() <= n);
                let head = slice_vec(&rest, 0, i);
                let tail = slice_vec(&rest, i + sep.len(), rest.len());
                let ghost before = out@;
                proof {
                    assert(split_on(rest@, sep@) == seq![head@] + split_on(tail@, sep@));
                }
                out.push(head);
                assert(crate::tokenize::views(out@) =~= crate::tokenize::views(before).push(head@));
                assert(crate::tokenize::views(out@) + split_on(tail@, sep@) =~= crate::tokenize::views(before) + (seq![head@] + split_on(tail@, sep@)));
                rest = tail;
            },
            None => {
                let ghost before = out@;
                let ghost rv = rest@;
                assert(split_on(rv, sep@) == seq![rv]);
                assert(crate::tokenize::views(before) + seq![rv] == split_on(whole, sep@));
                out.push(rest);
                assert(crate::tokenize::views(out@) =~= crate::tokenize::views(before) + seq![rv]);
                return out;
            },
        }
    }
}

/// Parses a sanitized worker reply into its commands, in order; a reply
/// without any command marker gives none.
pub fn parse_command_chain(reply: &str) -> (r: Vec<Command>)
    ensures
        command_views(r@) == commands_of(reply@),
{
    if !has_command_marker(reply) {
        return Vec::new();
    }
    let v = chars_of(reply);
    proof {
        reveal_strlit(" && ");
    }
    let sep = chars_of(" && ");
    let pieces = split_pieces(&v, &sep);
    let ghost ps = crate::tokenize::views(pieces@);
    let no = chars_of("NO");
    let mut out: Vec<Command> = Vec::new();
    let mut i: usize = 0;
    while i < pieces.len()
        invariant
            i <= pieces@.len(),
            ps == crate::tokenize::views(pieces@),
            no@ == "NO"@,
            command_views(out@) == chain_of(ps.subrange(0, i as int)),
        decreases pieces@.len() - i,
    {
        let t = trim_chars(&pieces[i]);
        proof {
            assert(ps.subrange(0, i + 1).drop_last() =~= ps.subrange(0, i as int));
            assert(ps.subrange(0, i + 1).last() == pieces@[i as int]@);
        }
        if t.len() > 0 && !same_chars(&t, &no) {
            let c = parse_command(&t);
            let ghost before = out@;
            out.push(c);
            assert(command_views(out@) =~= command_views(before).push(c@));
        }
        i = i + 1;
    }
    assert(ps.subrange(0, i as int) =~= ps);
    out
}

/// A command that starts with `SEARCH:` is a search, whatever else it holds
/// (a `|||`, or `SAVE:` further on).
pub proof fn lemma_search_marker_wins(c: Seq<char>)
    requires
        starts_with(c, "SEARCH:"@),
    ensures
        command_of(c) == (CommandView::Search { query: rest_after(c, 7) }),
{
    reveal_strlit("SEARCH:");
    reveal_strlit("LOOK");
    reveal_strlit("APPS");
    assert(c.len() >= 7);
    assert(c != "LOOK"@);
    assert(c != "APPS"@);
}

/// A save command with no `|||` after its marker is malformed: it names no
/// file, so nothing can be written.
pub proof fn lemma_save_without_separator(c: Seq<char>)
    requires
        has_sub(c, "SAVE:"@),
        !starts_with(c, "SEARCH:"@),
        !has_sub(c.subrange(first_at(c, "SAVE:"@) + 5, c.len() as int), "|||"@),
    ensures
        command_of(c) == CommandView::SaveInvalid,
{
    reveal_strlit("SAVE:");
    reveal_strlit("LOOK");
    reveal_strlit("APPS");
    if c == "LOOK"@ || c == "APPS"@ {
        let i = choose|i: int| occurs_at(c, "SAVE:"@, i);
        assert(i + 5 <= c.len());
    }
}

} // verus!
