//! The command line: `tama say|ask|remind|timer|do|watch|pomodoro ...`.
//! Every subcommand turns into one JSON line for the app's input pipe; what
//! to do with it (write it, wait for an answer, run a watched command) is a
//! `Plan` that the program carries out. Flags and wire keys are English.

use vstd::prelude::*;
use crate::assistant::{duration_chars, duration_of, json_escape, string_views};
use crate::i18n::{t, table, Lang};
use crate::json::{escape, member_text, members_text, object_text};
use crate::text::{chars_eq, chars_of, dec, push_dec, push_str, split_chars, split_on, string_of, trim, trim_chars};

verus! {

// ---------------------------------------------------------------------------
// Arguments

/// Flags that carry no value: skipping two arguments past them would eat the
/// text that follows.
pub const BOOL_FLAGS: [&'static str; 1] = ["--input"];

pub fn str_eq(a: &str, b: &str) -> (r: bool)
    ensures
        r == (a@ == b@),
{
    let x = chars_of(a);
    let y = chars_of(b);
    chars_eq(x.as_slice(), y.as_slice())
}

/// Where `name` first occurs.
pub open spec fn first_index(rest: Seq<Seq<char>>, name: Seq<char>) -> Option<int>
    decreases rest.len(),
{
    if rest.len() == 0 {
        None
    } else if rest[0] == name {
        Some(0)
    } else {
        match first_index(rest.drop_first(), name) {
            Some(i) => Some(i + 1),
            None => None,
        }
    }
}

/// The argument right after the first `name`, if there is one.
pub open spec fn flag_value(rest: Seq<Seq<char>>, name: Seq<char>) -> Option<Seq<char>> {
    match first_index(rest, name) {
        Some(i) => if i + 1 < rest.len() {
            Some(rest[i + 1])
        } else {
            None
        },
        None => None,
    }
}

/// The values of every `name` from position `i` on; a flag's value is never
/// read as a flag itself.
pub open spec fn flags_from(rest: Seq<Seq<char>>, name: Seq<char>, i: int) -> Seq<Seq<char>>
    decreases rest.len() + 1 - i,
{
    if i < 0 || i >= rest.len() {
        Seq::empty()
    } else if rest[i] == name {
        (if i + 1 < rest.len() {
            seq![rest[i + 1]]
        } else {
            Seq::empty()
        }) + flags_from(rest, name, i + 2)
    } else {
        flags_from(rest, name, i + 1)
    }
}

pub open spec fn is_flag(a: Seq<char>) -> bool {
    a.len() >= 2 && a[0] == '-' && a[1] == '-'
}

/// The first argument from `i` on that is neither a flag nor a flag's
/// value; `--input` takes no value.
pub open spec fn positional_from(rest: Seq<Seq<char>>, i: int) -> Option<Seq<char>>
    decreases rest.len() + 1 - i,
{
    if i < 0 || i >= rest.len() {
        None
    } else if rest[i] == "--input"@ {
        positional_from(rest, i + 1)
    } else if is_flag(rest[i]) {
        positional_from(rest, i + 2)
    } else {
        Some(rest[i])
    }
}

fn first_position(rest: &[String], name: &str) -> (r: Option<usize>)
    ensures
        match r {
            Some(i) => first_index(string_views(rest@), name@) == Some(i as int) && i < rest.len(),
            None => first_index(string_views(rest@), name@) is None,
        },
{
    let ghost rv = string_views(rest@);
    let mut i: usize = 0;
    assert(rv.skip(0) =~= rv);
    while i < rest.len()
        invariant
            i <= rest.len(),
            rv == string_views(rest@),
            first_index(rv, name@) == match first_index(rv.skip(i as int), name@) {
                Some(k) => Some(k + i),
                None => None,
            },
        decreases rest.len() - i,
    {
        if str_eq(rest[i].as_str(), name) {
            assert(rv.skip(i as int)[0] == rest@[i as int]@);
            return Some(i);
        }
        assert(rv.skip(i as int).drop_first() =~= rv.skip(i + 1));
        i = i + 1;
    }
    None
}

/// The value after the first `name`.
pub fn flag(rest: &[String], name: &str) -> (r: Option<String>)
    ensures
        match r {
            Some(v) => flag_value(string_views(rest@), name@) == Some(v@),
            None => flag_value(string_views(rest@), name@) is None,
        },
{
    match first_position(rest, name) {
        Some(i) => if i + 1 < rest.len() {
            Some(rest[i + 1].as_str().to_owned())
        } else {
            None
        },
        None => None,
    }
}

/// Every occurrence of a repeatable flag, in order.
pub fn flags(rest: &[String], name: &str) -> (r: Vec<String>)
    ensures
        string_views(r@) == flags_from(string_views(rest@), name@, 0),
{
    let ghost rv = string_views(rest@);
    let mut out: Vec<String> = Vec::new();
    let mut i: usize = 0;
    while i < rest.len()
        invariant
            rv == string_views(rest@),
            string_views(out@) + flags_from(rv, name@, i as int) == flags_from(rv, name@, 0),
        decreases rest.len() - i,
    {
        if str_eq(rest[i].as_str(), name) {
            let ghost before = string_views(out@);
            if i + 1 < rest.len() {
                out.push(rest[i + 1].as_str().to_owned());
                assert(string_views(out@) =~= before + seq![rv[i + 1]]);
            }
            assert(string_views(out@) + flags_from(rv, name@, i + 2) =~= before + flags_from(
                rv,
                name@,
                i as int,
            ));
            if i + 1 >= rest.len() {
                assert(flags_from(rv, name@, i + 2) =~= Seq::<Seq<char>>::empty());
                assert(string_views(out@) =~= flags_from(rv, name@, 0));
                return out;
            }
            i = i + 2;
        } else {
            i = i + 1;
        }
    }
    assert(flags_from(rv, name@, i as int) =~= Seq::<Seq<char>>::empty());
    assert(string_views(out@) =~= flags_from(rv, name@, 0));
    out
}

fn starts_flag(a: &str) -> (r: bool)
    ensures
        r == is_flag(a@),
{
    let c = chars_of(a);
    c.len() >= 2 && c[0] == '-' && c[1] == '-'
}

/// The first argument that is not a flag or a flag's value.
pub fn positional(rest: &[String]) -> (r: Option<String>)
    ensures
        match r {
            Some(v) => positional_from(string_views(rest@), 0) == Some(v@),
            None => positional_from(string_views(rest@), 0) is None,
        },
{
    let ghost rv = string_views(rest@);
    let mut i: usize = 0;
    while i < rest.len()
        invariant
            rv == string_views(rest@),
            positional_from(rv, 0) == positional_from(rv, i as int),
        decreases rest.len() - i,
    {
        assert(rv[i as int] == rest@[i as int]@);
        if str_eq(rest[i].as_str(), BOOL_FLAGS[0]) {
            proof {
                reveal_strlit("--input");
            }
            i = i + 1;
        } else if starts_flag(rest[i].as_str()) {
            proof {
                reveal_strlit("--input");
            }
            if i + 1 >= rest.len() {
                assert(positional_from(rv, i + 2) is None);
                return None;
            }
            i = i + 2;
        } else {
            proof {
                reveal_strlit("--input");
            }
            return Some(rest[i].as_str().to_owned());
        }
    }
    None
}

/// Whether `name` occurs anywhere.
pub fn has_arg(rest: &[String], name: &str) -> (r: bool)
    ensures
        r == string_views(rest@).contains(name@),
{
    let ghost rv = string_views(rest@);
    match first_position(rest, name) {
        Some(i) => {
            assert(rv[i as int] == name@) by {
                lemma_first_index(rv, name@);
            }
            true
        },
        None => {
            proof {
                lemma_first_index(rv, name@);
            }
            false
        },
    }
}

proof fn lemma_first_index(rest: Seq<Seq<char>>, name: Seq<char>)
    ensures
        first_index(rest, name) is None <==> !rest.contains(name),
        first_index(rest, name) matches Some(i) ==> 0 <= i < rest.len() && rest[i] == name,
    decreases rest.len(),
{
    if rest.len() > 0 {
        lemma_first_index(rest.drop_first(), name);
        if rest[0] != name {
            if rest.contains(name) {
                let k = choose|k: int| 0 <= k < rest.len() && rest[k] == name;
                assert(rest.drop_first()[k - 1] == name);
            }
            if rest.drop_first().contains(name) {
                let k = choose|k: int| 0 <= k < rest.len() - 1 && rest.drop_first()[k] == name;
                assert(rest[k + 1] == name);
            }
        } else {
            assert(rest[0] == name);
        }
    }
}

} // verus!

verus! {

// ---------------------------------------------------------------------------
// Options and wire lines

/// Parts joined with `sep` between each two.
pub open spec fn join_with(ps: Seq<Seq<char>>, sep: char) -> Seq<char>
    decreases ps.len(),
{
    if ps.len() == 0 {
        Seq::empty()
    } else if ps.len() == 1 {
        ps[0]
    } else {
        join_with(ps.drop_last(), sep) + seq![sep] + ps.last()
    }
}

fn join_chars(ps: &Vec<Vec<char>>, sep: char) -> (r: Vec<char>)
    ensures
        r@ == join_with(crate::text::views(ps@), sep),
{
    let ghost pv = crate::text::views(ps@);
    let mut out: Vec<char> = Vec::new();
    if ps.len() == 0 {
        return out;
    }
    crate::text::push_all(&mut out, ps[0].as_slice());
    assert(pv.take(1) =~= seq![pv[0]]);
    let mut i: usize = 1;
    while i < ps.len()
        invariant
            1 <= i <= ps.len(),
            pv == crate::text::views(ps@),
            out@ == join_with(pv.take(i as int), sep),
        decreases ps.len() - i,
    {
        out.push(sep);
        crate::text::push_all(&mut out, ps[i].as_slice());
        assert(pv.take(i + 1).drop_last() =~= pv.take(i as int));
        i = i + 1;
    }
    assert(pv.take(ps.len() as int) =~= pv);
    out
}

/// The options of an ask as they travel: one `\n`-separated string. No
/// options means yes/no; a single `--options` is split at commas (each part
/// trimmed); repeated ones are taken literally, commas and all.
pub open spec fn ask_options_text(lang: crate::i18n::Lang, opts: Seq<Seq<char>>) -> Seq<char> {
    if opts.len() == 0 {
        table(lang).default_yes@ + seq!['\n'] + table(lang).default_no@
    } else if opts.len() == 1 {
        join_with(split_on(opts[0], ',').map_values(|p: Seq<char>| trim(p)), '\n')
    } else {
        join_with(opts, '\n')
    }
}

pub fn ask_options(lang: Lang, opts: &[String]) -> (r: String)
    ensures
        r@ == ask_options_text(lang, string_views(opts@)),
{
    let ghost ov = string_views(opts@);
    if opts.len() == 0 {
        let strings = t(lang);
        let mut v: Vec<char> = Vec::new();
        push_str(&mut v, strings.default_yes);
        v.push('\n');
        push_str(&mut v, strings.default_no);
        assert(v@ =~= ask_options_text(lang, ov));
        return string_of(v.as_slice());
    }
    let mut parts: Vec<Vec<char>> = Vec::new();
    if opts.len() == 1 {
        let one = chars_of(opts[0].as_str());
        let pieces = split_chars(one.as_slice(), ',');
        let ghost target = split_on(one@, ',').map_values(|p: Seq<char>| trim(p));
        let mut i: usize = 0;
        while i < pieces.len()
            invariant
                i <= pieces.len(),
                crate::text::views(pieces@) == split_on(one@, ','),
                target == split_on(one@, ',').map_values(|p: Seq<char>| trim(p)),
                crate::text::views(parts@) == target.take(i as int),
            decreases pieces.len() - i,
        {
            let ghost before = crate::text::views(parts@);
            parts.push(trim_chars(pieces[i].as_slice()));
            assert(crate::text::views(parts@) =~= before.push(trim(pieces@[i as int]@)));
            assert(target.take(i + 1) =~= target.take(i as int).push(target[i as int]));
            i = i + 1;
        }
        assert(target.take(pieces.len() as int) =~= target);
        assert(ov[0] == one@);
    } else {
        let mut i: usize = 0;
        while i < opts.len()
            invariant
                i <= opts.len(),
                ov == string_views(opts@),
                crate::text::views(parts@) == ov.take(i as int),
            decreases opts.len() - i,
        {
            let ghost before = crate::text::views(parts@);
            parts.push(chars_of(opts[i].as_str()));
            assert(crate::text::views(parts@) =~= before.push(ov[i as int]));
            assert(ov.take(i + 1) =~= ov.take(i as int).push(ov[i as int]));
            i = i + 1;
        }
        assert(ov.take(opts.len() as int) =~= ov);
    }
    let v = join_chars(&parts, '\n');
    string_of(v.as_slice())
}

fn push_member(v: &mut Vec<char>, k: &str, val: &str)
    ensures
        final(v)@ == old(v)@ + member_text(k@, val@),
{
    let kc = chars_of(k);
    let vc = chars_of(val);
    v.push('"');
    crate::json::push_escaped(v, kc.as_slice());
    v.push('"');
    v.push(':');
    v.push('"');
    crate::json::push_escaped(v, vc.as_slice());
    v.push('"');
    assert(final(v)@ =~= old(v)@ + member_text(k@, val@));
}

/// A one-member object line.
fn object1(k: &str, v: &str) -> (r: String)
    ensures
        r@ == object_text(seq![(k@, v@)]).push('\n'),
{
    let mut out: Vec<char> = Vec::new();
    out.push('{');
    push_member(&mut out, k, v);
    out.push('}');
    out.push('\n');
    assert(out@ =~= object_text(seq![(k@, v@)]).push('\n'));
    string_of(out.as_slice())
}

/// A two-member object line.
fn object2(k1: &str, v1: &str, k2: &str, v2: &str) -> (r: String)
    ensures
        r@ == object_text(seq![(k1@, v1@), (k2@, v2@)]).push('\n'),
{
    let mut out: Vec<char> = Vec::new();
    out.push('{');
    push_member(&mut out, k1, v1);
    out.push(',');
    push_member(&mut out, k2, v2);
    out.push('}');
    out.push('\n');
    let ghost ps = seq![(k1@, v1@), (k2@, v2@)];
    assert(ps.drop_first() =~= seq![(k2@, v2@)]);
    assert(members_text(ps.drop_first()) == member_text(k2@, v2@));
    assert(members_text(ps) == member_text(k1@, v1@) + seq![','] + members_text(ps.drop_first()));
    assert(out@ =~= object_text(ps).push('\n'));
    string_of(out.as_slice())
}

/// Members written out, with no braces.
fn push_members3(out: &mut Vec<char>, k1: &str, v1: &str, k2: &str, v2: &str, k3: &str, v3: &str)
    ensures
        final(out)@ == old(out)@ + members_text(seq![(k1@, v1@), (k2@, v2@), (k3@, v3@)]),
{
    push_member(out, k1, v1);
    out.push(',');
    push_member(out, k2, v2);
    out.push(',');
    push_member(out, k3, v3);
    let ghost ps = seq![(k1@, v1@), (k2@, v2@), (k3@, v3@)];
    assert(ps.drop_first() =~= seq![(k2@, v2@), (k3@, v3@)]);
    assert(ps.drop_first().drop_first() =~= seq![(k3@, v3@)]);
    assert(members_text(ps.drop_first().drop_first()) == member_text(k3@, v3@));
    assert(members_text(ps.drop_first()) == member_text(k2@, v2@) + seq![','] + members_text(
        ps.drop_first().drop_first(),
    ));
    assert(members_text(ps) == member_text(k1@, v1@) + seq![','] + members_text(ps.drop_first()));
    assert(final(out)@ =~= old(out)@ + members_text(ps));
}

/// What `tama say` writes.
pub open spec fn say_text(text: Seq<char>, kind: Seq<char>, from: Seq<char>) -> Seq<char> {
    object_text(seq![("message"@, text), ("type"@, kind), ("from"@, from)]).push('\n')
}

pub fn say_line(text: &str, kind: &str, from: &str) -> (r: String)
    ensures
        r@ == say_text(text@, kind@, from@),
{
    let mut out: Vec<char> = Vec::new();
    out.push('{');
    push_members3(&mut out, "message", text, "type", kind, "from", from);
    out.push('}');
    out.push('\n');
    assert(out@ =~= say_text(text@, kind@, from@));
    string_of(out.as_slice())
}

/// What `tama ask` writes: the question, its options, its id and sender,
/// then the deadline as a number and `"input":true` when typed answers are
/// accepted.
pub open spec fn ask_text(
    text: Seq<char>,
    options: Seq<char>,
    id: Seq<char>,
    from: Seq<char>,
    expires: Option<u64>,
    input: bool,
) -> Seq<char> {
    seq!['{'] + members_text(
        seq![("message"@, text), ("actions"@, options), ("id"@, id), ("from"@, from)],
    ) + match expires {
        Some(d) => ",\"expires\":"@ + dec(d as nat),
        None => Seq::empty(),
    } + if input {
        ",\"input\":true"@
    } else {
        Seq::empty()
    } + "}\n"@
}

pub fn ask_line(
    text: &str,
    options: &str,
    id: &str,
    from: &str,
    expires: Option<u64>,
    input: bool,
) -> (r: String)
    ensures
        r@ == ask_text(text@, options@, id@, from@, expires, input),
{
    let mut out: Vec<char> = Vec::new();
    out.push('{');
    push_member(&mut out, "message", text);
    out.push(',');
    push_members3(&mut out, "actions", options, "id", id, "from", from);
    let ghost ps = seq![("message"@, text@), ("actions"@, options@), ("id"@, id@), ("from"@, from@)];
    assert(ps.drop_first() =~= seq![("actions"@, options@), ("id"@, id@), ("from"@, from@)]);
    assert(out@ =~= seq!['{'] + members_text(ps));
    let ghost head = out@;
    if let Some(d) = expires {
        push_str(&mut out, ",\"expires\":");
        push_dec(&mut out, d);
    }
    let ghost mid = out@;
    if input {
        push_str(&mut out, ",\"input\":true");
    }
    let ghost tail = out@;
    push_str(&mut out, "}\n");
    assert(out@ =~= ask_text(text@, options@, id@, from@, expires, input));
    string_of(out.as_slice())
}

pub open spec fn remind_text(text: Seq<char>, dur: Seq<char>) -> Seq<char> {
    object_text(seq![("remind"@, text), ("in"@, dur)]).push('\n')
}

pub open spec fn timer_text(dur: Seq<char>) -> Seq<char> {
    object_text(seq![("timer"@, dur)]).push('\n')
}

pub open spec fn action_text(a: Seq<char>) -> Seq<char> {
    object_text(seq![("command"@, a)]).push('\n')
}

pub open spec fn pomodoro_text(work: Seq<char>, pause: Seq<char>) -> Seq<char> {
    object_text(seq![("pomodoro"@, work), ("break"@, pause)]).push('\n')
}

/// `--from` is recognised only BEFORE the command, so the watched command
/// keeps its own flags; without it the sender is the program's name.
pub open spec fn watch_of(rest: Seq<Seq<char>>) -> Option<(Seq<char>, Seq<Seq<char>>)> {
    let named = rest.len() > 0 && rest[0] == "--from"@;
    let from: Option<Seq<char>> = if named && rest.len() > 1 {
        Some(rest[1])
    } else {
        None
    };
    let cmd = if named {
        if rest.len() >= 2 {
            rest.skip(2)
        } else {
            Seq::empty()
        }
    } else {
        rest
    };
    if cmd.len() == 0 {
        None
    } else {
        Some(
            (
                match from {
                    Some(f) => f,
                    None => cmd[0],
                },
                cmd,
            ),
        )
    }
}

fn copy_from(rest: &[String], lo: usize) -> (r: Vec<String>)
    requires
        lo <= rest.len(),
    ensures
        string_views(r@) == string_views(rest@).skip(lo as int),
{
    let ghost rv = string_views(rest@);
    let mut out: Vec<String> = Vec::new();
    let mut i: usize = lo;
    while i < rest.len()
        invariant
            lo <= i <= rest.len(),
            rv == string_views(rest@),
            string_views(out@) == rv.subrange(lo as int, i as int),
        decreases rest.len() - i,
    {
        let ghost before = string_views(out@);
        out.push(rest[i].as_str().to_owned());
        assert(string_views(out@) =~= before.push(rv[i as int]));
        assert(rv.subrange(lo as int, i + 1) =~= rv.subrange(lo as int, i as int).push(
            rv[i as int],
        ));
        i = i + 1;
    }
    assert(rv.subrange(lo as int, rest.len() as int) =~= rv.skip(lo as int));
    out
}

/// The sender and the command of `tama watch`.
pub fn watch_parse(rest: &[String]) -> (r: Option<(String, Vec<String>)>)
    ensures
        match r {
            Some((from, cmd)) => watch_of(string_views(rest@)) == Some((from@, string_views(cmd@))),
            None => watch_of(string_views(rest@)) is None,
        },
{
    let ghost rv = string_views(rest@);
    proof {
        reveal_strlit("--from");
    }
    let named = rest.len() > 0 && str_eq(rest[0].as_str(), "--from");
    let from: Option<String> = if named && rest.len() > 1 {
        Some(rest[1].as_str().to_owned())
    } else {
        None
    };
    let cmd = if named {
        if rest.len() >= 2 {
            copy_from(rest, 2)
        } else {
            Vec::new()
        }
    } else {
        copy_from(rest, 0)
    };
    assert(rv.skip(0) =~= rv);
    assert(named ==> rest.len() < 2 ==> string_views(cmd@) =~= Seq::<Seq<char>>::empty());
    if cmd.len() == 0 {
        return None;
    }
    let who = match from {
        Some(f) => f,
        None => cmd[0].as_str().to_owned(),
    };
    Some((who, cmd))
}

} // verus!


verus! {

// ---------------------------------------------------------------------------
// What a command line asks for

/// An ask still waiting for its id and deadline, which depend on the clock.
#[derive(Debug, PartialEq)]
pub struct AskPlan {
    pub text: String,
    /// The options, `\n`-separated; empty for a typed-answer-only ask.
    pub options: String,
    pub from: String,
    /// The id the caller chose, if any.
    pub id: Option<String>,
    /// Seconds to wait, if `--timeout` was given.
    pub timeout: Option<u64>,
    /// `--input`: a typed answer is accepted.
    pub input: bool,
    /// What to print when nobody answers in time.
    pub default: Option<String>,
}

/// What a subcommand asks the program to do.
#[derive(Debug, PartialEq)]
pub enum Plan {
    /// Print this usage line; exit code 2.
    Usage(String),
    /// Write this line to the app's pipe.
    Send(String),
    /// Send a question and wait for its answer.
    Ask(AskPlan),
    /// Run a command and report how it went.
    Watch { from: String, args: Vec<String> },
}

pub struct AskPlanV {
    pub text: Seq<char>,
    pub options: Seq<char>,
    pub from: Seq<char>,
    pub id: Option<Seq<char>>,
    pub timeout: Option<u64>,
    pub input: bool,
    pub default: Option<Seq<char>>,
}

pub enum PlanV {
    Usage(Seq<char>),
    Send(Seq<char>),
    Ask(AskPlanV),
    Watch { from: Seq<char>, args: Seq<Seq<char>> },
}

pub open spec fn opt_view(o: Option<String>) -> Option<Seq<char>> {
    match o {
        Some(s) => Some(s@),
        None => None,
    }
}

impl View for AskPlan {
    type V = AskPlanV;

    open spec fn view(&self) -> AskPlanV {
        AskPlanV {
            text: self.text@,
            options: self.options@,
            from: self.from@,
            id: opt_view(self.id),
            timeout: self.timeout,
            input: self.input,
            default: opt_view(self.default),
        }
    }
}

impl View for Plan {
    type V = PlanV;

    open spec fn view(&self) -> PlanV {
        match self {
            Plan::Usage(u) => PlanV::Usage(u@),
            Plan::Send(l) => PlanV::Send(l@),
            Plan::Ask(a) => PlanV::Ask(a@),
            Plan::Watch { from, args } => PlanV::Watch { from: from@, args: string_views(args@) },
        }
    }
}

pub open spec fn or_default(o: Option<Seq<char>>, d: Seq<char>) -> Seq<char> {
    match o {
        Some(v) => v,
        None => d,
    }
}

pub open spec fn say_plan(lang: crate::i18n::Lang, rest: Seq<Seq<char>>) -> PlanV {
    match positional_from(rest, 0) {
        None => PlanV::Usage(table(lang).cli_usage_say@),
        Some(text) => PlanV::Send(
            say_text(
                text,
                or_default(flag_value(rest, "--type"@), "info"@),
                or_default(flag_value(rest, "--from"@), Seq::empty()),
            ),
        ),
    }
}

pub open spec fn ask_plan(lang: crate::i18n::Lang, rest: Seq<Seq<char>>) -> PlanV {
    match positional_from(rest, 0) {
        None => PlanV::Usage(table(lang).cli_usage_ask@),
        Some(text) => {
            let typed = rest.contains("--input"@);
            let picks = flags_from(rest, "--options"@, 0);
            let bad_timeout = match flag_value(rest, "--timeout"@) {
                Some(d) => duration_of(d) is None,
                None => false,
            };
            if bad_timeout {
                PlanV::Usage(table(lang).cli_usage_ask@)
            } else {
                PlanV::Ask(
                    AskPlanV {
                        text,
                        options: if typed && picks.len() == 0 {
                            Seq::empty()
                        } else {
                            ask_options_text(lang, picks)
                        },
                        from: or_default(flag_value(rest, "--from"@), Seq::empty()),
                        id: flag_value(rest, "--id"@),
                        timeout: match flag_value(rest, "--timeout"@) {
                            Some(d) => duration_of(d),
                            None => None,
                        },
                        input: typed,
                        default: flag_value(rest, "--default"@),
                    },
                )
            }
        },
    }
}

/// `tama remind "text" --in 10m` (also written `tama lembrar "texto" --em
/// 10m`).
pub open spec fn remind_plan(lang: crate::i18n::Lang, rest: Seq<Seq<char>>) -> PlanV {
    let dur = match flag_value(rest, "--in"@) {
        Some(d) => Some(d),
        None => flag_value(rest, "--em"@),
    };
    match (positional_from(rest, 0), dur) {
        (Some(text), Some(dur)) => PlanV::Send(remind_text(text, dur)),
        _ => PlanV::Usage(table(lang).cli_usage_remind@),
    }
}

pub open spec fn timer_plan(lang: crate::i18n::Lang, rest: Seq<Seq<char>>) -> PlanV {
    match positional_from(rest, 0) {
        Some(dur) => PlanV::Send(timer_text(dur)),
        None => PlanV::Usage(table(lang).cli_usage_timer@),
    }
}

pub open spec fn action_plan(lang: crate::i18n::Lang, rest: Seq<Seq<char>>) -> PlanV {
    match positional_from(rest, 0) {
        Some(a) => PlanV::Send(action_text(a)),
        None => PlanV::Usage(table(lang).cli_usage_do@),
    }
}

pub open spec fn watch_plan(lang: crate::i18n::Lang, rest: Seq<Seq<char>>) -> PlanV {
    match watch_of(rest) {
        Some((from, args)) => PlanV::Watch { from, args },
        None => PlanV::Usage(table(lang).cli_usage_watch@),
    }
}

/// `tama pomodoro [work] [--break pause]`, 25m and 5m by default;
/// `tama pomodoro off` stops it.
pub open spec fn pomodoro_plan(lang: crate::i18n::Lang, rest: Seq<Seq<char>>) -> PlanV {
    let work = or_default(positional_from(rest, 0), "25m"@);
    if work == "off"@ {
        PlanV::Send(object_text(seq![("pomodoro"@, "off"@)]).push('\n'))
    } else {
        let pause = or_default(flag_value(rest, "--break"@), "5m"@);
        if duration_of(work) is None || duration_of(pause) is None {
            PlanV::Usage(table(lang).cli_usage_pomodoro@)
        } else {
            PlanV::Send(pomodoro_text(work, pause))
        }
    }
}

/// What the arguments (the program's name left out) ask for; `None` when
/// they name no subcommand, and the app opens instead.
pub open spec fn plan_of(lang: crate::i18n::Lang, args: Seq<Seq<char>>) -> Option<PlanV> {
    if args.len() == 0 {
        None
    } else {
        let cmd = args[0];
        let rest = args.skip(1);
        if cmd == "say"@ {
            Some(say_plan(lang, rest))
        } else if cmd == "ask"@ {
            Some(ask_plan(lang, rest))
        } else if cmd == "remind"@ || cmd == "lembrar"@ {
            Some(remind_plan(lang, rest))
        } else if cmd == "timer"@ {
            Some(timer_plan(lang, rest))
        } else if cmd == "do"@ {
            Some(action_plan(lang, rest))
        } else if cmd == "watch"@ {
            Some(watch_plan(lang, rest))
        } else if cmd == "pomodoro"@ {
            Some(pomodoro_plan(lang, rest))
        } else {
            None
        }
    }
}

fn usage(msg: &str) -> (r: Plan)
    ensures
        r@ == PlanV::Usage(msg@),
{
    Plan::Usage(msg.to_owned())
}

fn or_str(o: Option<String>, d: &str) -> (r: String)
    ensures
        r@ == or_default(opt_view(o), d@),
{
    match o {
        Some(v) => v,
        None => d.to_owned(),
    }
}

fn plan_say(lang: crate::i18n::Lang, rest: &[String]) -> (r: Plan)
    ensures
        r@ == say_plan(lang, string_views(rest@)),
{
    let Some(text) = positional(rest) else { return usage(t(lang).cli_usage_say) };
    let from = or_str(flag(rest, "--from"), "");
    let kind = or_str(flag(rest, "--type"), "info");
    proof {
        reveal_strlit("");
    }
    assert(""@ =~= Seq::<char>::empty());
    Plan::Send(say_line(text.as_str(), kind.as_str(), from.as_str()))
}

fn plan_ask(lang: crate::i18n::Lang, rest: &[String]) -> (r: Plan)
    ensures
        r@ == ask_plan(lang, string_views(rest@)),
{
    let Some(text) = positional(rest) else { return usage(t(lang).cli_usage_ask) };
    let typed = has_arg(rest, "--input");
    let picks = flags(rest, "--options");
    let options = if typed && picks.len() == 0 {
        String::new()
    } else {
        ask_options(lang, picks.as_slice())
    };
    let timeout = match flag(rest, "--timeout") {
        Some(d) => {
            let dc = chars_of(d.as_str());
            match duration_chars(dc.as_slice()) {
                Some(secs) => Some(secs),
                None => return usage(t(lang).cli_usage_ask),
            }
        },
        None => None,
    };
    let from = or_str(flag(rest, "--from"), "");
    proof {
        reveal_strlit("");
    }
    assert(""@ =~= Seq::<char>::empty());
    Plan::Ask(
        AskPlan {
            text,
            options,
            from,
            id: flag(rest, "--id"),
            timeout,
            input: typed,
            default: flag(rest, "--default"),
        },
    )
}

fn plan_remind(lang: crate::i18n::Lang, rest: &[String]) -> (r: Plan)
    ensures
        r@ == remind_plan(lang, string_views(rest@)),
{
    let dur = match flag(rest, "--in") {
        Some(d) => Some(d),
        None => flag(rest, "--em"),
    };
    match (positional(rest), dur) {
        (Some(text), Some(dur)) => Plan::Send(object2("remind", text.as_str(), "in", dur.as_str())),
        _ => usage(t(lang).cli_usage_remind),
    }
}

fn plan_timer(lang: crate::i18n::Lang, rest: &[String]) -> (r: Plan)
    ensures
        r@ == timer_plan(lang, string_views(rest@)),
{
    match positional(rest) {
        Some(dur) => Plan::Send(object1("timer", dur.as_str())),
        None => usage(t(lang).cli_usage_timer),
    }
}

fn plan_action(lang: crate::i18n::Lang, rest: &[String]) -> (r: Plan)
    ensures
        r@ == action_plan(lang, string_views(rest@)),
{
    match positional(rest) {
        Some(a) => Plan::Send(object1("command", a.as_str())),
        None => usage(t(lang).cli_usage_do),
    }
}

fn plan_watch(lang: crate::i18n::Lang, rest: &[String]) -> (r: Plan)
    ensures
        r@ == watch_plan(lang, string_views(rest@)),
{
    match watch_parse(rest) {
        Some((from, args)) => Plan::Watch { from, args },
        None => usage(t(lang).cli_usage_watch),
    }
}

fn plan_pomodoro(lang: crate::i18n::Lang, rest: &[String]) -> (r: Plan)
    ensures
        r@ == pomodoro_plan(lang, string_views(rest@)),
{
    let work = or_str(positional(rest), "25m");
    if str_eq(work.as_str(), "off") {
        return Plan::Send(object1("pomodoro", "off"));
    }
    let pause = or_str(flag(rest, "--break"), "5m");
    let wc = chars_of(work.as_str());
    let pc = chars_of(pause.as_str());
    if duration_chars(wc.as_slice()).is_none() || duration_chars(pc.as_slice()).is_none() {
        return usage(t(lang).cli_usage_pomodoro);
    }
    Plan::Send(object2("pomodoro", work.as_str(), "break", pause.as_str()))
}

/// What the command line asks for; `None` runs the app.
pub fn run(lang: Lang, args: &[String]) -> (r: Option<Plan>)
    ensures
        match r {
            Some(p) => plan_of(lang, string_views(args@)) == Some(p@),
            None => plan_of(lang, string_views(args@)) is None,
        },
{
    if args.len() == 0 {
        return None;
    }
    let rest = copy_from(args, 1);
    let cmd = args[0].as_str();
    assert(string_views(args@)[0] == cmd@);
    if str_eq(cmd, "say") {
        Some(plan_say(lang, rest.as_slice()))
    } else if str_eq(cmd, "ask") {
        Some(plan_ask(lang, rest.as_slice()))
    } else if str_eq(cmd, "remind") || str_eq(cmd, "lembrar") {
        Some(plan_remind(lang, rest.as_slice()))
    } else if str_eq(cmd, "timer") {
        Some(plan_timer(lang, rest.as_slice()))
    } else if str_eq(cmd, "do") {
        Some(plan_action(lang, rest.as_slice()))
    } else if str_eq(cmd, "watch") {
        Some(plan_watch(lang, rest.as_slice()))
    } else if str_eq(cmd, "pomodoro") {
        Some(plan_pomodoro(lang, rest.as_slice()))
    } else {
        None
    }
}

} // verus!

verus! {

// ---------------------------------------------------------------------------
// Carrying out a plan

/// An ask ready to send.
pub struct AskRequest {
    pub id: String,
    pub deadline: Option<u64>,
    pub line: String,
}

/// The id an ask gets when its sender chose none.
pub open spec fn default_ask_id(now: u64, pid: u32) -> Seq<char> {
    "ask-"@ + dec(now as nat) + seq!['-'] + dec(pid as nat)
}

/// The id, deadline and wire line of an ask sent at `now` by process `pid`.
pub fn ask_request(plan: &AskPlan, now: u64, pid: u32) -> (r: AskRequest)
    requires
        plan.timeout matches Some(s) ==> now + s <= u64::MAX,
    ensures
        r.id@ == or_default(opt_view(plan.id), default_ask_id(now, pid)),
        r.deadline == match plan.timeout {
            Some(s) => Some((now + s) as u64),
            None => None,
        },
        r.line@ == ask_text(plan.text@, plan.options@, r.id@, plan.from@, r.deadline, plan.input),
{
    let id = match &plan.id {
        Some(id) => id.as_str().to_owned(),
        None => {
            let mut v: Vec<char> = Vec::new();
            push_str(&mut v, "ask-");
            push_dec(&mut v, now);
            v.push('-');
            push_dec(&mut v, pid as u64);
            assert(v@ =~= default_ask_id(now, pid));
            string_of(v.as_slice())
        },
    };
    let deadline = match plan.timeout {
        Some(s) => Some(now + s),
        None => None,
    };
    let line = ask_line(
        plan.text.as_str(),
        plan.options.as_str(),
        id.as_str(),
        plan.from.as_str(),
        deadline,
        plan.input,
    );
    AskRequest { id, deadline, line }
}

/// How `tama ask` ends: the answer, or the default when nobody answered in
/// time, printed with exit code 0; neither gives exit code 124.
pub fn ask_outcome(answer: Option<String>, default: Option<String>) -> (r: (Option<String>, i32))
    ensures
        opt_view(r.0) == match opt_view(answer) {
            Some(a) => Some(a),
            None => opt_view(default),
        },
        r.1 == if answer is Some || default is Some {
            0i32
        } else {
            124i32
        },
{
    match answer {
        Some(a) => (Some(a), 0),
        None => match default {
            Some(d) => (Some(d), 0),
            None => (None, 124),
        },
    }
}

/// How a watched command ended.
pub enum WatchEnd {
    Success,
    /// It failed, with its exit code when it had one.
    Failure(Option<i32>),
    /// It could not be started; the error as text.
    NotRun(String),
}

/// The command as shown: its arguments joined by spaces.
pub fn command_text(args: &[String]) -> (r: String)
    ensures
        r@ == join_with(string_views(args@), ' '),
{
    let mut parts: Vec<Vec<char>> = Vec::new();
    let ghost av = string_views(args@);
    let mut i: usize = 0;
    while i < args.len()
        invariant
            i <= args.len(),
            av == string_views(args@),
            crate::text::views(parts@) == av.take(i as int),
        decreases args.len() - i,
    {
        let ghost before = crate::text::views(parts@);
        parts.push(chars_of(args[i].as_str()));
        assert(crate::text::views(parts@) =~= before.push(av[i as int]));
        assert(av.take(i + 1) =~= av.take(i as int).push(av[i as int]));
        i = i + 1;
    }
    assert(av.take(args.len() as int) =~= av);
    let v = join_chars(&parts, ' ');
    string_of(v.as_slice())
}

/// The line announcing that `cmd` started.
pub fn watch_start_line(lang: crate::i18n::Lang, from: &str, cmd: &str) -> (r: String)
    ensures
        r@ == say_text(
            crate::i18n::fill_text(table(lang).msg_watch_start@, seq![("cmd"@, cmd@)]),
            "info"@,
            from@,
        ),
{
    let text = crate::i18n::msg_watch_start(lang, cmd);
    say_line(text.as_str(), "info", from)
}

/// The line reporting how `cmd` ended after `secs` seconds, and the exit
/// code to pass on: 0 on success, the command's own code on failure (1 when
/// it had none), 127 when it could not be run.
pub fn watch_report(lang: crate::i18n::Lang, from: &str, cmd: &str, end: WatchEnd, secs: u64) -> (r: (String, i32))
    ensures
        match end {
            WatchEnd::Success => r.0@ == say_text(
                crate::i18n::fill_text(
                    table(lang).msg_watch_ok@,
                    seq![("cmd"@, cmd@), ("secs"@, crate::i18n::secs_text(secs))],
                ),
                "success"@,
                from@,
            ) && r.1 == 0,
            WatchEnd::Failure(c) => {
                let code = match c {
                    Some(c) => c,
                    None => 1i32,
                };
                r.0@ == say_text(
                    crate::i18n::fill_text(
                        table(lang).msg_watch_fail@,
                        seq![
                            ("cmd"@, cmd@),
                            ("code"@, crate::i18n::int_text(code as int)),
                            ("secs"@, crate::i18n::secs_text(secs)),
                        ],
                    ),
                    "error"@,
                    from@,
                ) && r.1 == code
            },
            WatchEnd::NotRun(e) => r.0@ == say_text(cmd@ + ": "@ + e@, "error"@, from@) && r.1
                == 127,
        },
{
    match end {
        WatchEnd::Success => {
            let text = crate::i18n::msg_watch_ok(lang, cmd, secs);
            (say_line(text.as_str(), "success", from), 0)
        },
        WatchEnd::Failure(c) => {
            let code = match c {
                Some(c) => c,
                None => 1,
            };
            let text = crate::i18n::msg_watch_fail(lang, cmd, code, secs);
            (say_line(text.as_str(), "error", from), code)
        },
        WatchEnd::NotRun(e) => {
            let mut v: Vec<char> = chars_of(cmd);
            push_str(&mut v, ": ");
            push_str(&mut v, e.as_str());
            let text = string_of(v.as_slice());
            assert(text@ =~= cmd@ + ": "@ + e@);
            (say_line(text.as_str(), "error", from), 127)
        },
    }
}

} // verus!

verus! {

proof fn lemma_concat_lacks(a: Seq<char>, b: Seq<char>, c: char)
    requires
        !a.contains(c),
        !b.contains(c),
    ensures
        !(a + b).contains(c),
{
    if (a + b).contains(c) {
        let k = choose|k: int| 0 <= k < (a + b).len() && (a + b)[k] == c;
        if k < a.len() {
            assert(a[k] == c);
        } else {
            assert(b[k - a.len()] == c);
        }
    }
}

proof fn lemma_lit_lacks(s: Seq<char>, c: char)
    requires
        forall|i: int| 0 <= i < s.len() ==> s[i] != c,
    ensures
        !s.contains(c),
{
}

proof fn lemma_member_one_line(k: Seq<char>, v: Seq<char>)
    ensures
        !member_text(k, v).contains('\n'),
{
    crate::assistant::lemma_escape_no_newline(k);
    crate::assistant::lemma_escape_no_newline(v);
    lemma_lit_lacks(seq!['"'], '\n');
    lemma_lit_lacks(seq!['"', ':', '"'], '\n');
    lemma_concat_lacks(seq!['"'], escape(k), '\n');
    lemma_concat_lacks(seq!['"'] + escape(k), seq!['"', ':', '"'], '\n');
    lemma_concat_lacks(seq!['"'] + escape(k) + seq!['"', ':', '"'], escape(v), '\n');
    lemma_concat_lacks(
        seq!['"'] + escape(k) + seq!['"', ':', '"'] + escape(v),
        seq!['"'],
        '\n',
    );
}

proof fn lemma_members_one_line(ps: Seq<(Seq<char>, Seq<char>)>)
    ensures
        !members_text(ps).contains('\n'),
    decreases ps.len(),
{
    if ps.len() == 1 {
        lemma_member_one_line(ps[0].0, ps[0].1);
    } else if ps.len() > 1 {
        lemma_member_one_line(ps[0].0, ps[0].1);
        lemma_members_one_line(ps.drop_first());
        lemma_lit_lacks(seq![','], '\n');
        lemma_concat_lacks(member_text(ps[0].0, ps[0].1), seq![','], '\n');
        lemma_concat_lacks(
            member_text(ps[0].0, ps[0].1) + seq![','],
            members_text(ps.drop_first()),
            '\n',
        );
    }
}

/// An object written on one line reads back as that one line.
pub proof fn lemma_object_line(ps: Seq<(Seq<char>, Seq<char>)>)
    ensures
        crate::text::lines(object_text(ps).push('\n')) == seq![object_text(ps)],
{
    let obj = object_text(ps);
    lemma_members_one_line(ps);
    lemma_lit_lacks(seq!['{'], '\n');
    lemma_lit_lacks(seq!['}'], '\n');
    lemma_concat_lacks(seq!['{'], members_text(ps), '\n');
    lemma_concat_lacks(seq!['{'] + members_text(ps), seq!['}'], '\n');
    crate::assistant::lemma_split_no_sep(obj, '\n');
    let t = obj.push('\n');
    assert(t.drop_last() =~= obj);
    let parts = split_on(t, '\n');
    assert(parts == seq![obj].push(Seq::<char>::empty()));
    assert(parts.drop_last() =~= seq![obj]);
    assert(obj.last() == '}');
    assert(crate::text::strip_cr(obj) == obj);
    assert(parts.drop_last().map_values(|p: Seq<char>| crate::text::strip_cr(p)) =~= seq![obj]);
}

/// What `tama say` writes is what the app reads: one line holding one spoken
/// message with the text and sender given, of the kind the type names — for
/// every text, type and sender that is not a lone comma or colon.
pub proof fn law_say_read_back(lang: crate::i18n::Lang, text: Seq<char>, kind: Seq<char>, from: Seq<char>, now: u64)
    requires
        text != seq![','],
        text != seq![':'],
        kind != seq![','],
        kind != seq![':'],
        from != seq![','],
        from != seq![':'],
    ensures
        crate::text::lines(say_text(text, kind, from)).len() == 1,
        crate::assistant::msgs_of(lang, crate::text::lines(say_text(text, kind, from))[0], now) == seq![
            crate::assistant::MsgV::Say { text, from, kind: crate::assistant::kind_of(kind) },
        ],
{
    let ps = seq![("message"@, text), ("type"@, kind), ("from"@, from)];
    lemma_object_line(ps);
    reveal_strlit("message");
    reveal_strlit("type");
    reveal_strlit("from");
    reveal_strlit("command");
    reveal_strlit("actions");
    reveal_strlit("input");
    assert(crate::json::readable_members(ps)) by {
        assert("message"@.len() == 7);
        assert("type"@.len() == 4);
        assert("from"@.len() == 4);
    }
    crate::json::lemma_read_written_object(ps);
    let f = ps;
    assert("message"@ != "command"@) by {
        assert("message"@[0] != "command"@[0]);
    }
    assert("type"@ != "command"@) by {
        assert("type"@.len() == 4);
        assert("command"@.len() == 7);
    }
    assert("from"@ != "command"@) by {
        assert("from"@.len() == 4);
        assert("command"@.len() == 7);
    }
    let f1 = f.drop_first();
    let f2 = f1.drop_first();
    let f3 = f2.drop_first();
    assert(f1 =~= seq![("type"@, kind), ("from"@, from)]);
    assert(f2 =~= seq![("from"@, from)]);
    assert(f3 =~= Seq::<(Seq<char>, Seq<char>)>::empty());
    assert(crate::json::get_field(f3, "command"@) is None);
    assert(crate::json::get_field(f2, "command"@) is None);
    assert(crate::json::get_field(f1, "command"@) is None);
    assert(crate::json::get_field(f, "command"@) is None);
    assert(crate::json::get_field(f, "message"@) == Some(text));
    assert("type"@ != "from"@) by {
        assert("type"@[0] != "from"@[0]);
    }
    assert("message"@ != "from"@);
    assert(crate::json::get_field(f2, "from"@) == Some(from));
    assert(crate::json::get_field(f1, "from"@) == Some(from));
    assert(crate::json::get_field(f, "from"@) == Some(from));
    assert("message"@ != "type"@);
    assert(crate::json::get_field(f1, "type"@) == Some(kind));
    assert(crate::json::get_field(f, "type"@) == Some(kind));
    assert("message"@ != "actions"@) by {
        assert("message"@[0] != "actions"@[0]);
    }
    assert("type"@ != "actions"@);
    assert("from"@ != "actions"@);
    assert(crate::json::get_field(f3, "actions"@) is None);
    assert(crate::json::get_field(f2, "actions"@) is None);
    assert(crate::json::get_field(f1, "actions"@) is None);
    assert(crate::json::get_field(f, "actions"@) is None);
    assert("message"@ != "input"@);
    assert("input"@.len() == 5);
    assert("type"@ != "input"@);
    assert("from"@ != "input"@);
    assert(crate::json::get_field(f3, "input"@) is None);
    assert(crate::json::get_field(f2, "input"@) is None);
    assert(crate::json::get_field(f1, "input"@) is None);
    assert(crate::json::get_field(f, "input"@) is None);
}

/// The default focus and break lengths read as 25 and 5 minutes.
proof fn lemma_default_durations()
    ensures
        duration_of("25m"@) == Some(1500u64),
        duration_of("5m"@) == Some(300u64),
{
    reveal_strlit("25m");
    reveal_strlit("5m");
    let a = "25m"@;
    assert(a =~= seq!['2', '5', 'm']);
    assert(!crate::text::is_ws(a[0]) && !crate::text::is_ws(a.last()));
    assert(crate::text::trim_start(a) == a);
    assert(trim(a) == a);
    let d = a.drop_last();
    assert(d =~= seq!['2', '5']);
    assert(d.drop_last() =~= seq!['2']);
    assert(seq!['2'].drop_last() =~= Seq::<char>::empty());
    assert(crate::text::digit_val('2') == 2);
    assert(crate::text::digit_val('5') == 5);
    assert(seq!['2'].last() == '2');
    assert(crate::text::digits_val(Seq::<char>::empty()) == 0);
    assert(crate::text::digits_val(seq!['2']) == 2);
    assert(crate::text::digits_val(d) == 25);
    assert(crate::text::all_digits(d));
    assert(crate::text::parse_uint(d) == Some(25nat));
    let b = "5m"@;
    assert(b =~= seq!['5', 'm']);
    assert(!crate::text::is_ws(b[0]) && !crate::text::is_ws(b.last()));
    assert(crate::text::trim_start(b) == b);
    assert(trim(b) == b);
    let e = b.drop_last();
    assert(e =~= seq!['5']);
    assert(e.drop_last() =~= Seq::<char>::empty());
    assert(crate::text::digits_val(e) == 5);
    assert(crate::text::all_digits(e));
    assert(crate::text::parse_uint(e) == Some(5nat));
}

/// A lone comma or colon is no duration.
proof fn lemma_punct_no_duration(c: char)
    requires
        c == ',' || c == ':',
    ensures
        duration_of(seq![c]) is None,
{
    let a = seq![c];
    assert(!crate::text::is_ws(c));
    assert(crate::text::trim_start(a) == a);
    assert(trim(a) == a);
    assert(a.drop_last() =~= Seq::<char>::empty());
    assert(crate::text::parse_uint(a.drop_last()) is None);
}

/// What `tama pomodoro [W] [--break B]` writes is what the app reads: one line
/// holding one pomodoro whose focus lasts W (25 minutes when no W is given)
/// and whose break lasts B (5 minutes when no `--break` is given), for every
/// W other than `off` and every B that read as durations.
pub proof fn law_pomodoro_read_back(lang: crate::i18n::Lang, rest: Seq<Seq<char>>, now: u64)
    requires
        positional_from(rest, 0) != Some("off"@),
        positional_from(rest, 0) matches Some(w) ==> duration_of(w) is Some,
        flag_value(rest, "--break"@) matches Some(b) ==> duration_of(b) is Some,
    ensures
        pomodoro_plan(lang, rest) is Send,
        crate::text::lines(pomodoro_plan(lang, rest)->Send_0).len() == 1,
        crate::assistant::msgs_of(lang, crate::text::lines(pomodoro_plan(lang, rest)->Send_0)[0], now)
            == seq![
            crate::assistant::MsgV::Pomodoro {
                work: match positional_from(rest, 0) {
                    Some(w) => duration_of(w)->Some_0,
                    None => 1500u64,
                },
                rest: match flag_value(rest, "--break"@) {
                    Some(b) => duration_of(b)->Some_0,
                    None => 300u64,
                },
            },
        ],
{
    lemma_default_durations();
    reveal_strlit("25m");
    reveal_strlit("off");
    let work = or_default(positional_from(rest, 0), "25m"@);
    let pause = or_default(flag_value(rest, "--break"@), "5m"@);
    assert(work != "off"@) by {
        assert("25m"@[0] != "off"@[0]);
    }
    assert(duration_of(work) is Some);
    assert(duration_of(pause) is Some);
    assert(pomodoro_plan(lang, rest) == PlanV::Send(pomodoro_text(work, pause)));
    let ps = seq![("pomodoro"@, work), ("break"@, pause)];
    lemma_object_line(ps);
    reveal_strlit("pomodoro");
    reveal_strlit("break");
    reveal_strlit("message");
    reveal_strlit("progress");
    reveal_strlit("remind");
    reveal_strlit("timer");
    reveal_strlit("command");
    if work == seq![','] || work == seq![':'] {
        lemma_punct_no_duration(work[0]);
        assert(work =~= seq![work[0]]);
    }
    if pause == seq![','] || pause == seq![':'] {
        lemma_punct_no_duration(pause[0]);
        assert(pause =~= seq![pause[0]]);
    }
    assert(crate::json::readable_members(ps)) by {
        assert("pomodoro"@.len() == 8);
        assert("break"@.len() == 5);
    }
    crate::json::lemma_read_written_object(ps);
    let f = ps;
    let f1 = f.drop_first();
    let f2 = f1.drop_first();
    assert(f1 =~= seq![("break"@, pause)]);
    assert(f2 =~= Seq::<(Seq<char>, Seq<char>)>::empty());
    assert("pomodoro"@ != "command"@) by {
        assert("pomodoro"@[0] != "command"@[0]);
    }
    assert("break"@ != "command"@) by {
        assert("break"@.len() == 5);
        assert("command"@.len() == 7);
    }
    assert(crate::json::get_field(f2, "command"@) is None);
    assert(crate::json::get_field(f1, "command"@) is None);
    assert(crate::json::get_field(f, "command"@) is None);
    assert("pomodoro"@ != "message"@);
    assert("break"@ != "message"@) by {
        assert("message"@.len() == 7);
    }
    assert(crate::json::get_field(f2, "message"@) is None);
    assert(crate::json::get_field(f1, "message"@) is None);
    assert(crate::json::get_field(f, "message"@) is None);
    assert("pomodoro"@ != "progress"@) by {
        assert("pomodoro"@[2] != "progress"@[2]);
    }
    assert("break"@ != "progress"@);
    assert(crate::json::get_field(f2, "progress"@) is None);
    assert(crate::json::get_field(f1, "progress"@) is None);
    assert(crate::json::get_field(f, "progress"@) is None);
    assert("pomodoro"@ != "remind"@);
    assert("break"@ != "remind"@);
    assert(crate::json::get_field(f2, "remind"@) is None);
    assert(crate::json::get_field(f1, "remind"@) is None);
    assert(crate::json::get_field(f, "remind"@) is None);
    assert("pomodoro"@ != "timer"@);
    assert("break"@ != "timer"@) by {
        assert("break"@[0] != "timer"@[0]);
    }
    assert(crate::json::get_field(f2, "timer"@) is None);
    assert(crate::json::get_field(f1, "timer"@) is None);
    assert(crate::json::get_field(f, "timer"@) is None);
    assert(crate::json::get_field(f, "pomodoro"@) == Some(work));
    assert("pomodoro"@ != "break"@);
    assert(crate::json::get_field(f1, "break"@) == Some(pause));
    assert(crate::json::get_field(f, "break"@) == Some(pause));
}

} // verus!
