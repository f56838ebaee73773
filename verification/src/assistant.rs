//! Assistant mode: external programs send one flat JSON object per line —
//! through the input pipe or an HTTP POST — and answers to questions go to
//! the output file, also as JSON lines. Invalid lines are rejected (the pipe
//! ignores them, HTTP answers 400).
//!
//! The schema is English (`message`, `from`, `actions`, ...); everything the
//! user reads stays in `i18n`.

use vstd::prelude::*;
use crate::json::{
    esc_char,
    escape, fields_chars, fields_of, get_chars, get_field, pair_views, push_escaped,
};
use crate::text::{
    chars_of, dec, lines, lines_of, parse_max, parse_uint_max, push_dec, push_str, split_chars,
    split_on, string_of, trim, trim_chars, views,
};

verus! {

/// Protocol value, not UI text: what a discarded ask answers to its caller.
pub const ANSWER_IGNORED: &'static str = "ignored";

/// What kind of message is being said; it picks the pet's expression.
#[derive(Debug, Clone, Copy, PartialEq, Eq, Structural)]
pub enum Kind {
    Info,
    Success,
    Warn,
    Error,
}

pub open spec fn kind_of(s: Seq<char>) -> Kind {
    if s == "success"@ {
        Kind::Success
    } else if s == "warn"@ {
        Kind::Warn
    } else if s == "error"@ {
        Kind::Error
    } else {
        Kind::Info
    }
}

impl Kind {
    /// The kind named by a wire `type` value; anything unknown is `Info`.
    pub fn from_id(s: &str) -> (k: Kind)
        ensures
            k == kind_of(s@),
    {
        let v = chars_of(s);
        Kind::from_chars(v.as_slice())
    }

    pub fn from_chars(s: &[char]) -> (k: Kind)
        ensures
            k == kind_of(s@),
    {
        if crate::text::chars_eq_str(s, "success") {
            Kind::Success
        } else if crate::text::chars_eq_str(s, "warn") {
            Kind::Warn
        } else if crate::text::chars_eq_str(s, "error") {
            Kind::Error
        } else {
            Kind::Info
        }
    }
}

/// One message off the wire.
#[derive(Debug, Clone, PartialEq)]
pub enum Msg {
    Say { text: String, from: String, kind: Kind },
    /// `input`: a typed answer is accepted — shown as one more numbered option.
    Ask {
        text: String,
        options: Vec<String>,
        id: String,
        from: String,
        expires: Option<u64>,
        input: bool,
    },
    Action(String),
    Progress { from: String, pct: u8 },
    Reminder { text: String, at: u64 },
    Timer { until: u64 },
    Pomodoro { work: u64, rest: u64 },
    PomodoroOff,
}

/// A message as plain values.
pub enum MsgV {
    Say { text: Seq<char>, from: Seq<char>, kind: Kind },
    Ask {
        text: Seq<char>,
        options: Seq<Seq<char>>,
        id: Seq<char>,
        from: Seq<char>,
        expires: Option<u64>,
        input: bool,
    },
    Action(Seq<char>),
    Progress { from: Seq<char>, pct: u8 },
    Reminder { text: Seq<char>, at: u64 },
    Timer { until: u64 },
    Pomodoro { work: u64, rest: u64 },
    PomodoroOff,
}

pub open spec fn string_views(v: Seq<String>) -> Seq<Seq<char>> {
    v.map_values(|s: String| s@)
}

impl View for Msg {
    type V = MsgV;

    open spec fn view(&self) -> MsgV {
        match self {
            Msg::Say { text, from, kind } => MsgV::Say { text: text@, from: from@, kind: *kind },
            Msg::Ask { text, options, id, from, expires, input } => MsgV::Ask {
                text: text@,
                options: string_views(options@),
                id: id@,
                from: from@,
                expires: *expires,
                input: *input,
            },
            Msg::Action(a) => MsgV::Action(a@),
            Msg::Progress { from, pct } => MsgV::Progress { from: from@, pct: *pct },
            Msg::Reminder { text, at } => MsgV::Reminder { text: text@, at: *at },
            Msg::Timer { until } => MsgV::Timer { until: *until },
            Msg::Pomodoro { work, rest } => MsgV::Pomodoro { work: *work, rest: *rest },
            Msg::PomodoroOff => MsgV::PomodoroOff,
        }
    }
}

pub open spec fn msg_views(v: Seq<Msg>) -> Seq<MsgV> {
    v.map_values(|m: Msg| m@)
}

// ---------------------------------------------------------------------------
// Durations

/// "30s", "10m", "1h" in seconds: a whole number and one unit letter, after
/// trimming. A value too large for a `u64` is not a duration.
pub open spec fn duration_of(s: Seq<char>) -> Option<u64> {
    let t = trim(s);
    if t.len() == 0 {
        None
    } else {
        match parse_max(t.drop_last(), u64::MAX as nat) {
            None => None,
            Some(n) => {
                let unit = t.last();
                if unit == 's' {
                    Some(n as u64)
                } else if unit == 'm' && n * 60 <= u64::MAX {
                    Some((n * 60) as u64)
                } else if unit == 'h' && n * 3600 <= u64::MAX {
                    Some((n * 3600) as u64)
                } else {
                    None
                }
            },
        }
    }
}

pub fn duration_chars(s: &[char]) -> (r: Option<u64>)
    ensures
        r == duration_of(s@),
{
    let t = trim_chars(s);
    if t.len() == 0 {
        return None;
    }
    let num = crate::text::slice_vec(t.as_slice(), 0, t.len() - 1);
    assert(num@ =~= t@.drop_last());
    let unit = t[t.len() - 1];
    match parse_uint_max(num.as_slice(), u64::MAX) {
        None => None,
        Some(n) => {
            if unit == 's' {
                Some(n)
            } else if unit == 'm' {
                n.checked_mul(60)
            } else if unit == 'h' {
                n.checked_mul(3600)
            } else {
                None
            }
        },
    }
}

/// "30s", "10m", "1h" → seconds.
pub fn parse_duration(s: &str) -> (r: Option<u64>)
    ensures
        r == duration_of(s@),
{
    let v = chars_of(s);
    duration_chars(v.as_slice())
}

// ---------------------------------------------------------------------------
// Messages

/// The options of an ask: the `\n`-separated entries, trimmed, empty ones
/// dropped.
pub open spec fn clean_options(parts: Seq<Seq<char>>) -> Seq<Seq<char>>
    decreases parts.len(),
{
    if parts.len() == 0 {
        Seq::empty()
    } else {
        let r = clean_options(parts.drop_last());
        let t = trim(parts.last());
        if t.len() > 0 {
            r.push(t)
        } else {
            r
        }
    }
}

pub open spec fn options_of(actions: Seq<char>) -> Seq<Seq<char>> {
    clean_options(split_on(actions, '\n'))
}

/// The options an ask gets when its sender named none.
pub open spec fn default_options(lang: crate::i18n::Lang) -> Seq<Seq<char>> {
    seq![crate::i18n::table(lang).default_yes@, crate::i18n::table(lang).default_no@]
}

pub open spec fn or_empty(o: Option<Seq<char>>) -> Seq<char> {
    match o {
        Some(s) => s,
        None => Seq::empty(),
    }
}

/// `now + d`, when it fits.
pub open spec fn later(now: u64, d: Option<u64>) -> Option<u64> {
    match d {
        Some(d) => if now + d <= u64::MAX {
            Some((now + d) as u64)
        } else {
            None
        },
        None => None,
    }
}

/// The message a line's fields describe, checked in this order: `message`
/// (an ask when it carries `actions` or `input: true`, speech otherwise),
/// `progress`, `remind`, `timer`, `pomodoro`.
pub open spec fn msg_of(lang: crate::i18n::Lang, f: Seq<(Seq<char>, Seq<char>)>, now: u64) -> Option<MsgV> {
    let from = or_empty(get_field(f, "from"@));
    if let Some(text) = get_field(f, "message"@) {
        let actions = get_field(f, "actions"@);
        let input = get_field(f, "input"@) == Some("true"@);
        if actions is Some || input {
            let options = options_of(or_empty(actions));
            Some(
                MsgV::Ask {
                    text,
                    options: if options.len() == 0 && !input {
                        default_options(lang)
                    } else {
                        options
                    },
                    id: match get_field(f, "id"@) {
                        Some(id) => id,
                        None => "ask-"@ + dec(now as nat),
                    },
                    from,
                    expires: match get_field(f, "expires"@) {
                        Some(e) => match parse_max(e, u64::MAX as nat) {
                            Some(v) => Some(v as u64),
                            None => None,
                        },
                        None => None,
                    },
                    input,
                },
            )
        } else {
            Some(MsgV::Say { text, from, kind: kind_of(or_empty(get_field(f, "type"@))) })
        }
    } else if let Some(p) = get_field(f, "progress"@) {
        match parse_max(p, u16::MAX as nat) {
            Some(v) => Some(MsgV::Progress { from, pct: if v > 100 { 100 } else { v as u8 } }),
            None => None,
        }
    } else if let Some(text) = get_field(f, "remind"@) {
        match get_field(f, "in"@) {
            Some(d) => match later(now, duration_of(d)) {
                Some(at) => Some(MsgV::Reminder { text, at }),
                None => None,
            },
            None => None,
        }
    } else if let Some(t) = get_field(f, "timer"@) {
        match later(now, duration_of(t)) {
            Some(until) => Some(MsgV::Timer { until }),
            None => None,
        }
    } else if let Some(p) = get_field(f, "pomodoro"@) {
        if p == "off"@ {
            Some(MsgV::PomodoroOff)
        } else {
            let rest = match get_field(f, "break"@) {
                None => Some(300u64),
                Some(b) => duration_of(b),
            };
            match (rest, duration_of(p)) {
                (Some(rest), Some(work)) => Some(MsgV::Pomodoro { work, rest }),
                _ => None,
            }
        }
    } else {
        None
    }
}

/// Everything one line delivers: a pet `command` first, then the message.
pub open spec fn msgs_of(lang: crate::i18n::Lang, line: Seq<char>, now: u64) -> Seq<MsgV> {
    match fields_of(line) {
        None => Seq::empty(),
        Some(f) => {
            let cmd = match get_field(f, "command"@) {
                Some(c) => seq![MsgV::Action(c)],
                None => Seq::empty(),
            };
            match msg_of(lang, f, now) {
                Some(m) => cmd.push(m),
                None => cmd,
            }
        },
    }
}

fn clean_options_exec(actions: &[char]) -> (r: Vec<String>)
    ensures
        string_views(r@) == options_of(actions@),
{
    let parts = split_chars(actions, '\n');
    let ghost pv = views(parts@);
    let mut out: Vec<String> = Vec::new();
    let mut i: usize = 0;
    assert(string_views(out@) =~= clean_options(pv.take(0)));
    while i < parts.len()
        invariant
            i <= parts.len(),
            pv == views(parts@),
            string_views(out@) == clean_options(pv.take(i as int)),
        decreases parts.len() - i,
    {
        let t = trim_chars(parts[i].as_slice());
        assert(pv[i as int] == parts@[i as int]@);
        assert(pv.take(i + 1).drop_last() =~= pv.take(i as int));
        let ghost before = string_views(out@);
        if t.len() > 0 {
            let s = string_of(t.as_slice());
            out.push(s);
            assert(string_views(out@) =~= before.push(t@));
        }
        i = i + 1;
    }
    assert(pv.take(parts.len() as int) =~= pv);
    out
}

fn or_empty_exec(o: Option<Vec<char>>) -> (r: Vec<char>)
    ensures
        r@ == or_empty(match o {
            Some(v) => Some(v@),
            None => None,
        }),
{
    match o {
        Some(v) => v,
        None => Vec::new(),
    }
}

fn later_exec(now: u64, d: Option<u64>) -> (r: Option<u64>)
    ensures
        r == later(now, d),
{
    match d {
        Some(d) => now.checked_add(d),
        None => None,
    }
}

/// Builds the message from a line's fields.
pub fn msg_from_fields(lang: crate::i18n::Lang, f: &Vec<(Vec<char>, Vec<char>)>, now: u64) -> (r: Option<Msg>)
    ensures
        match r {
            Some(m) => msg_of(lang, pair_views(f@), now) == Some(m@),
            None => msg_of(lang, pair_views(f@), now) is None,
        },
{
    let ghost fv = pair_views(f@);
    let from = string_of(or_empty_exec(get_chars(f, "from")).as_slice());
    match get_chars(f, "message") {
        Some(text) => {
            let actions = get_chars(f, "actions");
            let input = match get_chars(f, "input") {
                Some(v) => crate::text::chars_eq_str(v.as_slice(), "true"),
                None => false,
            };
            if actions.is_some() || input {
                let options = clean_options_exec(or_empty_exec(actions).as_slice());
                let options = if options.len() == 0 && !input {
                    let mut d: Vec<String> = Vec::new();
                    let strings = crate::i18n::t(lang);
                    d.push(strings.default_yes.to_owned());
                    d.push(strings.default_no.to_owned());
                    assert(string_views(d@) =~= default_options(lang));
                    d
                } else {
                    options
                };
                let id = match get_chars(f, "id") {
                    Some(id) => string_of(id.as_slice()),
                    None => {
                        let mut v: Vec<char> = Vec::new();
                        push_str(&mut v, "ask-");
                        push_dec(&mut v, now);
                        string_of(v.as_slice())
                    },
                };
                let expires = match get_chars(f, "expires") {
                    Some(e) => parse_uint_max(e.as_slice(), u64::MAX),
                    None => None,
                };
                let m = Msg::Ask {
                    text: string_of(text.as_slice()),
                    options,
                    id,
                    from,
                    expires,
                    input,
                };
                Some(m)
            } else {
                let kind = Kind::from_chars(or_empty_exec(get_chars(f, "type")).as_slice());
                Some(Msg::Say { text: string_of(text.as_slice()), from, kind })
            }
        },
        None => {
            if let Some(p) = get_chars(f, "progress") {
                match parse_uint_max(p.as_slice(), 65535) {
                    Some(v) => {
                        let pct: u8 = if v > 100 {
                            100
                        } else {
                            v as u8
                        };
                        Some(Msg::Progress { from, pct })
                    },
                    None => None,
                }
            } else if let Some(text) = get_chars(f, "remind") {
                match get_chars(f, "in") {
                    Some(d) => match later_exec(now, duration_chars(d.as_slice())) {
                        Some(at) => Some(Msg::Reminder { text: string_of(text.as_slice()), at }),
                        None => None,
                    },
                    None => None,
                }
            } else if let Some(t) = get_chars(f, "timer") {
                match later_exec(now, duration_chars(t.as_slice())) {
                    Some(until) => Some(Msg::Timer { until }),
                    None => None,
                }
            } else if let Some(p) = get_chars(f, "pomodoro") {
                if crate::text::chars_eq_str(p.as_slice(), "off") {
                    Some(Msg::PomodoroOff)
                } else {
                    let rest = match get_chars(f, "break") {
                        None => Some(300u64),
                        Some(b) => duration_chars(b.as_slice()),
                    };
                    match (rest, duration_chars(p.as_slice())) {
                        (Some(rest), Some(work)) => Some(Msg::Pomodoro { work, rest }),
                        _ => None,
                    }
                }
            } else {
                None
            }
        },
    }
}

/// One line may carry a pet `command` AND a message; both are delivered.
pub fn parse_msgs(lang: crate::i18n::Lang, line: &str, now: u64) -> (r: Vec<Msg>)
    ensures
        msg_views(r@) == msgs_of(lang, line@, now),
{
    let chars = chars_of(line);
    let Some(f) = fields_chars(chars.as_slice()) else {
        let none: Vec<Msg> = Vec::new();
        assert(msg_views(none@) =~= Seq::<MsgV>::empty());
        return none;
    };
    let mut out: Vec<Msg> = Vec::new();
    if let Some(c) = get_chars(&f, "command") {
        out.push(Msg::Action(string_of(c.as_slice())));
    }
    let ghost before = msg_views(out@);
    if let Some(m) = msg_from_fields(lang, &f, now) {
        out.push(m);
        assert(msg_views(out@) =~= before.push(m@));
    }
    proof {
        let cmd = match get_field(pair_views(f@), "command"@) {
            Some(c) => seq![MsgV::Action(c)],
            None => Seq::<MsgV>::empty(),
        };
        assert(before =~= cmd);
    }
    out
}

/// Reads one line as a single message (the `command` field aside).
pub fn parse_line(lang: crate::i18n::Lang, line: &str, now: u64) -> (r: Option<Msg>)
    ensures
        match r {
            Some(m) => fields_of(line@) matches Some(f) && msg_of(lang, f, now) == Some(m@),
            None => fields_of(line@) matches Some(f) ==> msg_of(lang, f, now) is None,
        },
{
    let chars = chars_of(line);
    let f = fields_chars(chars.as_slice())?;
    msg_from_fields(lang, &f, now)
}

// ---------------------------------------------------------------------------
// The JSON surface, as strings

/// Splits a flat JSON object into (key, value) pairs. Quote-aware, handles
/// \" \\ \n \t \r escapes; an array of strings folds into ONE \n-separated
/// value (how options travel internally). Deeper nesting is not part of the
/// contract.
pub fn json_fields(line: &str) -> (r: Option<Vec<(String, String)>>)
    ensures
        match r {
            Some(v) => fields_of(line@) == Some(
                v@.map_values(|p: (String, String)| (p.0@, p.1@)),
            ),
            None => fields_of(line@) is None,
        },
{
    let chars = chars_of(line);
    let f = fields_chars(chars.as_slice())?;
    let mut out: Vec<(String, String)> = Vec::new();
    let mut i: usize = 0;
    let ghost fv = pair_views(f@);
    while i < f.len()
        invariant
            i <= f.len(),
            fv == pair_views(f@),
            out@.map_values(|p: (String, String)| (p.0@, p.1@)) == fv.take(i as int),
        decreases f.len() - i,
    {
        let ghost before = out@.map_values(|p: (String, String)| (p.0@, p.1@));
        let k = string_of(f[i].0.as_slice());
        let v = string_of(f[i].1.as_slice());
        out.push((k, v));
        i = i + 1;
        assert(out@.map_values(|p: (String, String)| (p.0@, p.1@)) =~= before.push(
            (f@[i - 1].0@, f@[i - 1].1@),
        ));
        assert(fv.take(i as int) =~= fv.take((i - 1) as int).push(fv[i - 1]));
    }
    assert(fv.take(f.len() as int) =~= fv);
    Some(out)
}

/// Text made safe to sit between JSON quotes.
pub fn json_escape(s: &str) -> (r: String)
    ensures
        r@ == escape(s@),
{
    let chars = chars_of(s);
    let mut v: Vec<char> = Vec::new();
    push_escaped(&mut v, chars.as_slice());
    assert(v@ =~= escape(s@));
    string_of(v.as_slice())
}

/// The line that answers ask `id` with `answer`.
pub open spec fn answer_text(id: Seq<char>, answer: Seq<char>) -> Seq<char> {
    crate::json::object_text(seq![("id"@, id), ("answer"@, answer)]).push('\n')
}

/// The answer line for ask `id`, newline-terminated.
pub fn answer_line(id: &str, answer: &str) -> (r: String)
    ensures
        r@ == answer_text(id@, answer@),
{
    let mut v: Vec<char> = Vec::new();
    push_str(&mut v, "{\"id\":\"");
    push_escaped(&mut v, chars_of(id).as_slice());
    push_str(&mut v, "\",\"answer\":\"");
    push_escaped(&mut v, chars_of(answer).as_slice());
    push_str(&mut v, "\"}\n");
    proof {
        reveal_strlit("{\"id\":\"");
        reveal_strlit("\",\"answer\":\"");
        reveal_strlit("\"}\n");
        reveal_strlit("id");
        reveal_strlit("answer");
        reveal_with_fuel(crate::json::members_text, 3);
        crate::json::lemma_escape_plain("id"@);
        crate::json::lemma_escape_plain("answer"@);
        assert(v@ =~= answer_text(id@, answer@));
    }
    string_of(v.as_slice())
}

/// The answer to `id` in a content of answer lines: the first line that
/// parses and names `id` gives its `answer` (empty when it has none).
pub open spec fn answer_in(ls: Seq<Seq<char>>, id: Seq<char>) -> Option<Seq<char>>
    decreases ls.len(),
{
    if ls.len() == 0 {
        None
    } else {
        match fields_of(ls[0]) {
            Some(f) if get_field(f, "id"@) == Some(id) => Some(or_empty(get_field(f, "answer"@))),
            _ => answer_in(ls.drop_first(), id),
        }
    }
}

/// Finds the answer to `id` in the output file's content.
pub fn find_answer(content: &str, id: &str) -> (r: Option<String>)
    ensures
        match r {
            Some(a) => answer_in(lines(content@), id@) == Some(a@),
            None => answer_in(lines(content@), id@) is None,
        },
{
    let ls = lines_of(chars_of(content).as_slice());
    let idc = chars_of(id);
    let ghost lv = views(ls@);
    let mut i: usize = 0;
    assert(lv.skip(0) =~= lv);
    while i < ls.len()
        invariant
            i <= ls.len(),
            lv == views(ls@),
            lv == lines(content@),
            idc@ == id@,
            answer_in(lv, id@) == answer_in(lv.skip(i as int), id@),
        decreases ls.len() - i,
    {
        let ghost rest = lv.skip(i as int);
        assert(lv.len() == ls.len());
        assert(rest.len() > 0);
        assert(rest[0] == ls@[i as int]@);
        assert(rest.drop_first() =~= lv.skip(i + 1));
        if let Some(f) = fields_chars(ls[i].as_slice()) {
            if let Some(got) = get_chars(&f, "id") {
                if crate::text::chars_eq(got.as_slice(), idc.as_slice()) {
                    let a = or_empty_exec(get_chars(&f, "answer"));
                    assert(fields_of(rest[0]) == Some(pair_views(f@)));
                    assert(get_field(pair_views(f@), "id"@) == Some(id@));
                    assert(answer_in(rest, id@) == Some(a@));
                    return Some(string_of(a.as_slice()));
                }
            }
        }
        i = i + 1;
    }
    None
}

/// One poll of the output file while waiting for the answer to `id`:
/// `Some(Some(answer))` once it is there, `Some(None)` once `deadline` has
/// passed without it, `None` to look again later.
pub fn wait_step(content: &str, id: &str, deadline: Option<u64>, now: u64) -> (r: Option<Option<String>>)
    ensures
        match answer_in(lines(content@), id@) {
            Some(a) => r matches Some(Some(x)) && x@ == a,
            None => match deadline {
                Some(d) => if now >= d {
                    r == Some(None::<String>)
                } else {
                    r is None
                },
                None => r is None,
            },
        },
{
    match find_answer(content, id) {
        Some(a) => Some(Some(a)),
        None => match deadline {
            Some(d) => if now >= d {
                Some(None)
            } else {
                None
            },
            None => None,
        },
    }
}

/// Seconds since the Unix epoch, from the system clock.
pub fn now_epoch() -> u64 {
    crate::pet::now()
}

} // verus!

verus! {

pub proof fn lemma_split_no_sep(s: Seq<char>, sep: char)
    requires
        !s.contains(sep),
    ensures
        split_on(s, sep) == seq![s],
    decreases s.len(),
{
    if s.len() > 0 {
        assert(!s.drop_last().contains(sep)) by {
            if s.drop_last().contains(sep) {
                let k = choose|k: int| 0 <= k < s.drop_last().len() && s.drop_last()[k] == sep;
                assert(s[k] == sep);
            }
        }
        lemma_split_no_sep(s.drop_last(), sep);
        assert(s[s.len() - 1] != sep);
        assert(s.drop_last().push(s.last()) =~= s);
        assert(seq![s.drop_last()].update(0, s.drop_last().push(s.last())) =~= seq![s]);
    } else {
        assert(s =~= Seq::<char>::empty());
        assert(seq![Seq::<char>::empty()] =~= seq![s]);
    }
}

pub proof fn lemma_escape_no_newline(s: Seq<char>)
    ensures
        !escape(s).contains('\n'),
    decreases s.len(),
{
    if s.len() > 0 {
        lemma_escape_no_newline(s.drop_last());
        let e = esc_char(s.last());
        assert(!e.contains('\n'));
        assert forall|k: int| 0 <= k < escape(s).len() implies escape(s)[k] != '\n' by {
            let a = escape(s.drop_last());
            if k < a.len() {
                assert(escape(s)[k] == a[k]);
            } else {
                assert(escape(s)[k] == e[k - a.len()]);
            }
        }
    }
}

/// The answer line's characters before its newline.
proof fn lemma_answer_line_shape(id: Seq<char>, answer: Seq<char>)
    ensures
        lines(answer_text(id, answer)) == seq![
            crate::json::object_text(seq![("id"@, id), ("answer"@, answer)]),
        ],
        !crate::json::object_text(seq![("id"@, id), ("answer"@, answer)]).contains('\n'),
{
    let obj = crate::json::object_text(seq![("id"@, id), ("answer"@, answer)]);
    reveal_with_fuel(crate::json::members_text, 3);
    lemma_escape_no_newline(id);
    lemma_escape_no_newline(answer);
    lemma_escape_no_newline("id"@);
    lemma_escape_no_newline("answer"@);
    assert(!obj.contains('\n')) by {
        let m1 = crate::json::member_text("id"@, id);
        let m2 = crate::json::member_text("answer"@, answer);
        assert(obj =~= seq!['{'] + m1 + seq![','] + m2 + seq!['}']);
        assert forall|k: int| 0 <= k < obj.len() implies obj[k] != '\n' by {
            let e1 = escape("id"@);
            let e2 = escape(id);
            let e3 = escape("answer"@);
            let e4 = escape(answer);
            assert(m1 =~= seq!['"'] + e1 + seq!['"', ':', '"'] + e2 + seq!['"']);
            assert(m2 =~= seq!['"'] + e3 + seq!['"', ':', '"'] + e4 + seq!['"']);
            if k > 0 && k < obj.len() - 1 {
                let j = k - 1;
                if j < m1.len() {
                    assert(obj[k] == m1[j]);
                    if 1 <= j < 1 + e1.len() {
                        assert(m1[j] == e1[j - 1]);
                    } else if 4 + e1.len() <= j < 4 + e1.len() + e2.len() {
                        assert(m1[j] == e2[j - 4 - e1.len()]);
                    }
                } else if j > m1.len() {
                    let j2 = j - m1.len() - 1;
                    assert(obj[k] == m2[j2]);
                    if 1 <= j2 < 1 + e3.len() {
                        assert(m2[j2] == e3[j2 - 1]);
                    } else if 4 + e3.len() <= j2 < 4 + e3.len() + e4.len() {
                        assert(m2[j2] == e4[j2 - 4 - e3.len()]);
                    }
                }
            }
        }
    }
    lemma_split_no_sep(obj, '\n');
    let t = answer_text(id, answer);
    assert(t.drop_last() =~= obj);
    let parts = split_on(t, '\n');
    assert(parts == seq![obj].push(Seq::<char>::empty()));
    assert(parts.drop_last() =~= seq![obj]);
    assert(obj.last() == '}');
    assert(strip_cr_is_identity(obj));
    assert(parts.drop_last().map_values(|p: Seq<char>| crate::text::strip_cr(p)) =~= seq![obj]);
}

spec fn strip_cr_is_identity(s: Seq<char>) -> bool {
    crate::text::strip_cr(s) == s
}

/// What a read gives back of a write: the answer line written for ask `id`
/// is found again under `id`, with the answer unchanged — for every id and
/// answer that are not a lone comma or colon.
pub proof fn law_answer_read_back(id: Seq<char>, answer: Seq<char>)
    requires
        id != seq![','],
        id != seq![':'],
        answer != seq![','],
        answer != seq![':'],
    ensures
        answer_in(lines(answer_text(id, answer)), id) == Some(answer),
{
    let ps = seq![("id"@, id), ("answer"@, answer)];
    lemma_answer_line_shape(id, answer);
    reveal_strlit("id");
    reveal_strlit("answer");
    assert(crate::json::readable_members(ps)) by {
        assert("id"@ != seq![',']) by {
            assert("id"@.len() == 2);
        }
        assert("answer"@ != seq![',']) by {
            assert("answer"@.len() == 6);
        }
    }
    crate::json::lemma_read_written_object(ps);
    let ls = lines(answer_text(id, answer));
    assert(ls.len() == 1);
    assert(get_field(ps, "id"@) == Some(id));
    assert("answer"@ != "id"@) by {
        assert("answer"@.len() == 6);
    }
    assert(get_field(ps.drop_first(), "answer"@) == Some(answer));
    assert(get_field(ps, "answer"@) == Some(answer));
}

/// The answer line for ask `id` is one JSON object holding exactly `id` and
/// `answer`, in that order, then a single line break — for every id and
/// answer that are not a lone comma or colon.
pub proof fn law_answer_line_form(id: Seq<char>, answer: Seq<char>)
    requires
        id != seq![','],
        id != seq![':'],
        answer != seq![','],
        answer != seq![':'],
    ensures
        answer_text(id, answer).last() == '\n',
        !answer_text(id, answer).drop_last().contains('\n'),
        fields_of(answer_text(id, answer)) == Some(seq![("id"@, id), ("answer"@, answer)]),
{
    let ps = seq![("id"@, id), ("answer"@, answer)];
    let obj = crate::json::object_text(ps);
    let t = answer_text(id, answer);
    lemma_answer_line_shape(id, answer);
    assert(t.drop_last() =~= obj);
    reveal_strlit("id");
    reveal_strlit("answer");
    assert(crate::json::readable_members(ps)) by {
        assert("id"@ != seq![',']) by {
            assert("id"@.len() == 2);
        }
        assert("answer"@ != seq![',']) by {
            assert("answer"@.len() == 6);
        }
    }
    crate::json::lemma_read_written_object(ps);
    reveal_with_fuel(crate::json::members_text, 3);
    assert(obj[0] == '{');
    assert(obj.last() == '}');
    assert(t[0] == '{');
    assert(crate::text::trim_start(t) == t);
    assert(crate::text::trim_end(t) == crate::text::trim_end(obj));
    assert(crate::text::trim_start(obj) == obj);
    assert(crate::text::trim_end(obj) == obj);
    assert(crate::text::trim(t) == crate::text::trim(obj));
}

} // verus!
