//! Line primitives: a `Line` is a list of colored segments, and everything
//! the screen shows is composed from them. Widths are counted in characters,
//! never bytes. Colors are named here and mapped to the terminal's by the
//! program.

use vstd::prelude::*;
use crate::assistant::Kind;
use crate::pet::Mood;
use crate::text::{chars_of, push_dec, push_str, string_of};

verus! {

/// The terminal colors the app uses.
#[derive(Debug, Clone, Copy, PartialEq, Eq, Structural)]
pub enum Color {
    Blue,
    Cyan,
    DarkGreen,
    DarkGrey,
    Green,
    Magenta,
    Red,
    Yellow,
}

/// Text, foreground, background.
pub type Seg = (String, Option<Color>, Option<Color>);

pub type Line = Vec<Seg>;

/// A segment as plain values.
pub open spec fn seg_view(s: Seg) -> (Seq<char>, Option<Color>, Option<Color>) {
    (s.0@, s.1, s.2)
}

pub open spec fn line_view(l: Line) -> Seq<(Seq<char>, Option<Color>, Option<Color>)> {
    l@.map_values(|s: Seg| seg_view(s))
}

/// Width of a line: the characters of all its segments.
pub open spec fn width_of(l: Seq<(Seq<char>, Option<Color>, Option<Color>)>) -> nat
    decreases l.len(),
{
    if l.len() == 0 {
        0
    } else {
        width_of(l.drop_last()) + l.last().0.len()
    }
}

pub fn seg(s: String, c: Option<Color>) -> (r: Seg)
    ensures
        seg_view(r) == (s@, c, None::<Color>),
{
    (s, c, None)
}

/// A key cap: the key between spaces, cyan on slate.
pub fn chip(key: &str) -> (r: Seg)
    ensures
        seg_view(r) == (seq![' '] + key@ + seq![' '], Some(Color::Cyan), Some(Color::DarkGrey)),
{
    let mut v: Vec<char> = Vec::new();
    v.push(' ');
    push_str(&mut v, key);
    v.push(' ');
    assert(v@ =~= seq![' '] + key@ + seq![' ']);
    (string_of(v.as_slice()), Some(Color::Cyan), Some(Color::DarkGrey))
}

pub fn plain(s: String) -> (r: Line)
    ensures
        line_view(r) == seq![(s@, None::<Color>, None::<Color>)],
{
    let r = vec![seg(s, None)];
    assert(line_view(r) =~= seq![(r@[0].0@, None::<Color>, None::<Color>)]);
    r
}

pub fn tinted(s: String, c: Color) -> (r: Line)
    ensures
        line_view(r) == seq![(s@, Some(c), None::<Color>)],
{
    let r = vec![seg(s, Some(c))];
    assert(line_view(r) =~= seq![(r@[0].0@, Some(c), None::<Color>)]);
    r
}

/// Width of a line in characters (saturating at `usize::MAX`, which no
/// screen line comes near).
pub fn line_w(l: &Line) -> (r: usize)
    ensures
        r == if width_of(line_view(*l)) <= usize::MAX {
            width_of(line_view(*l))
        } else {
            usize::MAX as nat
        },
{
    let ghost lv = line_view(*l);
    let mut total: usize = 0;
    let mut i: usize = 0;
    while i < l.len()
        invariant
            i <= l.len(),
            lv == line_view(*l),
            total == if width_of(lv.take(i as int)) <= usize::MAX {
                width_of(lv.take(i as int))
            } else {
                usize::MAX as nat
            },
        decreases l.len() - i,
    {
        let n = chars_of(l[i].0.as_str()).len();
        assert(lv.take(i + 1).drop_last() =~= lv.take(i as int));
        assert(lv.take(i + 1).last() == lv[i as int]);
        total = total.saturating_add(n);
        i = i + 1;
    }
    assert(lv.take(l.len() as int) =~= lv);
    total
}

/// The color of a stat bar: red under 30, yellow under 60, green above.
pub fn level_color(value: u8) -> (r: Color)
    ensures
        r == if value < 30 {
            Color::Red
        } else if value < 60 {
            Color::Yellow
        } else {
            Color::Green
        },
{
    if value < 30 {
        Color::Red
    } else if value < 60 {
        Color::Yellow
    } else {
        Color::Green
    }
}

/// The color of a message kind.
pub fn kind_color(kind: Kind) -> (r: Color)
    ensures
        r == match kind {
            Kind::Info => Color::Cyan,
            Kind::Success => Color::Green,
            Kind::Warn => Color::Yellow,
            Kind::Error => Color::Red,
        },
{
    match kind {
        Kind::Info => Color::Cyan,
        Kind::Success => Color::Green,
        Kind::Warn => Color::Yellow,
        Kind::Error => Color::Red,
    }
}

/// The color of a mood.
pub open spec fn mood_color_of(mood: Mood) -> Color {
    match mood {
        Mood::Happy => Color::Green,
        Mood::Hungry => Color::Yellow,
        Mood::Dirty => Color::Yellow,
        Mood::Sleepy => Color::Blue,
        Mood::Sleeping => Color::Blue,
        Mood::Sad => Color::Red,
    }
}

pub fn mood_color(mood: Mood) -> (r: Color)
    ensures
        r == mood_color_of(mood),
{
    match mood {
        Mood::Happy => Color::Green,
        Mood::Hungry | Mood::Dirty => Color::Yellow,
        Mood::Sleepy | Mood::Sleeping => Color::Blue,
        Mood::Sad => Color::Red,
    }
}

/// `c` repeated `n` times.
pub open spec fn repeat(c: char, n: nat) -> Seq<char> {
    Seq::new(n, |i: int| c)
}

pub fn repeat_string(c: char, n: usize) -> (r: String)
    ensures
        r@ == repeat(c, n as nat),
{
    let mut v: Vec<char> = Vec::new();
    let mut i: usize = 0;
    while i < n
        invariant
            i <= n,
            v@ == repeat(c, i as nat),
        decreases n - i,
    {
        v.push(c);
        i = i + 1;
        assert(v@ =~= repeat(c, i as nat));
    }
    string_of(v.as_slice())
}

/// A progress row: the task's name (or a generic one), a 20-cell bar filled
/// in proportion, and the percentage.
pub open spec fn progress_view(lang: crate::i18n::Lang, from: Seq<char>, pct: u8) -> Seq<
    (Seq<char>, Option<Color>, Option<Color>),
> {
    let filled = (pct as nat * 20) / 100;
    let empty = (20 - filled) as nat;
    let name = if from.len() == 0 {
        crate::i18n::table(lang).progress_default@
    } else {
        from
    };
    seq![
        (name + seq![' '], None, None),
        (repeat('█', filled), Some(Color::Green), None),
        (repeat('░', empty), Some(Color::DarkGrey), None),
        (seq![' '] + crate::text::dec(pct as nat) + seq!['%'], Some(Color::Green), None),
    ]
}

pub fn progress_line(lang: crate::i18n::Lang, from: &str, pct: u8) -> (r: Line)
    requires
        pct <= 100,
    ensures
        line_view(r) == progress_view(lang, from@, pct),
{
    let filled: usize = (pct as usize * 20) / 100;
    let strings = crate::i18n::t(lang);
    let name = if from.is_empty() {
        strings.progress_default
    } else {
        from
    };
    let mut head = chars_of(name);
    head.push(' ');
    let mut tail: Vec<char> = Vec::new();
    tail.push(' ');
    push_dec(&mut tail, pct as u64);
    tail.push('%');
    let rest: usize = 20 - filled;
    let r = vec![
        seg(string_of(head.as_slice()), None),
        seg(repeat_string('█', filled), Some(Color::Green)),
        seg(repeat_string('░', rest), Some(Color::DarkGrey)),
        seg(string_of(tail.as_slice()), Some(Color::Green)),
    ];
    assert(head@ =~= (if from@.len() == 0 {
        crate::i18n::table(lang).progress_default@
    } else {
        from@
    }) + seq![' ']);
    assert(tail@ =~= seq![' '] + crate::text::dec(pct as nat) + seq!['%']);
    assert(line_view(r) =~= progress_view(lang, from@, pct));
    r
}

} // verus!
