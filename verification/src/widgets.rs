//! The pieces every screen shares: the header row (app and pet on the left,
//! timer, day and clock on the right), the stat and xp bars, and the mood
//! line.

use vstd::prelude::*;
use crate::i18n::{mood_ix, species_ix, t, table, Lang};
use crate::layout::{
    add_line, add_seg, char_count, empty_line, lines_view, pad_block, push_dec_right, push_left,
    spaces, text, text_of, SegV,
};
use crate::line::{level_color, line_view, line_w, mood_color, repeat, repeat_string, width_of, Color, Line};
use crate::pet::{day_of, mood_of, Pet};
use crate::text::{dec, push_dec, push_str};

verus! {

/// Everything the home-style screens show beyond the pet itself.
pub struct HomeView {
    /// The event log, oldest first.
    pub log: Vec<Line>,
    pub clock_text: String,
    pub hour: u8,
    /// The seconds clock the day counter is read against.
    pub now: u64,
    /// The header's timer slot: a label ("timer", "foco", "pausa") and the
    /// countdown.
    pub timer: Option<(&'static str, String)>,
    /// The progress rows.
    pub progress: Vec<Line>,
    /// The language the screens are shown in.
    pub lang: Lang,
}

pub open spec fn timer_text(t: Option<(&'static str, String)>) -> Seq<char> {
    match t {
        Some(p) => p.0@ + seq![' '] + p.1@,
        None => Seq::empty(),
    }
}

/// The header's left half: app title, pet name (and the zen tag), species
/// and level.
pub open spec fn header_left_text(lang: crate::i18n::Lang, p: Pet) -> Seq<char> {
    let s = table(lang);
    s.app_title@ + seq![' ', ' '] + p.name@ + (if p.zen {
        seq![' ', ' ', '('] + s.zen_tag@ + seq![')']
    } else {
        Seq::empty()
    }) + seq![' ', '·', ' '] + s.species_names[species_ix(p.species)]@ + seq![' ', '·', ' ']
        + s.level_short@ + seq![' '] + dec(p.level as nat)
}

/// The sun by day (6h to 18h), the moon otherwise.
pub open spec fn sky_symbol(hour: u8) -> char {
    if 6 <= hour < 18 {
        '☀'
    } else {
        '☾'
    }
}

/// The header's right half: the timer slot when in use, the sky, the pet's
/// day and the clock.
pub open spec fn header_right_text(p: Pet, v: HomeView) -> Seq<char> {
    let s = table(v.lang);
    (if v.timer is Some {
        timer_text(v.timer) + seq![' ', ' ', ' ']
    } else {
        Seq::empty()
    }) + seq![sky_symbol(v.hour), ' '] + s.day@ + seq![' '] + dec(day_of(p.born, v.now) as nat)
        + seq![' ', '·', ' '] + v.clock_text@
}

/// The timer slot: its label dimmed, the countdown in yellow.
pub fn timer_segs(view: &HomeView) -> (r: Line)
    ensures
        text_of(line_view(r)) == timer_text(view.timer),
        view.timer is None <==> r.len() == 0,
{
    let mut l = empty_line();
    match &view.timer {
        Some((label, countdown)) => {
            let mut v: Vec<char> = Vec::new();
            push_str(&mut v, label);
            v.push(' ');
            add_seg(&mut l, text(v), Some(Color::DarkGrey));
            add_seg(&mut l, countdown.clone(), Some(Color::Yellow));
            assert(text_of(line_view(l)) =~= timer_text(view.timer));
        },
        None => {},
    }
    l
}

/// The two halves of the header, for each screen to join its own way.
pub fn header_parts(pet: &Pet, view: &HomeView) -> (r: (Line, Line))
    ensures
        text_of(line_view(r.0)) == header_left_text(view.lang, *pet),
        text_of(line_view(r.1)) == header_right_text(*pet, *view),
{
    let strings = t(view.lang);
    let (sym, sym_color) = if 6 <= view.hour && view.hour < 18 {
        ('☀', Color::Yellow)
    } else {
        ('☾', Color::Blue)
    };
    let mut left = empty_line();
    add_seg(&mut left, strings.app_title.to_string(), Some(Color::Magenta));
    let mut name: Vec<char> = Vec::new();
    name.push(' ');
    name.push(' ');
    push_str(&mut name, pet.name.as_str());
    if pet.zen {
        name.push(' ');
        name.push(' ');
        name.push('(');
        push_str(&mut name, strings.zen_tag);
        name.push(')');
    }
    add_seg(&mut left, text(name), None);
    let mut rest: Vec<char> = Vec::new();
    rest.push(' ');
    rest.push('·');
    rest.push(' ');
    push_str(&mut rest, crate::i18n::species_name(view.lang, pet.species));
    rest.push(' ');
    rest.push('·');
    rest.push(' ');
    push_str(&mut rest, strings.level_short);
    rest.push(' ');
    push_dec(&mut rest, pet.level as u64);
    add_seg(&mut left, text(rest), Some(Color::DarkGrey));
    assert(text_of(line_view(left)) =~= header_left_text(view.lang, *pet));

    let mut right = timer_segs(view);
    if right.len() > 0 {
        add_seg(&mut right, spaces(3), None);
    }
    let mut s: Vec<char> = Vec::new();
    s.push(sym);
    s.push(' ');
    add_seg(&mut right, text(s), Some(sym_color));
    let mut d: Vec<char> = Vec::new();
    push_str(&mut d, strings.day);
    d.push(' ');
    push_dec(&mut d, pet.day_at(view.now));
    d.push(' ');
    d.push('·');
    d.push(' ');
    push_str(&mut d, view.clock_text.as_str());
    add_seg(&mut right, text(d), Some(Color::DarkGrey));
    assert(repeat(' ', 3) =~= seq![' ', ' ', ' ']);
    assert(text_of(line_view(right)) =~= header_right_text(*pet, *view));
    (left, right)
}

/// The header across `w` columns: left half, spaces, right half.
pub fn header_split(pet: &Pet, view: &HomeView, w: usize) -> (r: Line)
    ensures
        ({
            let l = header_left_text(view.lang, *pet);
            let rt = header_right_text(*pet, *view);
            l.len() + rt.len() <= usize::MAX ==> text_of(line_view(r)) == l + repeat(
                ' ',
                crate::panel::minus(w as nat, l.len() + rt.len()),
            ) + rt
        }),
{
    let (mut left, right) = header_parts(pet, view);
    proof {
        crate::layout::lemma_width_text(line_view(left));
        crate::layout::lemma_width_text(line_view(right));
    }
    let pad = w.saturating_sub(line_w(&left).saturating_add(line_w(&right)));
    add_seg(&mut left, spaces(pad), None);
    add_line(&mut left, &right);
    left
}

/// The header as one row: left half, three spaces, right half.
pub fn header_line(pet: &Pet, view: &HomeView) -> (r: Line)
    ensures
        text_of(line_view(r)) == header_left_text(view.lang, *pet) + seq![' ', ' ', ' '] + header_right_text(
            *pet,
            *view,
        ),
{
    let (mut left, right) = header_parts(pet, view);
    add_seg(&mut left, spaces(3), None);
    add_line(&mut left, &right);
    assert(repeat(' ', 3) =~= seq![' ', ' ', ' ']);
    left
}

// ---------------------------------------------------------------------------
// Bars

fn bar(filled: usize, cells: usize, c: Color, l: &mut Line)
    requires
        filled <= cells,
    ensures
        text_of(line_view(*final(l))) == text_of(line_view(*old(l))) + repeat('█', filled as nat)
            + repeat('░', (cells - filled) as nat),
{
    add_seg(l, repeat_string('█', filled), Some(c));
    add_seg(l, repeat_string('░', cells - filled), Some(Color::DarkGrey));
}

/// Filled cells of a bar of `cells` for `value` percent (never past full).
pub open spec fn cells_for(value: nat, cells: nat) -> nat {
    let f = value * cells / 100;
    if f <= cells {
        f
    } else {
        cells
    }
}

/// A stat bar's text: the label padded to 11 (or `F[` in compact form),
/// the filled and empty cells (10, or 5 compact), the value right-aligned
/// in 3 after a space (or after `]`).
pub open spec fn stat_text(label: Seq<char>, short: char, value: u8, compact: bool) -> Seq<char> {
    let cells: nat = if compact {
        5
    } else {
        10
    };
    let f = cells_for(value as nat, cells);
    (if compact {
        seq![short, '[']
    } else {
        crate::species::pad_to(label, 11)
    }) + repeat('█', f) + repeat('░', (cells - f) as nat) + (if compact {
        seq![']']
    } else {
        seq![' ']
    }) + crate::species::right_align(dec(value as nat), 3)
}

/// Filled cells of the xp bar: the share of the level's need (`level *
/// 100`), never past full.
pub open spec fn xp_cells(xp: nat, level: nat, cells: nat) -> nat {
    let need = level * 100;
    let share = if need == 0 {
        cells
    } else {
        xp * cells / need
    };
    if share <= cells {
        share
    } else {
        cells
    }
}

/// The xp bar's text: the label (or `x[`), the cells, and `xp/need` (or
/// `]`).
pub open spec fn xp_text(lang: crate::i18n::Lang, p: Pet, compact: bool) -> Seq<char> {
    let cells: nat = if compact {
        5
    } else {
        10
    };
    let f = xp_cells(p.xp as nat, p.level as nat, cells);
    (if compact {
        seq!['x', '[']
    } else {
        crate::species::pad_to(table(lang).xp_label@, 11)
    }) + repeat('█', f) + repeat('░', (cells - f) as nat) + (if compact {
        seq![']']
    } else {
        seq![' '] + dec(p.xp as nat) + seq!['/'] + dec(p.level as nat * 100)
    })
}

/// One stat: the label (or its letter in compact form), a bar in the
/// level's color, the value right-aligned.
fn stat_bar(label: &str, short: char, value: u8, compact: bool) -> (r: Line)
    ensures
        text_of(line_view(r)) == stat_text(label@, short, value, compact),
{
    let cells: usize = if compact {
        5
    } else {
        10
    };
    let raw: usize = (value as usize * cells) / 100;
    let filled = if raw <= cells {
        raw
    } else {
        cells
    };
    let c = level_color(value);
    let mut head: Vec<char> = Vec::new();
    if compact {
        head.push(short);
        head.push('[');
    } else {
        push_left(&mut head, label, 11);
    }
    let mut l = empty_line();
    add_seg(&mut l, text(head), None);
    bar(filled, cells, c, &mut l);
    let mut tail: Vec<char> = Vec::new();
    tail.push(if compact {
        ']'
    } else {
        ' '
    });
    push_dec_right(&mut tail, value as u64, 3);
    add_seg(&mut l, text(tail), Some(c));
    assert(text_of(line_view(l)) =~= (if compact {
        seq![short, '[']
    } else {
        crate::species::pad_to(label@, 11)
    }) + repeat('█', cells_for(value as nat, cells as nat)) + repeat(
        '░',
        (cells - cells_for(value as nat, cells as nat)) as nat,
    ) + (if compact {
        seq![']']
    } else {
        seq![' ']
    }) + crate::species::right_align(dec(value as nat), 3));
    l
}

/// The xp bar: progress through the current level.
fn xp_bar(lang: crate::i18n::Lang, pet: &Pet, compact: bool) -> (r: Line)
    ensures
        text_of(line_view(r)) == xp_text(lang, *pet, compact),
{
    let strings = t(lang);
    let cells: u64 = if compact {
        5
    } else {
        10
    };
    let need: u64 = pet.level as u64 * 100;
    let share: u64 = if need == 0 {
        cells
    } else {
        (pet.xp as u64 * cells) / need
    };
    let filled: usize = if share <= cells {
        share as usize
    } else {
        cells as usize
    };
    let mut head: Vec<char> = Vec::new();
    if compact {
        head.push('x');
        head.push('[');
    } else {
        push_left(&mut head, strings.xp_label, 11);
    }
    let mut l = empty_line();
    add_seg(&mut l, text(head), None);
    bar(filled, cells as usize, Color::Cyan, &mut l);
    let mut tail: Vec<char> = Vec::new();
    if compact {
        tail.push(']');
    } else {
        tail.push(' ');
        push_dec(&mut tail, pet.xp as u64);
        tail.push('/');
        push_dec(&mut tail, need);
    }
    add_seg(&mut l, text(tail), Some(Color::Cyan));
    proof {
        let c: nat = cells as nat;
        assert(filled == xp_cells(pet.xp as nat, pet.level as nat, c));
        assert(text_of(line_view(l)) =~= xp_text(lang, *pet, compact));
    }
    l
}

/// The stat values in the order of their labels.
pub open spec fn stat_values(p: Pet) -> Seq<u8> {
    seq![p.hunger, p.happiness, p.energy, p.hygiene]
}

/// The four stat bars and the xp bar, padded with spaces to one width (the
/// widest bar's, when that fits a `usize`).
pub fn stat_bars(lang: crate::i18n::Lang, pet: &Pet, compact: bool) -> (r: Vec<Line>)
    ensures
        r.len() == 5,
        forall|i: int|
            0 <= i < 4 ==> text_of(#[trigger] lines_view(r@)[i]) == crate::layout::padded(
                stat_text(table(lang).stat_labels[i]@, table(lang).stat_short[i], stat_values(*pet)[i], compact),
                width_of(lines_view(r@)[i]),
            ),
        text_of(lines_view(r@)[4]) == crate::layout::padded(xp_text(lang, *pet, compact), width_of(lines_view(r@)[4])),
        crate::layout::max_width(lines_view(r@)) <= usize::MAX ==> crate::layout::all_width(
            lines_view(r@),
            crate::layout::max_width(lines_view(r@)),
        ),
{
    let strings = t(lang);
    let values: [u8; 4] = [pet.hunger, pet.happiness, pet.energy, pet.hygiene];
    let mut bars: Vec<Line> = Vec::new();
    let mut i: usize = 0;
    while i < 4
        invariant
            i <= 4,
            bars.len() == i,
            values@ == stat_values(*pet),
            strings == table(lang),
            forall|k: int|
                0 <= k < i ==> text_of(#[trigger] lines_view(bars@)[k]) == stat_text(
                    table(lang).stat_labels[k]@,
                    table(lang).stat_short[k],
                    stat_values(*pet)[k],
                    compact,
                ),
        decreases 4 - i,
    {
        let b = stat_bar(strings.stat_labels[i], strings.stat_short[i], values[i], compact);
        let ghost before = bars@;
        bars.push(b);
        proof {
            assert(bars@ =~= before.push(b));
            assert forall|k: int| 0 <= k < i + 1 implies lines_view(bars@)[k] == if k < i {
                lines_view(before)[k]
            } else {
                line_view(b)
            } by {}
        }
        i = i + 1;
    }
    let x = xp_bar(lang, pet, compact);
    let ghost before = bars@;
    bars.push(x);
    proof {
        assert(bars@ =~= before.push(x));
        assert(lines_view(bars@)[4] == line_view(x));
        assert forall|k: int| 0 <= k < 4 implies lines_view(bars@)[k] == lines_view(before)[k] by {}
    }
    let r = pad_block(bars);
    proof {
        crate::layout::lemma_pad_block_uniform(lines_view(bars@), lines_view(r@));
        assert forall|i: int| 0 <= i < 4 implies text_of(#[trigger] lines_view(r@)[i])
            == crate::layout::padded(
            stat_text(table(lang).stat_labels[i]@, table(lang).stat_short[i], stat_values(*pet)[i], compact),
            width_of(lines_view(r@)[i]),
        ) by {
            assert(text_of(lines_view(before)[i]) == stat_text(
                table(lang).stat_labels[i]@,
                table(lang).stat_short[i],
                stat_values(*pet)[i],
                compact,
            ));
            assert(lines_view(bars@)[i] == lines_view(before)[i]);
            assert(text_of(lines_view(r@)[i]) == crate::layout::padded(
                text_of(lines_view(bars@)[i]),
                width_of(lines_view(r@)[i]),
            ));
        }
    }
    r
}

/// `● mood`, in the mood's color.
pub open spec fn mood_line_view(lang: crate::i18n::Lang, p: Pet) -> Seq<(Seq<char>, Option<Color>, Option<Color>)> {
    seq![(
        seq!['●', ' '] + table(lang).mood_labels[mood_ix(mood_of(p))]@,
        Some(crate::line::mood_color_of(mood_of(p))),
        None::<Color>,
    )]
}

/// `● mood`, in the mood's color.
pub fn mood_line(lang: crate::i18n::Lang, pet: &Pet) -> (r: Line)
    ensures
        line_view(r) == mood_line_view(lang, *pet),
{
    let mood = pet.mood();
    let mut v: Vec<char> = Vec::new();
    v.push('●');
    v.push(' ');
    push_str(&mut v, crate::i18n::mood_label(lang, mood));
    let r = crate::line::tinted(text(v), mood_color(mood));
    assert(v@ =~= seq!['●', ' '] + table(lang).mood_labels[mood_ix(mood_of(*pet))]@);
    r
}

} // verus!
