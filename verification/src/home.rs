//! The home screen: the pet in its scene, the status and mood panels and the
//! event log, laid out down a height ladder so it degrades instead of
//! breaking. Every variable-length section has a reserved height: the
//! screen's height is a function of the terminal, the pet's sprite and zen
//! mode, never of how many events or progress rows there are.

use vstd::prelude::*;
use crate::i18n::{t, table, Lang};
use crate::layout::{
    add_line, add_seg, beside, block_w, center_in, char_count, clip_pad, copy_line, dim,
    empty_line, extend_lines, line_texts, lines_view, pad_block, spaces, text, text_of, SegV,
};
use crate::line::{level_color, line_view, mood_color, plain, seg, tinted, width_of, Color, Line};
use crate::panel::{boxed, minus, overlay, panel};
use crate::pet::{food, mood_of, Food, Mood, Pet, FOOD_COUNT};
use crate::screen::{action_ix, Action, ACTION_GLYPHS, FOOD_ICONS};
use crate::species::{art_of, render_art, render_tiny, zzz, ArtSize};
use crate::text::{push_dec, push_str};
use crate::widgets::{header_line, header_split, mood_line, stat_bars, HomeView};

verus! {

/// The strip of grass the pet stands on, repeated as wide as needed.
pub const GRASS: [char; 26] = [
    '▁', '▂', '▁', '▁', '▃', '▁', '▂', '▁', '▁', '▁', '▂', '▁', '▃', '▁', '▁', '▂', '▁', '▁', '▁', '▂',
    '▁', '▃', '▁', '▂', '▁', '▁',
];

/// `n` characters of grass.
pub fn grass(n: usize) -> (r: String)
    ensures
        r@ == Seq::new(n as nat, |k: int| GRASS@[k % 26]),
{
    let mut v: Vec<char> = Vec::new();
    let mut k: usize = 0;
    while k < n
        invariant
            k <= n,
            v@ == Seq::new(k as nat, |j: int| GRASS@[j % 26]),
        decreases n - k,
    {
        v.push(GRASS[k % 26]);
        k = k + 1;
        assert(v@ =~= Seq::new(k as nat, |j: int| GRASS@[j % 26]));
    }
    text(v)
}

/// Rows of the pet's sprite for a size.
pub open spec fn art_len(p: Pet, frame: usize, size: ArtSize) -> nat {
    art_of(p.species, mood_of(p), frame, size).len()
}

pub open spec fn min_nat(a: nat, b: nat) -> nat {
    if a <= b {
        a
    } else {
        b
    }
}

pub open spec fn max_nat(a: nat, b: nat) -> nat {
    if a >= b {
        a
    } else {
        b
    }
}

/// Rows of the panel layout: header and blank, the pet panel (sky rows, the
/// bubble row, the sprite, the grass, the mood) beside the status panel (and
/// the mood panel with `tastes`), then the events panel or a ticker row. In
/// zen mode the pet panel alone, with a note under it.
pub open spec fn panel_rows(a: nat, sky: nat, grass: bool, tastes: bool, events: nat, zen: bool) -> nat {
    let pet_panel = sky + a + (if grass {
        1nat
    } else {
        0nat
    }) + 4;
    if zen {
        pet_panel + 3
    } else {
        2 + max_nat(pet_panel, if tastes {
            12nat
        } else {
            7nat
        }) + (if events > 0 {
            events + 2
        } else {
            1nat
        })
    }
}

/// The height ladder of the panel layout, tallest first: sprite size,
/// grass, mood panel, event rows.
pub open spec fn rung(k: nat) -> (ArtSize, bool, bool, nat) {
    if k == 0 {
        (ArtSize::Large, true, true, 3)
    } else if k == 1 {
        (ArtSize::Large, false, true, 2)
    } else if k == 2 {
        (ArtSize::Large, false, false, 1)
    } else if k == 3 {
        (ArtSize::Small, false, true, 2)
    } else if k == 4 {
        (ArtSize::Small, false, false, 1)
    } else {
        (ArtSize::Small, false, false, 0)
    }
}

pub open spec fn rung_base(p: Pet, frame: usize, k: nat) -> nat {
    let g = rung(k);
    panel_rows(art_len(p, frame, g.0), 0, g.1, g.2, g.3, p.zen)
}

/// The first rung from `k` whose layout fits `avail` rows.
pub open spec fn first_rung(p: Pet, frame: usize, avail: nat, k: nat) -> Option<nat>
    decreases 6 - k,
{
    if k >= 6 {
        None
    } else if rung_base(p, frame, k) <= avail {
        Some(k)
    } else {
        first_rung(p, frame, avail, k + 1)
    }
}

/// Extra event rows a rung gets from the leftover height (up to 8 in all).
pub open spec fn extra_events(er: nat, leftover: nat) -> nat {
    if er > 0 {
        min_nat(leftover, minus(8, er))
    } else {
        0
    }
}

/// Rows of a rung once the leftover height is shared out: more event rows
/// first, then sky above the pet (at most the sprite's height).
pub open spec fn rung_rows(p: Pet, frame: usize, avail: nat, k: nat) -> nat {
    let g = rung(k);
    let a = art_len(p, frame, g.0);
    let leftover = minus(avail, rung_base(p, frame, k));
    let extra = extra_events(g.3, leftover);
    let sky = min_nat(minus(leftover, extra), a);
    panel_rows(a, sky, g.1, g.2, g.3 + extra, p.zen)
}

/// Rows of the stacked layout for `avail` rows and `iw` columns: the sprite
/// and mood first when the small sprite fits, then the bars, the header and
/// the ticker while they fit; otherwise the one-row face, compact bars or a
/// numbers row, and the ticker.
pub open spec fn stacked_rows(a: nat, aw: nat, zen: bool, iw: nat, avail: nat) -> nat {
    if aw <= iw && a + 1 <= avail {
        let n0 = a + 1;
        let n1 = if zen && avail > n0 {
            n0 + 1
        } else {
            n0
        };
        let room = minus(avail, n1);
        let n2 = if !zen && room >= 6 {
            n1 + 6
        } else if !zen && room >= 5 {
            n1 + 5
        } else {
            n1
        };
        let n3 = if iw >= 40 && minus(avail, n2) >= 2 {
            n2 + 2
        } else {
            n2
        };
        if !zen && minus(avail, n3) >= 1 {
            n3 + 1
        } else {
            n3
        }
    } else {
        face_rows(zen, avail)
    }
}

/// Rows of the one-row-face layout: the face, then (outside zen mode) the
/// compact bars or a numbers row, and the ticker, as they fit.
pub open spec fn face_rows(zen: bool, avail: nat) -> nat {
    if zen {
        1
    } else {
        let room = minus(avail, 1);
        let n1: nat = if room >= 5 {
            6
        } else if room >= 1 {
            2
        } else {
            1
        };
        if minus(avail, n1) >= 1 {
            n1 + 1
        } else {
            n1
        }
    }
}

pub open spec fn small_art_width(p: Pet, frame: usize) -> nat {
    art_of(p.species, mood_of(p), frame, ArtSize::Small)[0].len()
}

/// The height of the home screen in an `iw` × `ih` inner area (one row of it
/// is the footer's).
pub open spec fn home_rows(p: Pet, frame: usize, iw: nat, ih: nat) -> nat {
    let avail = minus(ih, 1);
    let stacked = stacked_rows(
        art_len(p, frame, ArtSize::Small),
        small_art_width(p, frame),
        p.zen,
        iw,
        avail,
    );
    if iw >= 72 {
        match first_rung(p, frame, avail, 0) {
            Some(k) => rung_rows(p, frame, avail, k),
            None => stacked,
        }
    } else {
        stacked
    }
}

pub proof fn lemma_first_rung(p: Pet, frame: usize, avail: nat, k: nat)
    ensures
        first_rung(p, frame, avail, k) matches Some(j) ==> j < 6 && rung_base(p, frame, j) <= avail,
    decreases 6 - k,
{
    if k < 6 && rung_base(p, frame, k) > avail {
        lemma_first_rung(p, frame, avail, k + 1);
    }
}

pub proof fn lemma_rung_rows(p: Pet, frame: usize, avail: nat, k: nat)
    requires
        rung_base(p, frame, k) <= avail,
    ensures
        rung_rows(p, frame, avail, k) <= avail,
{
}

/// The home screen always fits the terminal: at most one row short of its
/// inner height (the footer's), and never less than one row.
pub proof fn law_home_fits(p: Pet, frame: usize, iw: nat, ih: nat)
    ensures
        home_rows(p, frame, iw, ih) <= max_nat(minus(ih, 1), 1),
        home_rows(p, frame, iw, ih) >= 1,
{
    let avail = minus(ih, 1);
    lemma_first_rung(p, frame, avail, 0);
    if iw >= 72 {
        match first_rung(p, frame, avail, 0) {
            Some(k) => lemma_rung_rows(p, frame, avail, k),
            None => {},
        }
    }
}

/// The bubble row over the sprite: the pet's sound, right-aligned over two
/// thirds of the panel; blank while it sleeps.
fn sound_row(lang: crate::i18n::Lang, pet: &Pet, mood: Mood, w: usize) -> (r: Line)
    ensures
        line_view(r).len() == 1,
{
    let mut b: Vec<char> = Vec::new();
    if mood != Mood::Sleeping {
        b.push('(');
        b.push(' ');
        push_str(&mut b, crate::i18n::species_sound(lang, pet.species));
        b.push(' ');
        b.push(')');
    }
    let mut v: Vec<char> = Vec::new();
    if b.len() < w {
        crate::species::push_spaces(&mut v, w - b.len());
    }
    crate::text::push_all(&mut v, b.as_slice());
    plain(text(v))
}

/// The log newest first.
pub open spec fn newest_first(log: Seq<Seq<SegV>>) -> Seq<Seq<SegV>> {
    Seq::new(log.len(), |i: int| log[log.len() - 1 - i])
}

pub open spec fn blank_rows(n: nat) -> Seq<Seq<SegV>> {
    Seq::new(n, |i: int| Seq::<SegV>::empty())
}

/// The event panel's `e` rows: the progress rows first, then the log newest
/// first, as many as fit; a note when there is nothing; blank rows after.
pub open spec fn events_of(lang: crate::i18n::Lang, progress: Seq<Seq<SegV>>, log: Seq<Seq<SegV>>, e: nat) -> Seq<Seq<SegV>> {
    let p = if progress.len() <= e {
        progress
    } else {
        progress.take(e as int)
    };
    let room = (e - p.len()) as nat;
    let l = if log.len() <= room {
        newest_first(log)
    } else {
        newest_first(log).take(room as int)
    };
    let ev = p + l;
    let shown = if ev.len() == 0 {
        seq![seq![(crate::i18n::table(lang).log_empty@, Some(Color::DarkGrey), None::<Color>)]]
    } else {
        ev
    };
    shown + blank_rows((e - shown.len()) as nat)
}

/// The rows of the event panel, `e` of them (at least one).
pub fn events_panel_rows(view: &HomeView, e: usize) -> (r: Vec<Line>)
    requires
        e >= 1,
    ensures
        lines_view(r@) == events_of(view.lang, lines_view(view.progress@), lines_view(view.log@), e as nat),
        r.len() == e,
{
    let strings = t(view.lang);
    let ghost pv = lines_view(view.progress@);
    let ghost lv = lines_view(view.log@);
    let mut events: Vec<Line> = Vec::new();
    let mut k: usize = 0;
    while k < view.progress.len() && k < e
        invariant
            k <= e,
            k <= view.progress.len(),
            pv == lines_view(view.progress@),
            lines_view(events@) == pv.take(k as int),
        decreases e - k,
    {
        let c = copy_line(&view.progress[k]);
        let ghost before = events@;
        events.push(c);
        proof {
            assert(events@ =~= before.push(c));
            assert(lines_view(events@) =~= lines_view(before).push(line_view(c)));
            assert(pv.take(k + 1) =~= pv.take(k as int).push(pv[k as int]));
        }
        k = k + 1;
    }
    let ghost p = pv.take(k as int);
    proof {
        if pv.len() <= e {
            assert(p =~= pv);
        }
    }
    let mut j: usize = view.log.len();
    while j > 0 && events.len() < e
        invariant
            j <= view.log.len(),
            lv == lines_view(view.log@),
            lines_view(events@) == p + newest_first(lv).take(view.log.len() - j),
            events.len() <= e,
            p.len() <= e,
        decreases j,
    {
        j = j - 1;
        let c = copy_line(&view.log[j]);
        let ghost before = events@;
        events.push(c);
        proof {
            assert(events@ =~= before.push(c));
            assert(lines_view(events@) =~= lines_view(before).push(line_view(c)));
            let n = view.log.len() - j;
            assert(newest_first(lv)[n - 1] == lv[j as int]);
            assert(newest_first(lv).take(n) =~= newest_first(lv).take(n - 1).push(lv[j as int]));
        }
    }
    proof {
        let room = (e - p.len()) as nat;
        let taken = view.log.len() - j;
        if lv.len() <= room {
            assert(j == 0);
            assert(newest_first(lv).take(taken) =~= newest_first(lv));
        } else {
            assert(taken == room);
        }
    }
    let ghost ev = lines_view(events@);
    if events.len() == 0 {
        let note = tinted(strings.log_empty.to_string(), Color::DarkGrey);
        let ghost before = events@;
        events.push(note);
        proof {
            assert(events@ =~= before.push(note));
            assert(lines_view(events@) =~= seq![line_view(note)]);
        }
    }
    let ghost shown = lines_view(events@);
    while events.len() < e
        invariant
            events.len() <= e,
            shown.len() <= e,
            lines_view(events@) == shown + blank_rows((events.len() - shown.len()) as nat),
            events.len() >= shown.len(),
        decreases e - events.len(),
    {
        let b = empty_line();
        let ghost before = events@;
        events.push(b);
        proof {
            assert(events@ =~= before.push(b));
            assert(lines_view(events@) =~= lines_view(before).push(line_view(b)));
            assert(shown + blank_rows((events.len() - shown.len()) as nat) =~= (shown + blank_rows(
                (before.len() - shown.len()) as nat,
            )).push(Seq::<SegV>::empty()));
        }
    }
    events
}

/// The scene panel's sprite rows survive being set beside the status
/// column: in the left panel's columns each still shows its art row,
/// centered in the scene and boxed.
proof fn lemma_scene_rows(
    left: Seq<Seq<SegV>>,
    right: Seq<Seq<SegV>>,
    joined: Seq<Seq<SegV>>,
    art: Seq<Seq<char>>,
    sky: nat,
    lw: nat,
)
    requires
        lw >= 6,
        left.len() >= sky + 2 + art.len(),
        forall|i: int| 0 <= i < left.len() ==> width_of(#[trigger] left[i]) == lw,
        forall|k: int|
            0 <= k < art.len() ==> text_of(#[trigger] left[sky + 2 + k]) == crate::panel::boxed_row(
                crate::layout::centered(art[k], minus(lw, 4)),
                lw,
            ),
        forall|i: int| 0 <= i < right.len() ==> width_of(#[trigger] right[i]) == 36,
        right.len() >= 1,
        joined.len() == max_nat(left.len(), right.len()),
        ({
            let a = crate::layout::max_width(left);
            let b = crate::layout::max_width(right);
            a + 2 + b <= usize::MAX ==> forall|i: int|
                0 <= i < joined.len() ==> text_of(#[trigger] joined[i]) == crate::layout::padded(
                    text_of(crate::layout::row_or_empty(left, i)),
                    a + 2,
                ) + crate::layout::padded(text_of(crate::layout::row_or_empty(right, i)), b)
        }),
        lw + 38 <= usize::MAX,
    ensures
        forall|k: int|
            0 <= k < art.len() ==> text_of(joined[sky + 2 + k]).subrange(0, lw as int)
                == crate::panel::boxed_row(crate::layout::centered(#[trigger] art[k], minus(lw, 4)), lw),
        forall|i: int|
            0 <= i < right.len() ==> text_of(joined[i]).subrange(lw + 2int, lw + 38int) == text_of(
                #[trigger] right[i],
            ),
{
    crate::layout::lemma_all_width_max(left, lw);
    crate::layout::lemma_all_width_max(right, 36);
    assert forall|i: int| 0 <= i < right.len() implies text_of(joined[i]).subrange(lw + 2int, lw + 38int)
        == text_of(#[trigger] right[i]) by {
        let t = text_of(crate::layout::row_or_empty(left, i));
        if 0 <= i < left.len() {
            crate::layout::lemma_width_text(left[i]);
        }
        assert(t.len() <= lw);
        crate::layout::lemma_width_text(right[i]);
        assert(crate::layout::row_or_empty(right, i) == right[i]);
        let p = crate::layout::padded(t, lw + 2);
        let q = crate::layout::padded(text_of(right[i]), 36);
        assert(q =~= text_of(right[i]));
        assert((p + q).subrange(lw + 2int, lw + 38int) =~= q);
    }
    assert forall|k: int| 0 <= k < art.len() implies text_of(joined[sky + 2 + k]).subrange(0, lw as int)
        == crate::panel::boxed_row(crate::layout::centered(#[trigger] art[k], minus(lw, 4)), lw) by {
        let i = sky + 2 + k;
        assert(crate::layout::row_or_empty(left, i) == left[i]);
        crate::layout::lemma_width_text(left[i]);
        let t = text_of(left[i]);
        assert(t.len() == lw);
        let p = crate::layout::padded(t, lw + 2);
        assert(p.subrange(0, lw as int) =~= t);
        let q = crate::layout::padded(text_of(crate::layout::row_or_empty(right, i)), 36);
        assert((p + q).subrange(0, lw as int) =~= p.subrange(0, lw as int));
    }
}

/// The scene panel, titled with the pet's name: `sky` blank rows, the
/// pet's sound, its sprite centered, the grass (when asked for), the mood.
fn scene_panel(lang: crate::i18n::Lang, 
    pet: &Pet,
    mood: Mood,
    frame: usize,
    size: ArtSize,
    sky: usize,
    grass_row: bool,
    left_w: usize,
) -> (r: Vec<Line>)
    requires
        mood == mood_of(*pet),
    ensures
        r.len() == sky + art_len(*pet, frame, size) + (if grass_row {
            1nat
        } else {
            0nat
        }) + 4,
        left_w >= 6 ==> forall|i: int| 0 <= i < r.len() ==> width_of(#[trigger] lines_view(r@)[i]) == left_w,
        forall|k: int|
            0 <= k < art_len(*pet, frame, size) ==> text_of(#[trigger] lines_view(r@)[sky + 2 + k])
                == crate::panel::boxed_row(
                crate::layout::centered(
                    art_of(pet.species, mood_of(*pet), frame, size)[k],
                    minus(left_w as nat, 4),
                ),
                left_w as nat,
            ),
{
    let art = render_art(pet.species, mood, frame, size);
    let inner = left_w.saturating_sub(4);
    let mut pet_body: Vec<Line> = Vec::new();
    let mut k: usize = 0;
    while k < sky
        invariant
            k <= sky,
            pet_body.len() == k,
        decreases sky - k,
    {
        pet_body.push(empty_line());
        k = k + 1;
    }
    let two_thirds: usize = ((inner as u128) * 2 / 3) as usize;
    pet_body.push(sound_row(lang, pet, mood, two_thirds));
    let ghost av = crate::assistant::string_views(art@);
    let mut k: usize = 0;
    while k < art.len()
        invariant
            k <= art.len(),
            pet_body.len() == sky + 1 + k,
            av == crate::assistant::string_views(art@),
            forall|j: int|
                0 <= j < k ==> text_of(#[trigger] lines_view(pet_body@)[sky + 1 + j])
                    == crate::layout::centered(av[j], inner as nat),
        decreases art.len() - k,
    {
        let pl = plain(art[k].clone());
        let c = center_in(&pl, inner);
        proof {
            crate::layout::lemma_single(line_view(pl));
            assert(av[k as int] == art@[k as int]@);
        }
        let ghost before = lines_view(pet_body@);
        pet_body.push(c);
        proof {
            assert(lines_view(pet_body@) =~= before.push(line_view(c)));
        }
        k = k + 1;
    }
    let ghost art_rows = lines_view(pet_body@);
    if grass_row {
        let n = if inner < 40 {
            inner
        } else {
            40
        };
        pet_body.push(center_in(&tinted(grass(n), Color::DarkGreen), inner));
    }
    pet_body.push(center_in(&mood_line(lang, pet), inner));
    let ghost a = art_len(*pet, frame, size);
    assert(art@.len() == a);
    assert(pet_body.len() == sky + a + (if grass_row { 1nat } else { 0nat }) + 2);
    proof {
        assert forall|j: int| 0 <= j < a implies text_of(#[trigger] lines_view(pet_body@)[sky + 1 + j])
            == crate::layout::centered(av[j], inner as nat) by {
            assert(lines_view(pet_body@)[sky + 1 + j] == art_rows[sky + 1 + j]);
        }
    }
    let r = panel(pet.name.as_str(), pet_body.as_slice(), left_w);
    proof {
        assert forall|k: int| 0 <= k < a implies text_of(#[trigger] lines_view(r@)[sky + 2 + k])
            == crate::panel::boxed_row(
            crate::layout::centered(art_of(pet.species, mood_of(*pet), frame, size)[k], minus(left_w as nat, 4)),
            left_w as nat,
        ) by {
            assert(text_of(lines_view(r@)[sky + 2 + k]) == crate::panel::boxed_row(
                text_of(lines_view(pet_body@)[sky + 1 + k]),
                left_w as nat,
            ));
            assert(inner as nat == minus(left_w as nat, 4));
        }
    }
    r
}

/// The status column's rows: the "status" panel with the four stat bars and
/// the xp bar; with `tastes`, the "mood" panel with the species' trait, what
/// it likes and what it hates.
pub open spec fn status_texts(lang: crate::i18n::Lang, p: Pet, tastes: bool) -> Seq<Seq<char>> {
    let s = crate::i18n::table(lang);
    let ix = crate::i18n::species_ix(p.species);
    seq![crate::panel::boxed_top(Some(s.panel_status@), 36)] + Seq::new(
        4,
        |i: int|
            crate::panel::boxed_row(
                crate::widgets::stat_text(s.stat_labels[i]@, s.stat_short[i], crate::widgets::stat_values(p)[i], false),
                36,
            ),
    ) + seq![
        crate::panel::boxed_row(crate::widgets::xp_text(lang, p, false), 36),
        crate::panel::boxed_bottom(36),
    ] + if tastes {
        seq![
            crate::panel::boxed_top(Some(s.panel_mood@), 36),
            crate::panel::boxed_row(s.species_traits[ix]@, 36),
            crate::panel::boxed_row(s.likes@ + seq![':', ' '] + s.species_tastes[ix].0@, 36),
            crate::panel::boxed_row(s.hates@ + seq![':', ' '] + s.species_tastes[ix].1@, 36),
            crate::panel::boxed_bottom(36),
        ]
    } else {
        Seq::empty()
    }
}

/// A row padded then cut reads as the row cut.
proof fn lemma_clip_padded(t: Seq<char>, n: nat, w: nat)
    requires
        n >= t.len(),
    ensures
        crate::layout::clipped(crate::layout::padded(t, n), w) == crate::layout::clipped(t, w),
{
    let p = crate::layout::padded(t, n);
    assert(crate::layout::clipped(p, w) =~= crate::layout::clipped(t, w));
}

/// The status column: the bars' panel, and under it (when there is room)
/// the species' trait and tastes; 36 columns wide.
fn status_column(lang: crate::i18n::Lang, pet: &Pet, tastes: bool) -> (r: Vec<Line>)
    ensures
        r.len() == if tastes {
            12nat
        } else {
            7nat
        },
        forall|i: int| 0 <= i < r.len() ==> width_of(#[trigger] lines_view(r@)[i]) == 36,
        line_texts(lines_view(r@)) == status_texts(lang, *pet, tastes),
{
    let strings = t(lang);
    let right_w: usize = 36;
    let bars = stat_bars(lang, pet, false);
    let mut right = panel(strings.panel_status, bars.as_slice(), right_w);
    let ghost st = status_texts(lang, *pet, tastes);
    proof {
        let bv = lines_view(bars@);
        let rv = lines_view(right@);
        let s = crate::i18n::table(lang);
        assert forall|i: int| 0 <= i < 4 implies text_of(#[trigger] rv[1 + i]) == st[1 + i] by {
            crate::layout::lemma_width_text(bv[i]);
            let x = crate::widgets::stat_text(s.stat_labels[i]@, s.stat_short[i], crate::widgets::stat_values(*pet)[i], false);
            lemma_clip_padded(x, width_of(bv[i]), 32);
        }
        crate::layout::lemma_width_text(bv[4]);
        lemma_clip_padded(crate::widgets::xp_text(lang, *pet, false), width_of(bv[4]), 32);
        assert(text_of(rv[5]) == st[5]);
        assert forall|i: int| 0 <= i < 7 implies line_texts(rv)[i] == st[i] by {
            if 1 <= i < 5 {
                assert(text_of(rv[1 + (i - 1)]) == st[1 + (i - 1)]);
            }
        }
    }
    if tastes {
        let (likes, hates) = crate::i18n::species_tastes(lang, pet.species);
        let mut l1: Vec<char> = Vec::new();
        push_str(&mut l1, strings.likes);
        l1.push(':');
        l1.push(' ');
        push_str(&mut l1, likes);
        let mut l2: Vec<char> = Vec::new();
        push_str(&mut l2, strings.hates);
        l2.push(':');
        l2.push(' ');
        push_str(&mut l2, hates);
        let mut body: Vec<Line> = Vec::new();
        let b0 = plain(crate::i18n::species_trait(lang, pet.species).to_string());
        let b1 = tinted(text(l1), Color::DarkGrey);
        let b2 = tinted(text(l2), Color::DarkGrey);
        proof {
            crate::layout::lemma_single(line_view(b0));
            crate::layout::lemma_single(line_view(b1));
            crate::layout::lemma_single(line_view(b2));
        }
        body.push(b0);
        body.push(b1);
        body.push(b2);
        assert(lines_view(body@) =~= seq![line_view(b0), line_view(b1), line_view(b2)]);
        let mood_panel = panel(strings.panel_mood, body.as_slice(), right_w);
        let ghost before = lines_view(right@);
        extend_lines(&mut right, mood_panel.as_slice());
        proof {
            let mv = lines_view(mood_panel@);
            assert(l1@ =~= crate::i18n::table(lang).likes@ + seq![':', ' '] + likes@);
            assert(l2@ =~= crate::i18n::table(lang).hates@ + seq![':', ' '] + hates@);
            assert forall|i: int| 0 <= i < 12 implies line_texts(lines_view(right@))[i] == st[i] by {
                if i < 7 {
                    assert(lines_view(right@)[i] == before[i]);
                    assert(line_texts(before)[i] == st[i]);
                } else {
                    assert(lines_view(right@)[i] == mv[i - 7]);
                    if 8 <= i <= 10 {
                        assert(text_of(mv[i - 7]) == crate::panel::boxed_row(
                            text_of(lines_view(body@)[i - 8]),
                            36,
                        ));
                    }
                }
            }
            assert(line_texts(lines_view(right@)) =~= st);
            assert forall|i: int| 0 <= i < right.len() implies width_of(
                #[trigger] lines_view(right@)[i],
            ) == 36 by {
                if i < before.len() {
                    assert(lines_view(right@)[i] == before[i]);
                } else {
                    assert(lines_view(right@)[i] == lines_view(mood_panel@)[i - before.len()]);
                }
            }
        }
    } else {
        assert(line_texts(lines_view(right@)) =~= st);
    }
    right
}

/// The panel layout at width `w` (72 to 96 columns) for one rung of the
/// ladder, with `sky` blank rows above the pet.
pub fn build_panels(
    pet: &Pet,
    frame: usize,
    view: &HomeView,
    w: usize,
    size: ArtSize,
    grass_row: bool,
    tastes: bool,
    event_rows: usize,
    sky: usize,
) -> (r: Vec<Line>)
    ensures
        r.len() == panel_rows(art_len(*pet, frame, size), sky as nat, grass_row, tastes, event_rows as nat, pet.zen),
        ({
            let l = crate::widgets::header_left_text(view.lang, *pet);
            let rt = crate::widgets::header_right_text(*pet, *view);
            l.len() + rt.len() <= usize::MAX ==> text_of(lines_view(r@)[0]) == l + crate::line::repeat(
                ' ',
                minus(w as nat, l.len() + rt.len()),
            ) + rt
        }),
        text_of(lines_view(r@)[1]) == Seq::<char>::empty(),
        !pet.zen && event_rows > 0 ==> {
            let n = r.len() as int;
            let ev = events_of(view.lang, lines_view(view.progress@), lines_view(view.log@), event_rows as nat);
            &&& text_of(lines_view(r@)[n - event_rows - 2]) == crate::panel::boxed_top(
                Some(crate::i18n::table(view.lang).panel_events@),
                w as nat,
            )
            &&& forall|j: int|
                0 <= j < event_rows ==> text_of(#[trigger] lines_view(r@)[n - event_rows - 1 + j])
                    == crate::panel::boxed_row(text_of(ev[j]), w as nat)
        },
        !pet.zen && w >= 44 ==> {
            let lw = (w - 38) as nat;
            let st = status_texts(view.lang, *pet, tastes);
            forall|i: int|
                0 <= i < st.len() ==> text_of(lines_view(r@)[2 + i]).subrange(lw + 2int, lw + 38int)
                    == #[trigger] st[i]
        },
        !pet.zen && w >= 44 ==> {
            let lw = (w - 38) as nat;
            let art = art_of(pet.species, mood_of(*pet), frame, size);
            forall|k: int|
                0 <= k < art.len() ==> text_of(lines_view(r@)[sky + 4 + k]).subrange(0, lw as int)
                    == crate::panel::boxed_row(
                    crate::layout::centered(#[trigger] art[k], minus(lw, 4)),
                    lw,
                )
        },
{
    let strings = t(view.lang);
    let mood = pet.mood();
    let right_w: usize = 36;
    let left_w = if pet.zen {
        w
    } else {
        w.saturating_sub(right_w + 2)
    };
    let left = scene_panel(view.lang, pet, mood, frame, size, sky, grass_row, left_w);
    let mut content: Vec<Line> = Vec::new();
    let head = header_split(pet, view, w);
    let blank = empty_line();
    content.push(head);
    content.push(blank);
    proof {
        assert(lines_view(content@)[0] == line_view(head));
        assert(lines_view(content@)[1] == line_view(blank));
    }
    if pet.zen {
        let ghost b0 = lines_view(content@);
        extend_lines(&mut content, left.as_slice());
        proof {
            assert(lines_view(content@)[0] == b0[0]);
            assert(lines_view(content@)[1] == b0[1]);
        }
        let z = center_in(&tinted(strings.zen_mode.to_string(), Color::DarkGrey), w);
        let ghost b1 = content@;
        content.push(z);
        proof {
            assert(content@ =~= b1.push(z));
            assert(lines_view(content@)[0] == lines_view(b1)[0]);
            assert(lines_view(content@)[1] == lines_view(b1)[1]);
        }
        return content;
    }
    let right = status_column(view.lang, pet, tastes);
    let joined = beside(left.as_slice(), right.as_slice(), 2);
    proof {
        if w >= 44 {
            lemma_scene_rows(
                lines_view(left@),
                lines_view(right@),
                lines_view(joined@),
                art_of(pet.species, mood_of(*pet), frame, size),
                sky as nat,
                left_w as nat,
            );
        }
    }
    let ghost b2 = lines_view(content@);
    extend_lines(&mut content, joined.as_slice());
    let ghost mid = lines_view(content@);
    proof {
        assert(mid[0] == b2[0]);
        assert(mid[1] == b2[1]);
        assert forall|i: int| 0 <= i < joined.len() implies #[trigger] mid[2 + i] == lines_view(
            joined@,
        )[i] by {}
    }
    assert(content.len() == 2 + max_nat(left.len() as nat, right.len() as nat));
    if event_rows > 0 {
        let events = events_panel_rows(view, event_rows);
        let panel_events = panel(strings.panel_events, events.as_slice(), w);
        let ghost before = lines_view(content@);
        extend_lines(&mut content, panel_events.as_slice());
        proof {
            let n = content.len() as int;
            let pv = lines_view(panel_events@);
            assert(lines_view(content@) == before + pv);
            assert(lines_view(content@)[0] == before[0]);
            assert(lines_view(content@)[1] == before[1]);
            assert(lines_view(content@)[n - event_rows - 2] == pv[0]);
            assert forall|j: int| 0 <= j < event_rows implies text_of(
                #[trigger] lines_view(content@)[n - event_rows - 1 + j],
            ) == crate::panel::boxed_row(
                text_of(events_of(view.lang, lines_view(view.progress@), lines_view(view.log@), event_rows as nat)[j]),
                w as nat,
            ) by {
                assert(lines_view(content@)[n - event_rows - 1 + j] == pv[j + 1]);
                assert(text_of(pv[j + 1]) == crate::panel::boxed_row(text_of(lines_view(events@)[j]), w as nat));
            }
        }
    } else {
        let ticker: Line = if view.progress.len() > 0 {
            clip_pad(&view.progress[0], w)
        } else if view.log.len() > 0 {
            clip_pad(&view.log[view.log.len() - 1], w)
        } else {
            empty_line()
        };
        let ghost b3 = content@;
        content.push(ticker);
        proof {
            assert(content@ =~= b3.push(ticker));
            assert(lines_view(content@)[0] == lines_view(b3)[0]);
            assert(lines_view(content@)[1] == lines_view(b3)[1]);
        }
    }
    proof {
        assert(lines_view(content@).subrange(0, mid.len() as int) =~= mid);
        assert forall|i: int| 0 <= i < mid.len() implies #[trigger] lines_view(content@)[i] == mid[i] by {
            assert(lines_view(content@)[i] == lines_view(content@).subrange(0, mid.len() as int)[i]);
        }
        if w >= 44 {
            let lw = (w - 38) as nat;
            let st = status_texts(view.lang, *pet, tastes);
            assert forall|i: int| 0 <= i < st.len() implies text_of(lines_view(content@)[2 + i]).subrange(
                lw + 2int,
                lw + 38int,
            ) == #[trigger] st[i] by {
                assert(line_texts(lines_view(right@))[i] == st[i]);
                assert(lines_view(content@)[2 + i] == mid[2 + i]);
                assert(mid[2 + i] == lines_view(joined@)[i]);
            }
        }
    }
    content
}

/// The one-row face: the tiny sprite, the name, the mood dot, the level
/// (and zen), and the zzz slot (blank unless asleep).
pub open spec fn face_row_text(lang: crate::i18n::Lang, p: Pet, frame: usize) -> Seq<char> {
    let m = mood_of(p);
    crate::species::put_face(
        crate::species::tiny_text(p.species),
        crate::pet::face_of(m, frame % 4 == 3).0,
        crate::pet::face_of(m, frame % 4 == 3).1,
    ) + seq![' '] + p.name@ + seq![' ', '●'] + seq![' '] + crate::i18n::table(lang).level_short@
        + seq![' '] + crate::text::dec(p.level as nat) + (if p.zen {
        " · zen"@
    } else {
        Seq::empty()
    }) + seq![' '] + if m == Mood::Sleeping {
        crate::species::zzz_text((frame % 3) as int)
    } else {
        crate::species::spaces(5)
    }
}

/// The four stats as numbers: `F`, `A`, `E`, `H`, each right-aligned in
/// three columns.
pub open spec fn numbers_text(p: Pet) -> Seq<char> {
    seq!['F'] + crate::species::right_align(crate::text::dec(p.hunger as nat), 3) + seq![' ', 'A']
        + crate::species::right_align(crate::text::dec(p.happiness as nat), 3) + seq![' ', 'E']
        + crate::species::right_align(crate::text::dec(p.energy as nat), 3) + seq![' ', 'H']
        + crate::species::right_align(crate::text::dec(p.hygiene as nat), 3)
}

/// The ticker row: the first progress row, else the latest event (none
/// when there is neither).
pub open spec fn ticker_view(v: HomeView) -> Seq<SegV> {
    if v.progress@.len() > 0 {
        line_view(v.progress@[0])
    } else if v.log@.len() > 0 {
        line_view(v.log@.last())
    } else {
        Seq::empty()
    }
}

/// The ticker row: the first progress row, else the latest event.
fn ticker(view: &HomeView) -> (r: Option<Line>)
    ensures
        match r {
            Some(l) => line_view(l) == ticker_view(*view) && (view.progress@.len() > 0
                || view.log@.len() > 0),
            None => view.progress@.len() == 0 && view.log@.len() == 0,
        },
{
    if view.progress.len() > 0 {
        Some(copy_line(&view.progress[0]))
    } else if view.log.len() > 0 {
        Some(copy_line(&view.log[view.log.len() - 1]))
    } else {
        None
    }
}

/// The one-row face: the tiny sprite in the mood's color, the name, the
/// mood dot, the level (and zen), and a reserved slot for the sleeping zzz.
fn face_row(lang: crate::i18n::Lang, pet: &Pet, mood: Mood, frame: usize) -> (r: Line)
    requires
        mood == mood_of(*pet),
    ensures
        text_of(line_view(r)) == face_row_text(lang, *pet, frame),
{
    let strings = t(lang);
    let mc = mood_color(mood);
    let mut face = empty_line();
    add_seg(&mut face, render_tiny(pet.species, mood, frame), Some(mc));
    let mut n: Vec<char> = Vec::new();
    n.push(' ');
    push_str(&mut n, pet.name.as_str());
    add_seg(&mut face, text(n), None);
    let mut d: Vec<char> = Vec::new();
    d.push(' ');
    d.push('●');
    add_seg(&mut face, text(d), Some(mc));
    let mut l: Vec<char> = Vec::new();
    l.push(' ');
    push_str(&mut l, strings.level_short);
    l.push(' ');
    push_dec(&mut l, pet.level as u64);
    if pet.zen {
        push_str(&mut l, " · zen");
    }
    add_seg(&mut face, text(l), Some(Color::DarkGrey));
    let mut z: Vec<char> = Vec::new();
    z.push(' ');
    if mood == Mood::Sleeping {
        push_str(&mut z, zzz(frame));
    } else {
        crate::species::push_spaces(&mut z, 5);
    }
    add_seg(&mut face, text(z), Some(Color::Blue));
    proof {
        assert(text_of(line_view(face)) =~= face_row_text(lang, *pet, frame));
    }
    face
}

/// A stat as the numbers row shows it: its letter, then the value
/// right-aligned in three columns.
fn push_stat(v: &mut Vec<char>, letter: char, value: u8)
    ensures
        final(v)@ == old(v)@ + seq![letter] + crate::species::right_align(
            crate::text::dec(value as nat),
            3,
        ),
{
    v.push(letter);
    crate::layout::push_dec_right(v, value as u64, 3);
}

/// The four stats as numbers on one row, in the color of the lowest.
fn numbers_row(pet: &Pet) -> (r: Line)
    ensures
        line_view(r).len() == 1,
        text_of(line_view(r)) == numbers_text(*pet),
{
    let mut min = pet.hunger;
    if pet.happiness < min {
        min = pet.happiness;
    }
    if pet.energy < min {
        min = pet.energy;
    }
    if pet.hygiene < min {
        min = pet.hygiene;
    }
    let mut v: Vec<char> = Vec::new();
    push_stat(&mut v, 'F', pet.hunger);
    v.push(' ');
    push_stat(&mut v, 'A', pet.happiness);
    v.push(' ');
    push_stat(&mut v, 'E', pet.energy);
    v.push(' ');
    push_stat(&mut v, 'H', pet.hygiene);
    assert(v@ =~= numbers_text(*pet));
    let r = tinted(text(v), level_color(min));
    assert(text_of(line_view(r)) == numbers_text(*pet)) by {
        crate::layout::lemma_single(line_view(r));
    }
    r
}

/// Rows of the stacked layout's sprite, mood and bars, before the header
/// and ticker are considered.
pub open spec fn stacked_core(a: nat, zen: bool, avail: nat) -> nat {
    let n0 = a + 1;
    let n1 = if zen && avail > n0 {
        n0 + 1
    } else {
        n0
    };
    let room = minus(avail, n1);
    if !zen && room >= 6 {
        n1 + 6
    } else if !zen && room >= 5 {
        n1 + 5
    } else {
        n1
    }
}

/// The stacked layout with the sprite has room for the header and its gap.
pub open spec fn stacked_header(a: nat, zen: bool, iw: nat, avail: nat) -> bool {
    iw >= 40 && minus(avail, stacked_core(a, zen, avail)) >= 2
}

/// The stat bars under the mood line of the stacked layout: with six free
/// rows a blank then the bars (compact below 34 columns), with five the
/// compact bars alone; the offset of the first bar and whether compact.
pub open spec fn stacked_bars(a: nat, iw: nat, avail: nat) -> Option<(nat, bool)> {
    let room = minus(avail, a + 1);
    if room >= 6 {
        Some((1nat, iw < 34))
    } else if room >= 5 {
        Some((0nat, true))
    } else {
        None
    }
}

/// The stacked layout with the sprite has room for the ticker below.
pub open spec fn stacked_ticker(a: nat, zen: bool, iw: nat, avail: nat) -> bool {
    let n3 = stacked_core(a, zen, avail) + if stacked_header(a, zen, iw, avail) {
        2nat
    } else {
        0nat
    };
    !zen && minus(avail, n3) >= 1
}

/// The stacked layout for narrow or short terminals, adding sections while
/// they fit `avail` rows: the sprite and mood first, then the bars, the
/// header and the ticker; below the small sprite's size, a one-row face with
/// compact bars or a numbers row, and the ticker, padded to one width.
#[verifier::rlimit(40)]
pub fn build_stacked(pet: &Pet, frame: usize, view: &HomeView, iw: usize, avail: usize) -> (r: Vec<
    Line,
>)
    ensures
        r.len() == stacked_rows(
            art_len(*pet, frame, ArtSize::Small),
            small_art_width(*pet, frame),
            pet.zen,
            iw as nat,
            avail as nat,
        ),
        ({
            let a = art_len(*pet, frame, ArtSize::Small);
            let art = art_of(pet.species, mood_of(*pet), frame, ArtSize::Small);
            let h: int = if stacked_header(a, pet.zen, iw as nat, avail as nat) {
                2
            } else {
                0
            };
            let rv = lines_view(r@);
            small_art_width(*pet, frame) <= iw && a + 1 <= avail ==> {
                &&& h == 2 ==> text_of(rv[0]) == crate::widgets::header_left_text(view.lang, *pet) + seq![
                    ' ',
                    ' ',
                    ' ',
                ] + crate::widgets::header_right_text(*pet, *view) && rv[1] == Seq::<SegV>::empty()
                &&& forall|j: int|
                    0 <= j < a ==> rv[h + j] == seq![(#[trigger] art[j], None::<Color>, None::<Color>)]
                &&& rv[h + a] == crate::widgets::mood_line_view(view.lang, *pet)
                &&& !pet.zen && r.len() > h + a + 1 && stacked_ticker(
                    a,
                    pet.zen,
                    iw as nat,
                    avail as nat,
                ) ==> rv[r.len() - 1] == ticker_view(*view)
                &&& !pet.zen ==> match stacked_bars(a, iw as nat, avail as nat) {
                    Some((off, compact)) => {
                        let first = h + a + 1 + off;
                        let tb = crate::i18n::table(view.lang);
                        &&& off == 1 ==> rv[h + a + 1] == Seq::<SegV>::empty()
                        &&& forall|i: int|
                            0 <= i < 4 ==> text_of(#[trigger] rv[first + i]) == crate::layout::padded(
                                crate::widgets::stat_text(
                                    tb.stat_labels[i]@,
                                    tb.stat_short[i],
                                    crate::widgets::stat_values(*pet)[i],
                                    compact,
                                ),
                                width_of(rv[first + i]),
                            )
                        &&& text_of(rv[first + 4]) == crate::layout::padded(
                            crate::widgets::xp_text(view.lang, *pet, compact),
                            width_of(rv[first + 4]),
                        )
                    },
                    None => true,
                }
            }
        }),
        !(small_art_width(*pet, frame) <= iw && art_len(*pet, frame, ArtSize::Small) + 1 <= avail)
            ==> {
            &&& text_of(lines_view(r@)[0]) == crate::layout::padded(
                face_row_text(view.lang, *pet, frame),
                width_of(lines_view(r@)[0]),
            )
            &&& !pet.zen && 1 <= minus(avail as nat, 1) < 5 ==> text_of(lines_view(r@)[1])
                == crate::layout::padded(numbers_text(*pet), width_of(lines_view(r@)[1]))
        },
{
    let strings = t(view.lang);
    let mood = pet.mood();
    let art = render_art(pet.species, mood, frame, ArtSize::Small);
    let ghost av = art_of(pet.species, mood_of(*pet), frame, ArtSize::Small);
    proof {
        assert(av.len() >= 1);
        assert(crate::assistant::string_views(art@).len() == art@.len());
    }
    let aw = char_count(art[0].as_str());
    proof {
        assert(crate::assistant::string_views(art@)[0] == art@[0]@);
        assert(art@[0]@ == art_of(pet.species, mood_of(*pet), frame, ArtSize::Small)[0]);
    }
    if aw <= iw && art.len() < avail {
        let mut body: Vec<Line> = Vec::new();
        let mut k: usize = 0;
        while k < art.len()
            invariant
                k <= art.len(),
                body.len() == k,
                av == crate::assistant::string_views(art@),
                forall|j: int|
                    0 <= j < k ==> #[trigger] lines_view(body@)[j] == seq![
                        (av[j], None::<Color>, None::<Color>),
                    ],
            decreases art.len() - k,
        {
            let ghost before = lines_view(body@);
            body.push(plain(art[k].clone()));
            proof {
                assert(av[k as int] == art@[k as int]@);
                assert forall|j: int| 0 <= j < k + 1 implies #[trigger] lines_view(body@)[j]
                    == seq![(av[j], None::<Color>, None::<Color>)] by {
                    if j < k {
                        assert(lines_view(body@)[j] == before[j]);
                    }
                }
            }
            k = k + 1;
        }
        let ghost sprite = lines_view(body@);
        body.push(mood_line(view.lang, pet));
        let ghost core = lines_view(body@);
        proof {
            assert(core =~= sprite.push(crate::widgets::mood_line_view(view.lang, *pet)));
        }
        if pet.zen && avail > body.len() {
            body.push(tinted(strings.zen_mode.to_string(), Color::DarkGrey));
        }
        let ghost mut barv: Seq<Seq<SegV>> = Seq::empty();
        if !pet.zen {
            let room = avail.saturating_sub(body.len());
            if room >= 6 {
                let e = empty_line();
                body.push(e);
                let bars = stat_bars(view.lang, pet, iw < 34);
                let ghost b1 = lines_view(body@);
                extend_lines(&mut body, bars.as_slice());
                proof {
                    barv = lines_view(bars@);
                    assert(b1 =~= core.push(line_view(e)));
                }
            } else if room >= 5 {
                let bars = stat_bars(view.lang, pet, true);
                extend_lines(&mut body, bars.as_slice());
                proof {
                    barv = lines_view(bars@);
                }
            }
        }
        let ghost bodyv = lines_view(body@);
        proof {
            assert(lines_view(body@).subrange(0, core.len() as int) =~= core);
        }
        let mut content: Vec<Line> = Vec::new();
        let header = iw >= 40 && avail.saturating_sub(body.len()) >= 2;
        let ghost mut hv: Seq<SegV> = Seq::empty();
        if header {
            let hl = header_line(pet, view);
            proof {
                hv = line_view(hl);
            }
            content.push(hl);
            content.push(empty_line());
        }
        let ghost hh: int = if header {
            2
        } else {
            0
        };
        let ghost pre = lines_view(content@);
        extend_lines(&mut content, body.as_slice());
        proof {
            assert(header == stacked_header(av.len(), pet.zen, iw as nat, avail as nat));
        }
        let ghost mid = lines_view(content@);
        if !pet.zen && avail.saturating_sub(content.len()) >= 1 {
            let tk = match ticker(view) {
                Some(l) => l,
                None => empty_line(),
            };
            content.push(tk);
            proof {
                assert(lines_view(content@) =~= mid.push(line_view(tk)));
                assert(line_view(tk) == ticker_view(*view));
            }
        }
        proof {
            let fv = lines_view(content@);
            assert(fv.subrange(0, mid.len() as int) =~= mid);
            assert(mid =~= pre + lines_view(body@));
            assert forall|j: int| 0 <= j <= av.len() implies fv[hh + j] == #[trigger] core[j] by {
                assert(fv[hh + j] == mid[hh + j]);
                assert(mid[hh + j] == lines_view(body@)[j]);
                assert(lines_view(body@)[j] == core[j]);
            }
            assert forall|j: int| 0 <= j < av.len() implies fv[hh + j] == seq![
                (#[trigger] av[j], None::<Color>, None::<Color>),
            ] by {
                assert(fv[hh + j] == core[j]);
                assert(core[j] == sprite[j]);
            }
            assert(fv[hh + av.len()] == core[av.len() as int]);
            if header {
                assert(fv[0] == mid[0]);
                assert(fv[1] == mid[1]);
                assert(mid[0] == pre[0]);
                assert(mid[1] == pre[1]);
                assert(pre[1] =~= Seq::<SegV>::empty());
            }
            assert(stacked_ticker(av.len(), pet.zen, iw as nat, avail as nat) <==> (!pet.zen
                && minus(avail as nat, mid.len()) >= 1));
            if !pet.zen {
                match stacked_bars(av.len(), iw as nat, avail as nat) {
                    Some((off, compact)) => {
                        let a = av.len();
                        let first = hh + a + 1 + off;
                        assert(barv.len() == 5);
                        assert forall|j: int| 0 <= j < 5 implies #[trigger] fv[first + j] == barv[j] by {
                            assert(fv[first + j] == mid[first + j]);
                            assert(mid[first + j] == bodyv[a + 1 + off + j]);
                        }
                        if off == 1 {
                            assert(fv[hh + a + 1] == mid[hh + a + 1]);
                            assert(mid[hh + a + 1] == bodyv[a + 1int]);
                        }
                    },
                    None => {},
                }
            }
        }
        return content;
    }
    face_block(pet, mood, frame, view, avail)
}

/// The layout below the small sprite's size: the one-row face, then
/// (outside zen mode) the compact bars or a numbers row, and the ticker
/// clipped to the block; all padded to one width.
fn face_block(pet: &Pet, mood: Mood, frame: usize, view: &HomeView, avail: usize) -> (r: Vec<Line>)
    requires
        mood == mood_of(*pet),
    ensures
        r.len() == face_rows(pet.zen, avail as nat),
        text_of(lines_view(r@)[0]) == crate::layout::padded(
            face_row_text(view.lang, *pet, frame),
            width_of(lines_view(r@)[0]),
        ),
        !pet.zen && 1 <= minus(avail as nat, 1) < 5 ==> text_of(lines_view(r@)[1])
            == crate::layout::padded(numbers_text(*pet), width_of(lines_view(r@)[1])),
{
    let mut rows: Vec<Line> = Vec::new();
    let first = face_row(view.lang, pet, mood, frame);
    let ghost fv = line_view(first);
    rows.push(first);
    assert(lines_view(rows@) =~= seq![fv]);
    let ghost mut second: Seq<SegV> = Seq::empty();
    if !pet.zen {
        let room = avail.saturating_sub(1);
        if room >= 5 {
            let bars = stat_bars(view.lang, pet, true);
            extend_lines(&mut rows, bars.as_slice());
            assert(lines_view(rows@)[0] == fv);
        } else if room >= 1 {
            let nr = numbers_row(pet);
            proof {
                second = line_view(nr);
            }
            rows.push(nr);
            assert(lines_view(rows@) =~= seq![fv, second]);
        }
        let ghost kept = lines_view(rows@);
        if avail.saturating_sub(rows.len()) >= 1 {
            let bw = block_w(rows.as_slice());
            let tk = match ticker(view) {
                Some(l) => clip_pad(&l, bw),
                None => empty_line(),
            };
            rows.push(tk);
            assert(lines_view(rows@) =~= kept.push(line_view(tk)));
        }
    }
    proof {
        assert(lines_view(rows@)[0] == fv);
        if !pet.zen && 1 <= minus(avail as nat, 1) < 5 {
            assert(lines_view(rows@)[1] == second);
        }
    }
    pad_block(rows)
}

fn ladder(k: usize) -> (r: (ArtSize, bool, bool, usize))
    requires
        k < 6,
    ensures
        r.0 == rung(k as nat).0,
        r.1 == rung(k as nat).1,
        r.2 == rung(k as nat).2,
        r.3 == rung(k as nat).3,
{
    if k == 0 {
        (ArtSize::Large, true, true, 3)
    } else if k == 1 {
        (ArtSize::Large, false, true, 2)
    } else if k == 2 {
        (ArtSize::Large, false, false, 1)
    } else if k == 3 {
        (ArtSize::Small, false, true, 2)
    } else if k == 4 {
        (ArtSize::Small, false, false, 1)
    } else {
        (ArtSize::Small, false, false, 0)
    }
}

/// Rung `k` of the ladder with the leftover height shared out.
fn build_rung(pet: &Pet, frame: usize, view: &HomeView, w: usize, k: usize, avail: usize, base: usize) -> (r: Vec<Line>)
    requires
        k < 6,
        base == rung_base(*pet, frame, k as nat),
        base <= avail,
    ensures
        r.len() == rung_rows(*pet, frame, avail as nat, k as nat),
        !pet.zen && w >= 44 ==> {
            let lw = (w - 38) as nat;
            let st = status_texts(view.lang, *pet, rung(k as nat).2);
            forall|i: int|
                0 <= i < st.len() ==> text_of(lines_view(r@)[2 + i]).subrange(lw + 2int, lw + 38int)
                    == #[trigger] st[i]
        },
{
    let (size, g, tastes, er) = ladder(k);
    let mut leftover = avail - base;
    let mut events = er;
    if er > 0 {
        let cap = 8usize.saturating_sub(er);
        let extra = if leftover < cap {
            leftover
        } else {
            cap
        };
        events = er + extra;
        leftover = leftover - extra;
    }
    let a = render_art(pet.species, pet.mood(), frame, size).len();
    let sky = if leftover < a {
        leftover
    } else {
        a
    };
    build_panels(pet, frame, view, w, size, g, tastes, events, sky)
}

/// The home screen for an inner area of `iw` × `ih`: the tallest rung of the
/// panel ladder that fits (from 72 columns), its leftover height given to
/// extra event rows and then to sky above the pet; the stacked layout
/// otherwise. Its height is `home_rows`, which depends on the terminal, the
/// sprite and zen mode only.
#[verifier::rlimit(40)]
pub fn build_home(pet: &Pet, frame: usize, view: &HomeView, iw: usize, ih: usize) -> (r: Vec<Line>)
    ensures
        r.len() == home_rows(*pet, frame, iw as nat, ih as nat),
        r.len() <= max_nat(minus(ih as nat, 1), 1),
        iw >= 72 && !pet.zen ==> (first_rung(*pet, frame, minus(ih as nat, 1), 0) matches Some(k) ==> {
            let w: nat = if iw < 96 {
                iw as nat
            } else {
                96
            };
            let lw = (w - 38) as nat;
            let st = status_texts(view.lang, *pet, rung(k).2);
            forall|i: int|
                0 <= i < st.len() ==> text_of(lines_view(r@)[2 + i]).subrange(lw + 2int, lw + 38int)
                    == #[trigger] st[i]
        }),
{
    proof {
        law_home_fits(*pet, frame, iw as nat, ih as nat);
    }
    let avail = ih.saturating_sub(1);
    if iw >= 72 {
        let w = if iw < 96 {
            iw
        } else {
            96
        };
        let mut k: usize = 0;
        while k < 6
            invariant
                k <= 6,
                iw >= 72,
                avail == minus(ih as nat, 1),
                w == (if iw < 96 {
                    iw
                } else {
                    96
                }),
                first_rung(*pet, frame, avail as nat, 0) == first_rung(*pet, frame, avail as nat, k as nat),
            decreases 6 - k,
        {
            let (size, g, tastes, er) = ladder(k);
            let base = build_panels(pet, frame, view, w, size, g, tastes, er, 0);
            if base.len() <= avail {
                proof {
                    assert(first_rung(*pet, frame, avail as nat, k as nat) == Some(k as nat));
                }
                return build_rung(pet, frame, view, w, k, avail, base.len());
            }
            k = k + 1;
        }
    }
    build_stacked(pet, frame, view, iw, avail)
}

// ---------------------------------------------------------------------------
// Modals over the dimmed home screen

/// `+n` or `-n`, as `{:+}` writes it.
pub open spec fn signed_text(n: int) -> Seq<char> {
    if n < 0 {
        seq!['-'] + crate::text::dec((-n) as nat)
    } else {
        seq!['+'] + crate::text::dec(n as nat)
    }
}

fn push_signed(v: &mut Vec<char>, n: i16)
    ensures
        final(v)@ == old(v)@ + signed_text(n as int),
{
    let m: i64 = n as i64;
    if m < 0 {
        v.push('-');
        push_dec(v, (-m) as u64);
    } else {
        v.push('+');
        push_dec(v, m as u64);
    }
    assert(final(v)@ =~= old(v)@ + signed_text(n as int));
}

/// One stat's change, with its sign, the stat's name and two spaces; nothing
/// for no change.
pub open spec fn effect_text(delta: i16, label: Seq<char>) -> Seq<char> {
    if delta == 0 {
        Seq::empty()
    } else {
        signed_text(delta as int) + seq![' '] + label + seq![' ', ' ']
    }
}

fn add_effect(l: &mut Line, delta: i16, label: &str)
    ensures
        text_of(line_view(*final(l))) == text_of(line_view(*old(l))) + effect_text(delta, label@),
{
    if delta != 0 {
        let c = if delta > 0 {
            Color::Green
        } else {
            Color::Red
        };
        let mut v: Vec<char> = Vec::new();
        push_signed(&mut v, delta);
        v.push(' ');
        push_str(&mut v, label);
        v.push(' ');
        v.push(' ');
        let ghost vv = v@;
        add_seg(l, text(v), Some(c));
        assert(vv =~= effect_text(delta, label@));
    } else {
        assert(text_of(line_view(*l)) =~= text_of(line_view(*l)) + effect_text(delta, label@));
    }
}

/// What a food does, stat by stat: each change with its sign, green for a
/// gain and red for a loss; unchanged stats are left out.
pub fn food_effects(lang: crate::i18n::Lang, f: &Food) -> (r: Line)
    ensures
        text_of(line_view(r)) == effect_text(f.hunger, crate::i18n::table(lang).stat_labels[0]@)
            + effect_text(f.happiness, crate::i18n::table(lang).stat_labels[1]@) + effect_text(
            f.energy,
            crate::i18n::table(lang).stat_labels[2]@,
        ) + effect_text(f.hygiene, crate::i18n::table(lang).stat_labels[3]@),
{
    let strings = t(lang);
    let mut l = empty_line();
    add_effect(&mut l, f.hunger, strings.stat_labels[0]);
    add_effect(&mut l, f.happiness, strings.stat_labels[1]);
    add_effect(&mut l, f.energy, strings.stat_labels[2]);
    add_effect(&mut l, f.hygiene, strings.stat_labels[3]);
    assert(text_of(line_view(l)) =~= effect_text(f.hunger, crate::i18n::table(lang).stat_labels[0]@)
        + effect_text(f.happiness, crate::i18n::table(lang).stat_labels[1]@) + effect_text(
        f.energy,
        crate::i18n::table(lang).stat_labels[2]@,
    ) + effect_text(f.hygiene, crate::i18n::table(lang).stat_labels[3]@));
    l
}

/// The actions modal over the dimmed home screen: one numbered row per
/// offered action, glyph and label, the cursor marked. The result is the
/// backdrop's height, or the modal alone when it does not fit.
pub fn actions_screen(
    pet: &Pet,
    frame: usize,
    view: &HomeView,
    items: &[Action],
    sel: usize,
    iw: usize,
    ih: usize,
) -> (r: Vec<Line>)
    ensures
        r.len() == home_rows(*pet, frame, iw as nat, ih as nat) || r.len() == items.len() + 2,
{
    let strings = t(view.lang);
    let w = if iw < 38 {
        iw
    } else {
        38
    };
    let mut body: Vec<Line> = Vec::new();
    let mut i: usize = 0;
    while i < items.len()
        invariant
            i <= items.len(),
            body.len() == i,
        decreases items.len() - i,
    {
        let a = items[i];
        let ix = crate::screen::action_index(a);
        let mut n: Vec<char> = Vec::new();
        push_dec(&mut n, (i as u64) + 1);
        n.push(' ');
        let mut l = empty_line();
        let mut m: Vec<char> = Vec::new();
        m.push(if i == sel {
            '▸'
        } else {
            ' '
        });
        m.push(' ');
        add_seg(&mut l, text(m), Some(Color::Cyan));
        add_seg(&mut l, text(n), Some(Color::Cyan));
        let mut g: Vec<char> = Vec::new();
        crate::layout::push_left(&mut g, ACTION_GLYPHS[ix], 5);
        add_seg(&mut l, text(g), Some(Color::DarkGrey));
        add_seg(
            &mut l,
            strings.action_labels[ix].to_string(),
            if i == sel {
                Some(Color::Cyan)
            } else {
                None
            },
        );
        body.push(l);
        i = i + 1;
    }
    let modal = boxed(Some((strings.actions_title, Color::Magenta)), Color::Magenta, body.as_slice(), w);
    let home = build_home(pet, frame, view, iw, ih);
    let backdrop = dim(home.as_slice());
    proof {
        assert(lines_view(backdrop@).len() == lines_view(home@).len());
    }
    overlay(backdrop, modal.as_slice())
}

/// The food menu modal over the dimmed home screen: a row per food with its
/// icon, name and effects, the cursor marked.
pub fn menu_screen(pet: &Pet, frame: usize, view: &HomeView, sel: usize, iw: usize, ih: usize) -> (r: Vec<
    Line,
>)
    ensures
        r.len() == home_rows(*pet, frame, iw as nat, ih as nat) || r.len() == FOOD_COUNT + 2,
{
    let strings = t(view.lang);
    let w = if iw < 60 {
        iw
    } else {
        60
    };
    let mut body: Vec<Line> = Vec::new();
    let mut i: usize = 0;
    while i < FOOD_COUNT
        invariant
            i <= FOOD_COUNT,
            body.len() == i,
        decreases FOOD_COUNT - i,
    {
        let selected = i == sel;
        let mut l = empty_line();
        let mut m: Vec<char> = Vec::new();
        m.push(if selected {
            '▸'
        } else {
            ' '
        });
        m.push(' ');
        add_seg(&mut l, text(m), Some(Color::Cyan));
        let mut g: Vec<char> = Vec::new();
        push_str(&mut g, FOOD_ICONS[i]);
        g.push(' ');
        add_seg(&mut l, text(g), Some(Color::DarkGrey));
        let mut n: Vec<char> = Vec::new();
        crate::layout::push_left(&mut n, strings.food_names[i], 17);
        add_seg(
            &mut l,
            text(n),
            if selected {
                Some(Color::Cyan)
            } else {
                None
            },
        );
        let f = food(i);
        let fx = food_effects(view.lang, &f);
        add_line(&mut l, &fx);
        body.push(l);
        i = i + 1;
    }
    let modal = boxed(Some((strings.menu_title, Color::Magenta)), Color::Magenta, body.as_slice(), w);
    let home = build_home(pet, frame, view, iw, ih);
    let backdrop = dim(home.as_slice());
    proof {
        assert(lines_view(backdrop@).len() == lines_view(home@).len());
    }
    overlay(backdrop, modal.as_slice())
}

/// The rock-paper-scissors modal over the dimmed home screen: the pet's
/// challenge and the three hands on their number keys.
pub fn game_screen(pet: &Pet, frame: usize, view: &HomeView, iw: usize, ih: usize) -> (r: Vec<Line>)
    ensures
        r.len() == home_rows(*pet, frame, iw as nat, ih as nat) || r.len() == 5,
{
    let strings = t(view.lang);
    let waiting = crate::i18n::msg_game_waiting(view.lang, pet.name.as_str());
    let wl = char_count(waiting.as_str());
    let room: usize = if wl > 30 {
        wl.saturating_add(6)
    } else {
        36
    };
    let w = if iw < room {
        iw
    } else {
        room
    };
    let mut body: Vec<Line> = Vec::new();
    body.push(plain(waiting));
    body.push(empty_line());
    let mut hands = empty_line();
    let mut k: usize = 0;
    while k < 3
        invariant
            k <= 3,
        decreases 3 - k,
    {
        let mut key: Vec<char> = Vec::new();
        push_dec(&mut key, (k + 1) as u64);
        crate::layout::push_seg(&mut hands, crate::line::chip(text(key).as_str()));
        let mut h: Vec<char> = Vec::new();
        h.push(' ');
        push_str(&mut h, strings.hands[k]);
        if k < 2 {
            crate::species::push_spaces(&mut h, 3);
        }
        add_seg(&mut hands, text(h), None);
        k = k + 1;
    }
    body.push(hands);
    let modal = boxed(Some((strings.game_title, Color::Magenta)), Color::Magenta, body.as_slice(), w);
    let home = build_home(pet, frame, view, iw, ih);
    let backdrop = dim(home.as_slice());
    proof {
        assert(lines_view(backdrop@).len() == lines_view(home@).len());
    }
    overlay(backdrop, modal.as_slice())
}

} // verus!
