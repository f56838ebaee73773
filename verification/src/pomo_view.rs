//! The pomodoro screen: the big LCD clock beside the pet, the phase bar and
//! cycle while running, the preset picker while idle, the progress rows
//! below. The clock column has one width and one height in every state, so
//! flipping between idle and running changes the digits and nothing else.

use vstd::prelude::*;
use crate::bigtime::big_time;
use crate::home::grass;
use crate::i18n::{t, table, Lang};
use crate::layout::{
    all_width, lemma_all_width_max, lemma_pad_block_uniform, add_line, add_seg, block_w, char_count, clip_pad, copy_line, empty_line, extend_lines,
    clipped, line_texts, lines_view, max_width, pad_block, spaces, text, text_of, SegV,
};
use crate::line::{line_view, line_w, mood_color, plain, seg, seg_view, tinted, width_of, Color, Line};
use crate::panel::{boxed, minus, panel};
use crate::pet::{Mood, Pet};
use crate::species::{max_len, render_art, render_tiny, ArtSize};
use crate::text::{push_dec, push_str};
use crate::widgets::{header_parts, HomeView};

verus! {

/// A running cycle as the screen shows it.
pub struct PomoRun {
    /// The phase's name ("foco" / "pausa").
    pub label: &'static str,
    pub focus: bool,
    /// Percent of the current phase elapsed.
    pub frac: u8,
    pub cycle: u32,
}

/// Preset `i` of the picker: the cursor mark, its number, its label.
pub open spec fn preset_text(lang: crate::i18n::Lang, i: int, sel: int) -> Seq<char> {
    seq![
        if i == sel {
            '▸'
        } else {
            ' '
        },
        ' ',
    ] + crate::text::dec((i + 1) as nat) + seq![' '] + crate::i18n::table(lang).pomo_preset_labels[i]@
}

/// The running phase's row: a 20-cell bar of the part done, then the cycle.
pub open spec fn phase_text(lang: crate::i18n::Lang, p: PomoRun) -> Seq<char> {
    let raw = p.frac as int * 20 / 100;
    let filled: int = if raw <= 20 {
        raw
    } else {
        20
    };
    crate::line::repeat('█', filled as nat) + crate::line::repeat('░', (20 - filled) as nat) + seq![
        ' ',
        ' ',
    ] + crate::i18n::table(lang).pomo_cycle@ + seq![' '] + crate::text::dec(p.cycle as nat)
}

/// The preset picker: one numbered row per preset, the cursor marked.
fn preset_rows(lang: crate::i18n::Lang, sel: usize) -> (r: Vec<Line>)
    ensures
        r.len() == 3,
        forall|i: int| 0 <= i < 3 ==> text_of(#[trigger] lines_view(r@)[i]) == preset_text(lang, i, sel as int),
{
    let strings = t(lang);
    let mut rows: Vec<Line> = Vec::new();
    let mut i: usize = 0;
    while i < 3
        invariant
            i <= 3,
            rows.len() == i,
            strings == crate::i18n::table(lang),
            forall|j: int| 0 <= j < i ==> text_of(#[trigger] lines_view(rows@)[j]) == preset_text(lang, j, sel as int),
        decreases 3 - i,
    {
        let selected = i == sel;
        let mut l = empty_line();
        let mut m: Vec<char> = Vec::new();
        m.push(if selected {
            '▸'
        } else {
            ' '
        });
        m.push(' ');
        add_seg(&mut l, text(m), Some(Color::Cyan));
        let mut n: Vec<char> = Vec::new();
        push_dec(&mut n, (i + 1) as u64);
        n.push(' ');
        add_seg(&mut l, text(n), Some(Color::Cyan));
        add_seg(
            &mut l,
            strings.pomo_preset_labels[i].to_string(),
            if selected {
                Some(Color::Cyan)
            } else {
                None
            },
        );
        let ghost before = lines_view(rows@);
        proof {
            assert(text_of(line_view(l)) =~= preset_text(lang, i as int, sel as int));
        }
        rows.push(l);
        proof {
            assert(lines_view(rows@) =~= before.push(line_view(l)));
        }
        i = i + 1;
    }
    rows
}

/// The phase bar (20 cells in the phase's color) and the cycle count.
fn phase_row(lang: crate::i18n::Lang, run: &PomoRun, accent: Color) -> (r: Line)
    ensures
        text_of(line_view(r)) == phase_text(lang, *run),
{
    let strings = t(lang);
    let raw: usize = run.frac as usize * 20 / 100;
    let filled = if raw <= 20 {
        raw
    } else {
        20
    };
    let mut l = empty_line();
    add_seg(&mut l, crate::line::repeat_string('█', filled), Some(accent));
    add_seg(&mut l, crate::line::repeat_string('░', 20 - filled), Some(Color::DarkGrey));
    let mut c: Vec<char> = Vec::new();
    c.push(' ');
    c.push(' ');
    push_str(&mut c, strings.pomo_cycle);
    c.push(' ');
    push_dec(&mut c, run.cycle as u64);
    add_seg(&mut l, text(c), Some(Color::DarkGrey));
    assert(text_of(line_view(l)) =~= phase_text(lang, *run));
    l
}

/// The progress rows in a slot of `rows` (at least one): a note when there
/// are none, blank rows after.
/// The tasks panel's rows: the first `rows` progress rows (at least one
/// row; "no tasks" when there are none), blank rows after.
pub open spec fn task_texts(v: HomeView, rows: nat) -> Seq<Seq<char>> {
    let n = crate::home::min_nat(v.progress.len() as nat, rows);
    let first: Seq<Seq<char>> = if n == 0 {
        seq![table(v.lang).pomo_no_tasks@]
    } else {
        Seq::new(n, |k: int| text_of(lines_view(v.progress@)[k]))
    };
    first + Seq::new(minus(crate::home::max_nat(rows, 1), first.len()), |k: int| Seq::<char>::empty())
}

fn task_rows(view: &HomeView, rows: usize) -> (r: Vec<Line>)
    ensures
        r.len() == if rows == 0 {
            1
        } else {
            rows
        },
        line_texts(lines_view(r@)) == task_texts(*view, rows as nat),
{
    let strings = t(view.lang);
    let ghost tt = task_texts(*view, rows as nat);
    let mut tasks: Vec<Line> = Vec::new();
    let mut k: usize = 0;
    while k < view.progress.len() && k < rows
        invariant
            k <= rows,
            k <= view.progress.len(),
            tasks.len() == k,
            forall|j: int| 0 <= j < k ==> #[trigger] lines_view(tasks@)[j] == lines_view(view.progress@)[j],
        decreases rows - k,
    {
        let ghost before = lines_view(tasks@);
        let c = copy_line(&view.progress[k]);
        tasks.push(c);
        proof {
            assert(lines_view(tasks@) =~= before.push(line_view(c)));
            assert forall|j: int| 0 <= j < k + 1 implies #[trigger] lines_view(tasks@)[j]
                == lines_view(view.progress@)[j] by {
                if j < k {
                    assert(lines_view(tasks@)[j] == before[j]);
                }
            }
        }
        k = k + 1;
    }
    let n = k;
    if tasks.len() == 0 {
        let nt = tinted(strings.pomo_no_tasks.to_string(), Color::DarkGrey);
        proof {
            crate::layout::lemma_single(line_view(nt));
        }
        tasks.push(nt);
    }
    let first = tasks.len();
    proof {
        assert forall|j: int| 0 <= j < first implies text_of(#[trigger] lines_view(tasks@)[j]) == tt[j] by {}
    }
    while tasks.len() < rows
        invariant
            tasks.len() >= first,
            first >= 1,
            tt == task_texts(*view, rows as nat),
            tasks.len() <= if rows == 0 {
                1
            } else {
                rows
            },
            tt.len() == if rows == 0 {
                1
            } else {
                rows
            },
            first == if n == 0 { 1 } else { n },
            n == crate::home::min_nat(view.progress.len() as nat, rows as nat),
            forall|j: int| 0 <= j < tasks.len() ==> text_of(#[trigger] lines_view(tasks@)[j]) == tt[j],
        decreases rows - tasks.len(),
    {
        let ghost before = lines_view(tasks@);
        let e = empty_line();
        tasks.push(e);
        proof {
            assert(lines_view(tasks@) =~= before.push(line_view(e)));
            assert forall|j: int| 0 <= j < tasks.len() implies text_of(#[trigger] lines_view(tasks@)[j]) == tt[j] by {
                if j < before.len() {
                    assert(lines_view(tasks@)[j] == before[j]);
                }
            }
        }
    }
    assert(line_texts(lines_view(tasks@)) =~= tt);
    tasks
}

/// The pomodoro key cap of the header.
pub open spec fn pomo_chip_text(lang: crate::i18n::Lang) -> Seq<char> {
    seq![' '] + crate::i18n::table(lang).pomo_title@ + seq![' ']
}

/// The pomodoro screen's header: the pet's identity, spaces up to `w`
/// columns, the key cap.
pub open spec fn pomo_header_text(lang: crate::i18n::Lang, p: Pet, w: nat) -> Seq<char> {
    let l = crate::widgets::header_left_text(lang, p);
    let c = pomo_chip_text(lang);
    l + crate::line::repeat(' ', minus(w, crate::layout::sat(crate::layout::sat(l.len()) + c.len())))
        + c
}

/// Identity on the left, a "pomodoro" key cap on the right, `w` wide.
fn pomo_header(pet: &Pet, view: &HomeView, w: usize) -> (r: Line)
    ensures
        text_of(line_view(r)) == pomo_header_text(view.lang, *pet, w as nat),
{
    let strings = t(view.lang);
    let (mut header, _) = header_parts(pet, view);
    let mut c: Vec<char> = Vec::new();
    c.push(' ');
    push_str(&mut c, strings.pomo_title);
    c.push(' ');
    let mut chip = empty_line();
    let ghost e = line_view(chip);
    let cap = text(c);
    let cs = (cap, Some(Color::Cyan), Some(Color::DarkGrey));
    let ghost csv = seg_view(cs);
    crate::layout::push_seg(&mut chip, cs);
    proof {
        crate::layout::lemma_push(e, csv);
        assert(text_of(e) =~= Seq::<char>::empty());
        assert(text_of(line_view(chip)) =~= pomo_chip_text(view.lang));
        crate::layout::lemma_width_text(line_view(chip));
        crate::layout::lemma_width_text(line_view(header));
    }
    let pad = w.saturating_sub(line_w(&header).saturating_add(line_w(&chip)));
    add_seg(&mut header, spaces(pad), None);
    add_line(&mut header, &chip);
    header
}

/// The pet's sound in parentheses, unless it sleeps.
pub open spec fn sound_text(lang: crate::i18n::Lang, p: Pet, mood: Mood) -> Seq<char> {
    if mood != Mood::Sleeping {
        seq!['(', ' '] + crate::i18n::table(lang).species_sounds[crate::i18n::species_ix(p.species)]@
            + seq![' ', ')']
    } else {
        Seq::empty()
    }
}

/// The sound row over a sprite `aw` wide: the sound right-aligned to it.
pub open spec fn sound_row_text(lang: crate::i18n::Lang, p: Pet, mood: Mood, aw: nat) -> Seq<char> {
    let b = sound_text(lang, p, mood);
    (if b.len() < aw {
        crate::species::spaces((aw - b.len()) as nat)
    } else {
        Seq::empty()
    }) + b
}

/// The rows of the full tier's pet block: the sound row, the sprite and the
/// grass for a size, the tiny face for none.
pub open spec fn block_texts(lang: Lang, p: Pet, mood: Mood, frame: usize, size: Option<ArtSize>) -> Seq<
    Seq<char>,
> {
    match size {
        Some(sz) => {
            let art = crate::species::art_of(p.species, mood, frame, sz);
            let aw: nat = if art.len() > 0 {
                art[0].len()
            } else {
                0
            };
            seq![sound_row_text(lang, p, mood, aw)] + art + seq![
                Seq::new(aw, |k: int| crate::home::GRASS@[k % 26]),
            ]
        },
        None => seq![
            crate::species::put_face(
                crate::species::tiny_text(p.species),
                crate::pet::face_of(mood, frame % 4 == 3).0,
                crate::pet::face_of(mood, frame % 4 == 3).1,
            ),
        ],
    }
}

/// The pet block of the full tier: the sound row, the sprite and the grass,
/// or just the tiny face.
fn pet_block(lang: crate::i18n::Lang, pet: &Pet, mood: Mood, frame: usize, size: Option<ArtSize>) -> (r: Vec<Line>)
    ensures
        match size {
            Some(sz) => {
                let art = crate::species::art_of(pet.species, mood, frame, sz);
                let aw: nat = if art.len() > 0 {
                    art[0].len()
                } else {
                    0
                };
                &&& r.len() == art.len() + 2
                &&& text_of(lines_view(r@)[0]) == sound_row_text(lang, *pet, mood, aw)
                &&& forall|k: int|
                    0 <= k < art.len() ==> text_of(#[trigger] lines_view(r@)[1 + k]) == art[k]
                &&& text_of(lines_view(r@)[art.len() + 1int]) == Seq::new(
                    aw,
                    |k: int| crate::home::GRASS@[k % 26],
                )
            },
            None => {
                &&& r.len() == 1
                &&& text_of(lines_view(r@)[0]) == crate::species::put_face(
                    crate::species::tiny_text(pet.species),
                    crate::pet::face_of(mood, frame % 4 == 3).0,
                    crate::pet::face_of(mood, frame % 4 == 3).1,
                )
            },
        },        line_texts(lines_view(r@)) == block_texts(lang, *pet, mood, frame, size),
{
    match size {
        Some(sz) => {
            let art = render_art(pet.species, mood, frame, sz);
            let ghost av = crate::assistant::string_views(art@);
            let art_w = if art.len() > 0 {
                char_count(art[0].as_str())
            } else {
                0
            };
            proof {
                if art.len() > 0 {
                    assert(av[0] == art@[0]@);
                }
            }
            let mut b: Vec<char> = Vec::new();
            if mood != Mood::Sleeping {
                b.push('(');
                b.push(' ');
                push_str(&mut b, crate::i18n::species_sound(lang, pet.species));
                b.push(' ');
                b.push(')');
            }
            assert(b@ =~= sound_text(lang, *pet, mood));
            let mut bubble: Vec<char> = Vec::new();
            if b.len() < art_w {
                crate::species::push_spaces(&mut bubble, art_w - b.len());
            }
            crate::text::push_all(&mut bubble, b.as_slice());
            assert(bubble@ =~= sound_row_text(lang, *pet, mood, art_w as nat));
            let mut block: Vec<Line> = Vec::new();
            let first = plain(text(bubble));
            proof {
                crate::layout::lemma_single(line_view(first));
            }
            block.push(first);
            let mut k: usize = 0;
            while k < art.len()
                invariant
                    k <= art.len(),
                    block.len() == k + 1,
                    av == crate::assistant::string_views(art@),
                    text_of(lines_view(block@)[0]) == sound_row_text(lang, *pet, mood, art_w as nat),
                    forall|j: int| 0 <= j < k ==> text_of(#[trigger] lines_view(block@)[1 + j]) == av[j],
                decreases art.len() - k,
            {
                let ghost before = lines_view(block@);
                let l = plain(art[k].clone());
                proof {
                    crate::layout::lemma_single(line_view(l));
                    assert(av[k as int] == art@[k as int]@);
                }
                block.push(l);
                proof {
                    assert(lines_view(block@) =~= before.push(line_view(l)));
                }
                k = k + 1;
            }
            let ghost before = lines_view(block@);
            let g = tinted(grass(art_w), Color::DarkGreen);
            proof {
                crate::layout::lemma_single(line_view(g));
            }
            block.push(g);
            proof {
                assert(lines_view(block@) =~= before.push(line_view(g)));
                assert forall|j: int| 0 <= j < art.len() implies text_of(
                    #[trigger] lines_view(block@)[1 + j],
                ) == av[j] by {
                    assert(lines_view(block@)[1 + j] == before[1 + j]);
                }
                let bt = block_texts(lang, *pet, mood, frame, size);
                assert(line_texts(lines_view(block@)).len() == bt.len());
                assert forall|j: int| 0 <= j < bt.len() implies line_texts(lines_view(block@))[j]
                    == bt[j] by {
                    if 1 <= j <= art.len() {
                        assert(text_of(lines_view(block@)[1 + (j - 1)]) == av[j - 1]);
                    }
                }
                assert(line_texts(lines_view(block@)) =~= bt);
            }
            block
        },
        None => {
            let mut block: Vec<Line> = Vec::new();
            let l = tinted(render_tiny(pet.species, mood, frame), mood_color(mood));
            proof {
                crate::layout::lemma_single(line_view(l));
            }
            block.push(l);
            assert(lines_view(block@) =~= seq![line_view(l)]);
            assert(line_texts(lines_view(block@)) =~= block_texts(lang, *pet, mood, frame, size));
            block
        },
    }
}

proof fn lemma_max_width_texts(ls: Seq<Seq<SegV>>)
    ensures
        max_width(ls) == max_len(line_texts(ls)),
    decreases ls.len(),
{
    if ls.len() > 0 {
        lemma_max_width_texts(ls.drop_last());
        crate::layout::lemma_width_text(ls.last());
        assert(line_texts(ls.drop_last()) =~= line_texts(ls).drop_last());
    }
}

/// Row `i` of the full tier's box: the pet's row (blank above and below
/// it) and the clock column's row, side by side; `left` is where the pet's
/// column ends, two columns before the clock.
pub open spec fn full_body_text(b: Seq<Seq<char>>, col: Seq<Seq<char>>, cw: nat, left: nat, i: int) -> Seq<
    char,
> {
    let rows = crate::layout::max_nat(b.len(), col.len());
    let pt = (rows - b.len()) / 2;
    let ct = (rows - col.len()) / 2;
    let pw = crate::layout::sat(max_len(b));
    let pr = if pt <= i < pt + b.len() {
        b[i - pt]
    } else {
        Seq::empty()
    };
    let cr = if ct <= i < ct + col.len() {
        col[i - ct]
    } else {
        crate::line::repeat(' ', cw)
    };
    crate::line::repeat(' ', minus(minus(left, 2), pw)) + pr + crate::line::repeat(
        ' ',
        crate::layout::sat(minus(pw, crate::layout::sat(pr.len())) + 2),
    ) + cr
}

/// The full tier for one pet block: the pet and the clock column side by
/// side, both vertically centered on each other, the pair centered on the
/// screen; in a box titled with the phase, the tasks panel below.
fn full_tier(
    pet: &Pet,
    view: &HomeView,
    block: &Vec<Line>,
    column: &Vec<Line>,
    clock_w: usize,
    title: &str,
    accent: Color,
    iw: usize,
    w: usize,
    left_w: usize,
) -> (r: Vec<Line>)
    requires
        w >= 6,
    ensures
        ({
            let b = line_texts(lines_view(block@));
            let col = line_texts(lines_view(column@));
            let rows = crate::layout::max_nat(block.len() as nat, column.len() as nat);
            let lv = lines_view(r@);
            &&& r.len() == rows + 9
            &&& text_of(lv[0]) == pomo_header_text(view.lang, *pet, w as nat)
            &&& text_of(lv[1]) == Seq::<char>::empty()
            &&& text_of(lv[2]) == crate::panel::boxed_top(Some(title@), w as nat)
            &&& forall|i: int|
                0 <= i < rows ==> text_of(#[trigger] lv[3 + i]) == crate::panel::boxed_row(
                    full_body_text(b, col, clock_w as nat, left_w as nat, i),
                    w as nat,
                ) && lv[3 + i].len() >= 1 && lv[3 + i][0].1 == Some(accent)
            &&& text_of(lv[3 + rows as int]) == crate::panel::boxed_bottom(w as nat)
            &&& text_of(lv[4 + rows as int]) == crate::panel::boxed_top(
                Some(table(view.lang).pomo_tasks@),
                w as nat,
            )
            &&& forall|j: int|
                0 <= j < 3 ==> text_of(#[trigger] lv[5 + rows as int + j]) == crate::panel::boxed_row(
                    task_texts(*view, 3)[j],
                    w as nat,
                )
            &&& text_of(lv[rows as int + 8]) == crate::panel::boxed_bottom(w as nat)
        }),
{
    let strings = t(view.lang);
    let ghost b = line_texts(lines_view(block@));
    let ghost col = line_texts(lines_view(column@));
    let pet_w = block_w(block.as_slice());
    proof {
        lemma_max_width_texts(lines_view(block@));
    }
    let rows = if block.len() >= column.len() {
        block.len()
    } else {
        column.len()
    };
    let pet_top = (rows - block.len()) / 2;
    let col_top = (rows - column.len()) / 2;
    let mut body: Vec<Line> = Vec::new();
    let mut i: usize = 0;
    while i < rows
        invariant
            i <= rows,
            body.len() == i,
            rows == crate::layout::max_nat(block.len() as nat, column.len() as nat),
            pet_top == (rows - block.len()) / 2,
            col_top == (rows - column.len()) / 2,
            pet_w == crate::layout::sat(max_len(b)),
            b == line_texts(lines_view(block@)),
            col == line_texts(lines_view(column@)),
            forall|j: int|
                0 <= j < i ==> text_of(#[trigger] lines_view(body@)[j]) == full_body_text(
                    b,
                    col,
                    clock_w as nat,
                    left_w as nat,
                    j,
                ),
        decreases rows - i,
    {
        let pet_row: Line = if i >= pet_top && i - pet_top < block.len() {
            copy_line(&block[i - pet_top])
        } else {
            empty_line()
        };
        let ghost pr = if pet_top <= i < pet_top + block.len() {
            b[i - pet_top]
        } else {
            Seq::<char>::empty()
        };
        assert(text_of(line_view(pet_row)) == pr);
        proof {
            crate::layout::lemma_width_text(line_view(pet_row));
        }
        let mut l = empty_line();
        add_seg(&mut l, spaces(left_w.saturating_sub(2).saturating_sub(pet_w)), None);
        let gap = pet_w.saturating_sub(line_w(&pet_row)).saturating_add(2);
        add_line(&mut l, &pet_row);
        add_seg(&mut l, spaces(gap), None);
        if i >= col_top && i - col_top < column.len() {
            add_line(&mut l, &column[i - col_top]);
        } else {
            add_seg(&mut l, spaces(clock_w), None);
        }
        assert(text_of(line_view(l)) =~= full_body_text(b, col, clock_w as nat, left_w as nat, i as int));
        let ghost before = lines_view(body@);
        body.push(l);
        proof {
            assert(lines_view(body@) =~= before.push(line_view(l)));
            assert forall|j: int| 0 <= j < i + 1 implies text_of(#[trigger] lines_view(body@)[j])
                == full_body_text(b, col, clock_w as nat, left_w as nat, j) by {
                if j < i {
                    assert(lines_view(body@)[j] == before[j]);
                }
            }
        }
        i = i + 1;
    }
    let mut content: Vec<Line> = Vec::new();
    let head = pomo_header(pet, view, w);
    content.push(head);
    let blank = empty_line();
    content.push(blank);
    let ghost c2 = lines_view(content@);
    assert(c2 =~= seq![line_view(head), line_view(blank)]);
    let framed = boxed(Some((title, accent)), accent, body.as_slice(), w);
    extend_lines(&mut content, framed.as_slice());
    let ghost c3 = lines_view(content@);
    let tasks = task_rows(view, 3);
    let tp = panel(strings.pomo_tasks, tasks.as_slice(), w);
    extend_lines(&mut content, tp.as_slice());
    proof {
        let lv = lines_view(content@);
        let fv = lines_view(framed@);
        assert(c3 == c2 + fv);
        assert(lv == c3 + lines_view(tp@));
        assert(lv[0] == line_view(head));
        assert(lv[1] == line_view(blank));
        assert(lv[2] == fv[0]);
        assert forall|i: int| 0 <= i < rows implies text_of(#[trigger] lv[3 + i])
            == crate::panel::boxed_row(
            full_body_text(b, col, clock_w as nat, left_w as nat, i),
            w as nat,
        ) && lv[3 + i].len() >= 1 && lv[3 + i][0].1 == Some(accent) by {
            assert(lv[3 + i] == fv[1 + i]);
        }
        assert(lv[3 + rows] == fv[rows + 1]);
        assert(lv[4 + rows] == lines_view(tp@)[0]);
        assert(lv[rows + 8] == lines_view(tp@)[4]);
        assert forall|j: int| 0 <= j < 3 implies text_of(#[trigger] lv[5 + rows as int + j])
            == crate::panel::boxed_row(task_texts(*view, 3)[j], w as nat) by {
            assert(lv[5 + rows as int + j] == lines_view(tp@)[1 + j]);
            assert(line_texts(lines_view(tasks@))[j] == text_of(lines_view(tasks@)[j]));
        }
    }
    content
}

/// The rows of the clock column (see `clock_column`).
pub open spec fn column_texts(lang: Lang, clock: Seq<char>, run: Option<&PomoRun>, sel: usize) -> Seq<
    Seq<char>,
> {
    let cw = crate::bigtime::text_width(clock);
    Seq::new(
        10,
        |j: int|
            if j == 0 || j == 6 {
                clipped(Seq::empty(), cw)
            } else if j <= 5 {
                crate::bigtime::time_row(clock, j - 1)
            } else {
                match run {
                    Some(p) => if j == 7 {
                        clipped(phase_text(lang, *p), cw)
                    } else {
                        clipped(Seq::empty(), cw)
                    },
                    None => clipped(preset_text(lang, j - 7, sel as int), cw),
                }
            },
    )
}

/// The clock column: a blank, the five rows of the big clock, a blank, then
/// the running phase's bar or the preset picker, blank rows after; ten rows,
/// each exactly as wide as the clock's digits. Its size depends on the
/// clock's text alone, so flipping between idle and running changes what is
/// shown and nothing else. Returns the column and its width.
pub fn clock_column(lang: crate::i18n::Lang, clock: &str, run: Option<&PomoRun>, sel: usize, accent: Color) -> (r: (
    Vec<Line>,
    usize,
))
    ensures
        r.1 == crate::bigtime::text_width(clock@),
        r.0.len() == 10,
        all_width(lines_view(r.0@), r.1 as nat),
        text_of(lines_view(r.0@)[0]) == clipped(Seq::empty(), r.1 as nat),
        forall|k: int|
            0 <= k < 5 ==> text_of(#[trigger] lines_view(r.0@)[1 + k]) == crate::bigtime::time_row(
                clock@,
                k,
            ),
        text_of(lines_view(r.0@)[6]) == clipped(Seq::empty(), r.1 as nat),
        match run {
            Some(p) => {
                &&& text_of(lines_view(r.0@)[7]) == clipped(phase_text(lang, *p), r.1 as nat)
                &&& text_of(lines_view(r.0@)[8]) == clipped(Seq::empty(), r.1 as nat)
                &&& text_of(lines_view(r.0@)[9]) == clipped(Seq::empty(), r.1 as nat)
            },
            None => forall|i: int|
                0 <= i < 3 ==> text_of(#[trigger] lines_view(r.0@)[7 + i]) == clipped(
                    preset_text(lang, i, sel as int),
                    r.1 as nat,
                ),
        },        line_texts(lines_view(r.0@)) == column_texts(lang, clock@, run, sel),
{
    let clock_art = big_time(clock);
    let clock_w = char_count(clock_art[0].as_str());
    proof {
        crate::bigtime::law_big_time_rows_uniform(clock@, 0);
    }
    let mut raw: Vec<Line> = Vec::new();
    raw.push(empty_line());
    let mut k: usize = 0;
    while k < 5
        invariant
            k <= 5,
            raw.len() == k + 1,
            clock_art.len() == 5,
            forall|r: int| 0 <= r < 5 ==> (#[trigger] clock_art@[r])@ == crate::bigtime::time_row(clock@, r),
            text_of(lines_view(raw@)[0]) == Seq::<char>::empty(),
            forall|j: int|
                0 <= j < k ==> text_of(#[trigger] lines_view(raw@)[1 + j]) == crate::bigtime::time_row(
                    clock@,
                    j,
                ),
        decreases 5 - k,
    {
        let ghost before = lines_view(raw@);
        let row = tinted(clock_art[k].clone(), accent);
        proof {
            crate::layout::lemma_single(line_view(row));
        }
        raw.push(row);
        proof {
            assert(lines_view(raw@) =~= before.push(line_view(row)));
        }
        k = k + 1;
    }
    let ghost pre = lines_view(raw@);
    let blank = empty_line();
    raw.push(blank);
    let ghost top = lines_view(raw@);
    proof {
        assert(top =~= pre.push(line_view(blank)));
    }
    match run {
        Some(r) => raw.push(phase_row(lang, r, accent)),
        None => {
            let presets = preset_rows(lang, sel);
            extend_lines(&mut raw, presets.as_slice());
        },
    }
    let ghost filled = lines_view(raw@);
    while raw.len() < 10
        invariant
            raw.len() <= 10,
            filled.len() <= raw.len(),
            forall|j: int| 0 <= j < filled.len() ==> #[trigger] lines_view(raw@)[j] == filled[j],
            forall|j: int| filled.len() <= j < raw.len() ==> #[trigger] lines_view(raw@)[j] == Seq::<SegV>::empty(),
        decreases 10 - raw.len(),
    {
        let ghost before = lines_view(raw@);
        let e = empty_line();
        raw.push(e);
        proof {
            assert(lines_view(raw@) =~= before.push(line_view(e)));
        }
    }
    proof {
        assert(filled.len() == 8 || filled.len() == 10);
        assert forall|j: int| 0 <= j < 7 implies #[trigger] filled[j] == top[j] by {}
    }
    let mut column: Vec<Line> = Vec::new();
    let mut k: usize = 0;
    while k < raw.len()
        invariant
            k <= raw.len(),
            raw.len() == 10,
            column.len() == k,
            all_width(lines_view(column@), clock_w as nat),
            forall|j: int|
                0 <= j < k ==> text_of(#[trigger] lines_view(column@)[j]) == clipped(
                    text_of(lines_view(raw@)[j]),
                    clock_w as nat,
                ),
        decreases raw.len() - k,
    {
        let c = clip_pad(&raw[k], clock_w);
        let ghost before = column@;
        column.push(c);
        proof {
            assert(column@ =~= before.push(c));
            assert(lines_view(column@) =~= lines_view(before).push(line_view(c)));
        }
        k = k + 1;
    }
    proof {
        assert forall|k: int| 0 <= k < 5 implies text_of(#[trigger] lines_view(column@)[1 + k])
            == crate::bigtime::time_row(clock@, k) by {
            crate::bigtime::law_big_time_rows_uniform(clock@, k);
            assert(lines_view(raw@)[1 + k] == filled[1 + k]);
            assert(filled[1 + k] == top[1 + k]);
            assert(top[1 + k] == pre[1 + k]);
            assert(text_of(pre[1 + k]) == crate::bigtime::time_row(clock@, k));
            assert(crate::bigtime::time_row(clock@, k).take(clock_w as int) =~= crate::bigtime::time_row(
                clock@,
                k,
            ));
        }
        assert(lines_view(raw@)[0] == top[0]);
        assert(lines_view(raw@)[6] == top[6]);
        assert(text_of(top[6]) =~= Seq::<char>::empty());
        match run {
            Some(p) => {
                assert(lines_view(raw@)[7] == filled[7]);
                assert(lines_view(raw@)[8] == Seq::<SegV>::empty());
                assert(lines_view(raw@)[9] == Seq::<SegV>::empty());
                assert(text_of(Seq::<SegV>::empty()) =~= Seq::<char>::empty());
            },
            None => {
                assert forall|i: int| 0 <= i < 3 implies text_of(#[trigger] lines_view(column@)[7 + i])
                    == clipped(preset_text(lang, i, sel as int), clock_w as nat) by {
                    assert(lines_view(raw@)[7 + i] == filled[7 + i]);
                }
            },
        }
        let ct = column_texts(lang, clock@, run, sel);
        let lt = line_texts(lines_view(column@));
        assert forall|j: int| 0 <= j < 10 implies lt[j] == ct[j] by {
            if 1 <= j <= 5 {
                assert(text_of(lines_view(column@)[1 + (j - 1)]) == crate::bigtime::time_row(clock@, j - 1));
            }
            if j >= 7 {
                match run {
                    Some(p) => {},
                    None => {
                        assert(text_of(lines_view(column@)[7 + (j - 7)]) == clipped(
                            preset_text(lang, j - 7, sel as int),
                            clock_w as nat,
                        ));
                    },
                }
            }
        }
        assert(lt =~= ct);
    }
    (column, clock_w)
}
/// The full tier's width: the terminal, up to 96 columns.
pub open spec fn full_w(iw: nat) -> nat {
    if iw < 96 {
        iw
    } else {
        96
    }
}

/// The pet size tried at each step of the full tier: large, small, tiny.
pub open spec fn size_at(tier: int) -> Option<ArtSize> {
    if tier == 0 {
        Some(ArtSize::Large)
    } else if tier == 1 {
        Some(ArtSize::Small)
    } else {
        None
    }
}

/// The pet block and the clock side by side, two columns apart.
pub open spec fn group_w(b: Seq<Seq<char>>, clock: Seq<char>) -> nat {
    crate::layout::sat(
        crate::layout::sat(crate::layout::sat(max_len(b)) + 2) + crate::bigtime::text_width(clock),
    )
}

/// Where the pet's column ends when the pair is centered on the terminal.
pub open spec fn left_of(iw: nat, b: Seq<Seq<char>>, clock: Seq<char>) -> nat {
    let g = group_w(b, clock);
    crate::layout::sat(
        crate::layout::sat(
            minus(minus(((iw - g) / 2) as nat, ((iw - full_w(iw)) / 2) as nat), 2) + crate::layout::sat(
                max_len(b),
            ),
        ) + 2,
    )
}

/// The full tier with a pet of this size fits: the pair inside the box and
/// every row on the screen.
pub open spec fn full_fits(lang: Lang, p: Pet, frame: usize, clock: Seq<char>, iw: nat, ih: nat, size: Option<ArtSize>) -> bool {
    let b = block_texts(lang, p, crate::pet::mood_of(p), frame, size);
    &&& group_w(b, clock) <= minus(full_w(iw), 4)
    &&& crate::layout::max_nat(b.len(), 10) + 9 <= minus(ih, 1)
}

/// The pet size of the full tier: from 72 columns, the largest that fits.
pub open spec fn full_size(lang: Lang, p: Pet, frame: usize, clock: Seq<char>, iw: nat, ih: nat) -> Option<
    Option<ArtSize>,
> {
    if iw < 72 {
        None
    } else if full_fits(lang, p, frame, clock, iw, ih, size_at(0)) {
        Some(size_at(0))
    } else if full_fits(lang, p, frame, clock, iw, ih, size_at(1)) {
        Some(size_at(1))
    } else if full_fits(lang, p, frame, clock, iw, ih, size_at(2)) {
        Some(size_at(2))
    } else {
        None
    }
}

/// The box's title: the phase while running, "pomodoro" otherwise.
pub open spec fn title_of(lang: Lang, run: Option<&PomoRun>) -> Seq<char> {
    match run {
        Some(r) => r.label@,
        None => table(lang).pomo_title@,
    }
}

/// Yellow while focusing, blue on a break, cyan while idle.
pub open spec fn accent_of(run: Option<&PomoRun>) -> Color {
    match run {
        Some(r) => if r.focus {
            Color::Yellow
        } else {
            Color::Blue
        },
        None => Color::Cyan,
    }
}

/// The full tier's rows: the header and a blank; a box titled with the
/// phase, in the accent color, holding the pet beside the clock column
/// (whose second to sixth rows are the big digits); the tasks panel with
/// three task rows.
pub open spec fn full_shown(
    lv: Seq<Seq<SegV>>,
    lang: Lang,
    p: Pet,
    frame: usize,
    clock: Seq<char>,
    run: Option<&PomoRun>,
    sel: usize,
    iw: nat,
    size: Option<ArtSize>,
    tasks: Seq<Seq<char>>,
) -> bool {
    let b = block_texts(lang, p, crate::pet::mood_of(p), frame, size);
    let col = column_texts(lang, clock, run, sel);
    let rows = crate::layout::max_nat(b.len(), 10);
    let w = full_w(iw);
    &&& lv.len() == rows + 9
    &&& text_of(lv[0]) == pomo_header_text(lang, p, w)
    &&& text_of(lv[1]) == Seq::<char>::empty()
    &&& text_of(lv[2]) == crate::panel::boxed_top(Some(title_of(lang, run)), w)
    &&& forall|i: int|
        0 <= i < rows ==> text_of(#[trigger] lv[3 + i]) == crate::panel::boxed_row(
            full_body_text(b, col, crate::bigtime::text_width(clock), left_of(iw, b, clock), i),
            w,
        ) && lv[3 + i].len() >= 1 && lv[3 + i][0].1 == Some(accent_of(run))
    &&& text_of(lv[3 + rows as int]) == crate::panel::boxed_bottom(w)
    &&& text_of(lv[4 + rows as int]) == crate::panel::boxed_top(Some(table(lang).pomo_tasks@), w)
    &&& forall|j: int|
        0 <= j < 3 ==> text_of(#[trigger] lv[5 + rows as int + j]) == crate::panel::boxed_row(tasks[j], w)
    &&& text_of(lv[rows as int + 8]) == crate::panel::boxed_bottom(w)
}


/// The pomodoro screen when the full tier does not fit. With the clock's
/// width and eleven rows: the face and the title, cut to the clock's width,
/// over the clock column; with two more rows, a blank and up to two task
/// rows. Otherwise one status row (face, title, clock), then the presets
/// while idle or the first progress row while running.
pub open spec fn small_shown(
    lv: Seq<Seq<SegV>>,
    v: HomeView,
    p: Pet,
    frame: usize,
    clock: Seq<char>,
    run: Option<&PomoRun>,
    sel: usize,
    iw: nat,
    ih: nat,
) -> bool {
    let cw = crate::bigtime::text_width(clock);
    let avail = minus(ih, 1);
    let mood = crate::pet::mood_of(p);
    let title = title_of(v.lang, run);
    if cw <= iw && avail >= 11 {
        &&& text_of(lv[0]) == clipped(compact_head_text(p, mood, frame, title), cw)
        &&& forall|j: int| 0 <= j < 10 ==> text_of(#[trigger] lv[1 + j]) == column_texts(v.lang, clock, run, sel)[j]
        &&& avail >= 13 ==> {
            let tt = task_texts(v, (avail - 13) as nat);
            &&& lv.len() == 12 + crate::home::min_nat(2, tt.len())
            &&& text_of(lv[11]) == clipped(Seq::empty(), cw)
            &&& forall|j: int| 0 <= j < lv.len() - 12 ==> text_of(#[trigger] lv[12 + j]) == clipped(tt[j], cw)
        }
    } else {
        &&& text_of(lv[0]) == crate::layout::padded(
            pomo_status_text(p, mood, frame, title, clock),
            width_of(lv[0]),
        )
        &&& run is None ==> forall|i: int|
            0 <= i < 3 && 1 + i < lv.len() ==> text_of(#[trigger] lv[1 + i]) == crate::layout::padded(
                preset_text(v.lang, i, sel as int),
                width_of(lv[1 + i]),
            )
        &&& run is Some && v.progress.len() > 0 && lv.len() >= 2 ==> text_of(lv[1]) == crate::layout::padded(
            text_of(lines_view(v.progress@)[0]),
            width_of(lv[1]),
        )
    }
}

/// The pomodoro screen in an `iw` × `ih` inner area, down a ladder of tiers:
/// the full layout (clock beside the large sprite, the small one, or the
/// tiny face) from 72 columns; the compact tier, a block exactly as wide as
/// the clock (face and title over the clock column, then tasks); and a last
/// resort of one status row with the presets or the first task. It always
/// fits the terminal, and below 72 columns it is a block of one width, so
/// centering it line by line keeps one left edge.
#[verifier::rlimit(80)]
pub fn build_pomo(
    pet: &Pet,
    frame: usize,
    view: &HomeView,
    clock: &str,
    run: Option<&PomoRun>,
    sel: usize,
    iw: usize,
    ih: usize,
) -> (r: Vec<Line>)
    ensures
        r.len() <= if ih >= 2 {
            (ih - 1) as nat
        } else {
            1nat
        },
        r.len() >= 1,
        iw < 72 && max_width(lines_view(r@)) <= usize::MAX ==> all_width(
            lines_view(r@),
            max_width(lines_view(r@)),
        ),
        iw < 72 && crate::bigtime::text_width(clock@) <= iw && minus(ih as nat, 1) >= 11 ==> forall|
            k: int,
        |
            0 <= k < 5 ==> text_of(#[trigger] lines_view(r@)[2 + k]) == crate::bigtime::time_row(
                clock@,
                k,
            ),
        full_size(view.lang, *pet, frame, clock@, iw as nat, ih as nat) matches Some(size) ==> full_shown(
            lines_view(r@),
            view.lang,
            *pet,
            frame,
            clock@,
            run,
            sel,
            iw as nat,
            size,
            task_texts(*view, 3),
        ),
        full_size(view.lang, *pet, frame, clock@, iw as nat, ih as nat) is None ==> small_shown(
            lines_view(r@),
            *view,
            *pet,
            frame,
            clock@,
            run,
            sel,
            iw as nat,
            ih as nat,
        ),
{
    let strings = t(view.lang);
    let avail = ih.saturating_sub(1);
    let accent = match run {
        Some(r) => if r.focus {
            Color::Yellow
        } else {
            Color::Blue
        },
        None => Color::Cyan,
    };
    let title: &str = match run {
        Some(r) => r.label,
        None => strings.pomo_title,
    };
    let (column, clock_w) = clock_column(view.lang, clock, run, sel, accent);
    let mood = pet.mood();

    if iw >= 72 {
        let w = if iw < 96 {
            iw
        } else {
            96
        };
        let inner = w - 4;
        let lpad = (iw - w) / 2;
        let mut tier: usize = 0;
        while tier < 3
            invariant
                tier <= 3,
                avail as nat == minus(ih as nat, 1),
                72 <= w <= iw,
                w == full_w(iw as nat),
                lpad == (iw - w) / 2,
                inner == w - 4,
                mood == crate::pet::mood_of(*pet),
                clock_w == crate::bigtime::text_width(clock@),
                line_texts(lines_view(column@)) == column_texts(view.lang, clock@, run, sel),
                column.len() == 10,
                title@ == title_of(view.lang, run),
                accent == accent_of(run),
                forall|t: int| 0 <= t < tier ==> !full_fits(view.lang, *pet, frame, clock@, iw as nat, ih as nat, size_at(t)),
            decreases 3 - tier,
        {
            let size = if tier == 0 {
                Some(ArtSize::Large)
            } else if tier == 1 {
                Some(ArtSize::Small)
            } else {
                None
            };
            assert(size == size_at(tier as int));
            let block = pet_block(view.lang, pet, mood, frame, size);
            let pet_w = block_w(block.as_slice());
            proof {
                lemma_max_width_texts(lines_view(block@));
            }
            let group_w = pet_w.saturating_add(2).saturating_add(clock_w);
            if group_w <= inner {
                let left_w = ((iw - group_w) / 2).saturating_sub(lpad).saturating_sub(2).saturating_add(
                    pet_w,
                ).saturating_add(2);
                let content = full_tier(
                    pet,
                    view,
                    &block,
                    &column,
                    clock_w,
                    title,
                    accent,
                    iw,
                    w,
                    left_w,
                );
                if content.len() <= avail {
                    proof {
                        assert(full_fits(view.lang, *pet, frame, clock@, iw as nat, ih as nat, size));
                        assert(full_size(view.lang, *pet, frame, clock@, iw as nat, ih as nat) == Some(size));
                    }
                    return content;
                }
            }
            tier = tier + 1;
        }
    }
    let r = compact_or_last(pet, view, &column, clock, clock_w, title, accent, mood, frame, run, sel, iw, avail, ih);
    proof {
        if iw < 72 && clock_w <= iw && avail >= 11 {
            assert forall|k: int| 0 <= k < 5 implies text_of(#[trigger] lines_view(r@)[2 + k])
                == crate::bigtime::time_row(clock@, k) by {
                assert(lines_view(r@)[1 + (1 + k)] == lines_view(column@)[1 + k]);
                assert(text_of(lines_view(column@)[1 + k]) == crate::bigtime::time_row(clock@, k));
            }
        }
        assert(title@ == title_of(view.lang, run));
        if clock_w <= iw && avail >= 11 {
            assert forall|j: int| 0 <= j < 10 implies text_of(#[trigger] lines_view(r@)[1 + j])
                == column_texts(view.lang, clock@, run, sel)[j] by {
                assert(lines_view(r@)[1 + j] == lines_view(column@)[j]);
                assert(line_texts(lines_view(column@))[j] == text_of(lines_view(column@)[j]));
            }
        }
    }
    r
}

/// The pet's tiny face in a mood.
pub open spec fn pomo_face_text(p: Pet, mood: Mood, frame: usize) -> Seq<char> {
    crate::species::put_face(
        crate::species::tiny_text(p.species),
        crate::pet::face_of(mood, frame % 4 == 3).0,
        crate::pet::face_of(mood, frame % 4 == 3).1,
    )
}

/// The compact tier's first row: the face, then the box's title.
pub open spec fn compact_head_text(p: Pet, mood: Mood, frame: usize, title: Seq<char>) -> Seq<char> {
    pomo_face_text(p, mood, frame) + seq![' ', ' '] + title
}

/// The last resort's status row: the face, the title and the clock.
pub open spec fn pomo_status_text(p: Pet, mood: Mood, frame: usize, title: Seq<char>, clock: Seq<char>) -> Seq<char> {
    pomo_face_text(p, mood, frame) + seq![' '] + title + seq![' ', ' '] + clock
}

/// The compact tier when it fits, the one-row status otherwise.
fn compact_or_last(
    pet: &Pet,
    view: &HomeView,
    column: &Vec<Line>,
    clock: &str,
    clock_w: usize,
    title: &str,
    accent: Color,
    mood: Mood,
    frame: usize,
    run: Option<&PomoRun>,
    sel: usize,
    iw: usize,
    avail: usize,
    ih: usize,
) -> (r: Vec<Line>)
    requires
        avail == minus(ih as nat, 1),
        column.len() == 10,
        all_width(lines_view(column@), clock_w as nat),
    ensures
        r.len() <= if ih >= 2 {
            (ih - 1) as nat
        } else {
            1nat
        },
        r.len() >= 1,
        max_width(lines_view(r@)) <= usize::MAX ==> all_width(
            lines_view(r@),
            max_width(lines_view(r@)),
        ),
        iw >= clock_w && avail >= 11 ==> forall|j: int|
            0 <= j < 10 ==> #[trigger] lines_view(r@)[1 + j] == lines_view(column@)[j],
        iw >= clock_w && avail >= 11 ==> text_of(lines_view(r@)[0]) == clipped(
            compact_head_text(*pet, mood, frame, title@),
            clock_w as nat,
        ),
        iw >= clock_w && avail >= 13 ==> {
            let tt = task_texts(*view, (avail - 13) as nat);
            &&& r.len() == 12 + crate::home::min_nat(2, tt.len())
            &&& text_of(lines_view(r@)[11]) == clipped(Seq::empty(), clock_w as nat)
            &&& forall|j: int|
                0 <= j < r.len() - 12 ==> text_of(#[trigger] lines_view(r@)[12 + j]) == clipped(
                    tt[j],
                    clock_w as nat,
                )
        },
        !(iw >= clock_w && avail >= 11) ==> {
            let rv = lines_view(r@);
            &&& text_of(rv[0]) == crate::layout::padded(
                pomo_status_text(*pet, mood, frame, title@, clock@),
                width_of(rv[0]),
            )
            &&& run is None ==> forall|i: int|
                0 <= i < 3 && 1 + i < r.len() ==> text_of(#[trigger] rv[1 + i]) == crate::layout::padded(
                    preset_text(view.lang, i, sel as int),
                    width_of(rv[1 + i]),
                )
            &&& run is Some && view.progress.len() > 0 && r.len() >= 2 ==> text_of(rv[1])
                == crate::layout::padded(text_of(lines_view(view.progress@)[0]), width_of(rv[1]))
        },
{
    let face = tinted(render_tiny(pet.species, mood, frame), mood_color(mood));
    proof {
        crate::layout::lemma_single(line_view(face));
    }
    if iw >= clock_w && avail >= 8 {
        let mut header = copy_line(&face);
        add_seg(&mut header, spaces(2), None);
        add_seg(&mut header, title.to_string(), Some(accent));
        assert(text_of(line_view(header)) =~= compact_head_text(*pet, mood, frame, title@));
        let mut content: Vec<Line> = Vec::new();
        let h = clip_pad(&header, clock_w);
        content.push(h);
        let mut k: usize = 0;
        while k < column.len()
            invariant
                k <= column.len(),
                column.len() == 10,
                content.len() == k + 1,
                lines_view(content@)[0] == line_view(h),
                all_width(lines_view(column@), clock_w as nat),
                all_width(lines_view(content@), clock_w as nat),
                forall|j: int| 0 <= j < k ==> #[trigger] lines_view(content@)[1 + j] == lines_view(column@)[j],
            decreases column.len() - k,
        {
            let c = copy_line(&column[k]);
            proof {
                assert(line_view(c) == lines_view(column@)[k as int]);
            }
            let ghost before = content@;
            content.push(c);
            proof {
                assert(content@ =~= before.push(c));
                assert(lines_view(content@) =~= lines_view(before).push(line_view(c)));
            }
            k = k + 1;
        }
        let ghost shown = lines_view(content@);
        if avail >= content.len() + 2 {
            let blank = clip_pad(&empty_line(), clock_w);
            let ghost before = content@;
            content.push(blank);
            proof {
                assert(content@ =~= before.push(blank));
                assert(lines_view(content@) =~= lines_view(before).push(line_view(blank)));
                assert(lines_view(content@).subrange(0, 11) =~= shown);
            }
            let tasks = task_rows(view, avail - content.len() - 1);
            let ghost tt = task_texts(*view, (avail - 13) as nat);
            let mut j: usize = 0;
            while j < tasks.len() && j < 2
                invariant
                    j <= 2,
                    content.len() == 12 + j,
                    line_texts(lines_view(tasks@)) == tt,
                    text_of(lines_view(content@)[11]) == clipped(Seq::empty(), clock_w as nat),
                    forall|i: int|
                        0 <= i < j ==> text_of(#[trigger] lines_view(content@)[12 + i]) == clipped(
                            tt[i],
                            clock_w as nat,
                        ),
                    all_width(lines_view(content@), clock_w as nat),
                    tasks.len() == if avail - 13 == 0 {
                        1
                    } else {
                        avail - 13
                    },
                    lines_view(content@).subrange(0, 11) == shown,
                    j <= tasks.len(),
                    avail >= 13,
                decreases 2 - j,
            {
                let c = clip_pad(&tasks[j], clock_w);
                let ghost before = content@;
                content.push(c);
                proof {
                    assert(content@ =~= before.push(c));
                    assert(lines_view(content@) =~= lines_view(before).push(line_view(c)));
                    assert(lines_view(content@).subrange(0, 11) =~= lines_view(before).subrange(0, 11));
                    assert(line_texts(lines_view(tasks@))[j as int] == text_of(lines_view(tasks@)[j as int]));
                    assert forall|i: int| 0 <= i < j + 1 implies text_of(#[trigger] lines_view(content@)[12 + i])
                        == clipped(tt[i], clock_w as nat) by {
                        if i < j {
                            assert(lines_view(content@)[12 + i] == lines_view(before)[12 + i]);
                        }
                    }
                }
                j = j + 1;
            }
            proof {
                assert(content.len() <= avail);
            }
        }
        proof {
            assert(lines_view(content@).subrange(0, 11) =~= shown);
            assert forall|j: int| 0 <= j < 10 implies #[trigger] lines_view(content@)[1 + j]
                == lines_view(column@)[j] by {
                assert(lines_view(content@)[1 + j] == lines_view(content@).subrange(0, 11)[1 + j]);
            }
            assert(lines_view(content@)[0] == lines_view(content@).subrange(0, 11)[0]);
        }
        if content.len() <= avail {
            proof {
                lemma_all_width_max(lines_view(content@), clock_w as nat);
            }
            return content;
        }
    }
    let strings = t(view.lang);
    let mut status = copy_line(&face);
    let mut s: Vec<char> = Vec::new();
    s.push(' ');
    push_str(&mut s, title);
    s.push(' ');
    s.push(' ');
    add_seg(&mut status, text(s), None);
    add_seg(&mut status, clock.to_string(), Some(accent));
    assert(text_of(line_view(status)) =~= pomo_status_text(*pet, mood, frame, title@, clock@));
    let mut content: Vec<Line> = Vec::new();
    content.push(status);
    let ghost c0 = lines_view(content@);
    match run {
        None => {
            let presets = preset_rows(view.lang, sel);
            extend_lines(&mut content, presets.as_slice());
            proof {
                assert(lines_view(content@) == c0 + lines_view(presets@));
                assert forall|i: int| 0 <= i < 3 implies text_of(#[trigger] lines_view(content@)[1 + i])
                    == preset_text(view.lang, i, sel as int) by {
                    assert(lines_view(content@)[1 + i] == lines_view(presets@)[i]);
                }
            }
        },
        Some(_) => {
            if view.progress.len() > 0 {
                let pl = copy_line(&view.progress[0]);
                content.push(pl);
                proof {
                    assert(lines_view(content@) =~= c0.push(line_view(pl)));
                }
            }
        },
    }
    let ghost full = lines_view(content@);
    assert(full[0] == line_view(status));
    let keep = if avail >= 1 {
        avail
    } else {
        1
    };
    content.truncate(keep);
    proof {
        assert forall|i: int| 0 <= i < content.len() implies #[trigger] lines_view(content@)[i] == full[i] by {}
    }
    let r = pad_block(content);
    proof {
        lemma_pad_block_uniform(lines_view(content@), lines_view(r@));
    }
    r
}

} // verus!
