//! The assistant screen: the pet reacting to what an outside program said,
//! the message in a speech bubble, the queue below. Three tiers by terminal
//! size, from the full layout down to a handful of rows that fit a 26×8
//! pane. The screen's height follows the message's shape (nothing, a
//! message, a question) and never its options, its cursor or a typed answer.

use vstd::prelude::*;
use crate::answer::OPTION_ROWS;
use crate::assistant::{string_views, Kind};
use crate::card::{answer_rows, bubble_panel, countdown_seg, tail_toward_pet, AssistantMsg};
use crate::expression::{animate_art, animate_tiny, animated, kind_face, kind_face_of};
use crate::i18n::{t, table, Lang};
use crate::layout::{
    add_line, add_seg, beside, char_count, copy_line, ellipsize, empty_line, extend_lines,
    lines_view, pad_block, plain_lines, spaces, text, text_of, wrapped_rows, wrapped_text, SegV,
};
use crate::line::{kind_color, line_view, line_w, tinted, width_of, Color, Line};
use crate::panel::{boxed, minus, panel};
use crate::pet::{face_of, Mood, Pet};
use crate::species::{art_rows, render_art_face, render_tiny_face, template_text, ArtSize, Species};
use crate::text::{push_dec, push_str};
use crate::widgets::{header_parts, timer_segs, HomeView};
use crate::home::{max_nat, min_nat};

verus! {

/// Rows of queue preview under the bubble.
pub const QUEUE_ROWS: usize = 2;

pub open spec fn msg_kind(msg: Option<&AssistantMsg>) -> Option<Kind> {
    match msg {
        Some(m) => Some(m.kind),
        None => None,
    }
}

pub open spec fn msg_is_ask(msg: Option<&AssistantMsg>) -> bool {
    match msg {
        Some(m) => m.options is Some,
        None => false,
    }
}

pub open spec fn msg_text(msg: Option<&AssistantMsg>) -> Seq<char> {
    match msg {
        Some(m) => m.text@,
        None => Seq::empty(),
    }
}

/// The pet's face for the message on screen (a calm happy face while idle).
pub open spec fn assistant_face(kind: Option<Kind>, frame: usize) -> (char, char) {
    match kind {
        Some(k) => kind_face_of(k, frame as int),
        None => face_of(Mood::Happy, frame % 4 == 3),
    }
}

/// The sprite with the message's face and animation.
pub open spec fn face_art(species: Species, size: ArtSize, kind: Option<Kind>, frame: usize) -> Seq<
    Seq<char>,
> {
    let f = assistant_face(kind, frame);
    let art = art_rows(template_text(species, size), f.0, f.1, None);
    match kind {
        Some(k) => animated(art, k, frame as int),
        None => art,
    }
}

/// Rows of the full tier: header, blank, then the sprite beside the bubble
/// and the queue panel.
pub open spec fn wide_rows(species: Species, size: ArtSize, kind: Option<Kind>, frame: usize) -> nat {
    2 + max_nat(face_art(species, size, kind, frame).len(), 15)
}

/// Rows of the compact tier: the bubble (six body rows for a question, four
/// otherwise) and the queue count when there is a queue and room.
pub open spec fn compact_rows(is_ask: bool, queue_len: nat, ih: nat) -> nat {
    let c: nat = if is_ask {
        8
    } else {
        6
    };
    if queue_len > 0 && c + 2 <= ih {
        c + 1
    } else {
        c
    }
}

/// Rows of the last-resort tier: a header row, then the text and the
/// options sharing what is left, cut to the terminal.
pub open spec fn last_rows(is_msg: bool, is_ask: bool, text: Seq<char>, iw: nat, ih: nat) -> nat {
    let avail = max_nat(minus(ih, 1), 2);
    let n: nat = if is_msg {
        let opt_rows: nat = if is_ask {
            min_nat(3, minus(avail, 2))
        } else {
            0
        };
        1 + wrapped_rows(text, last_width(iw), last_text_rows(is_ask, ih)).len() + (if is_ask {
            max_nat(opt_rows, 1)
        } else {
            0
        })
    } else {
        2
    };
    min_nat(n, max_nat(minus(ih, 1), 1))
}

/// The last tier's width: the terminal, between 10 and 60 columns.
pub open spec fn last_width(iw: nat) -> nat {
    if iw < 10 {
        10
    } else if iw > 60 {
        60
    } else {
        iw
    }
}

/// The rows the last tier gives a message's text: what the header and the
/// options leave, from one to three.
pub open spec fn last_text_rows(is_ask: bool, ih: nat) -> nat {
    let avail = max_nat(minus(ih, 1), 2);
    let opt_rows: nat = if is_ask {
        min_nat(3, minus(avail, 2))
    } else {
        0
    };
    let t0 = minus(minus(avail, 1), opt_rows);
    if t0 < 1 {
        1
    } else if t0 > 3 {
        3
    } else {
        t0
    }
}

/// The height of the assistant screen in an `iw` × `ih` inner area.
pub open spec fn assistant_rows(
    species: Species,
    frame: usize,
    kind: Option<Kind>,
    is_ask: bool,
    text: Seq<char>,
    queue_len: nat,
    iw: nat,
    ih: nat,
) -> nat {
    let large = wide_rows(species, ArtSize::Large, kind, frame);
    let small = wide_rows(species, ArtSize::Small, kind, frame);
    let compact = compact_rows(is_ask, queue_len, ih);
    if iw >= 72 && large + 1 <= ih {
        large
    } else if iw >= 72 && small + 1 <= ih {
        small
    } else if iw >= 44 && ih >= 7 && compact + 1 <= ih {
        compact
    } else {
        last_rows(kind is Some, is_ask, text, iw, ih)
    }
}

/// The assistant screen fits the terminal: at most one row short of its
/// inner height, never less than one row.
pub proof fn law_assistant_fits(
    species: Species,
    frame: usize,
    kind: Option<Kind>,
    is_ask: bool,
    text: Seq<char>,
    queue_len: nat,
    iw: nat,
    ih: nat,
)
    ensures
        1 <= assistant_rows(species, frame, kind, is_ask, text, queue_len, iw, ih) <= max_nat(
            minus(ih, 1),
            1,
        ),
{
}

/// The wide layout's rows show the message's bubble to the right of the
/// sprite: past the sprite's columns and the gap, row `2 + i` is bubble row
/// `i` (who asks, the text, the meta row), the text's first row carrying the
/// tail toward the pet. Stated where the bubble has its full shape (6
/// columns or more) and the row widths fit the machine.
pub open spec fn bubble_shown(lang: crate::i18n::Lang, 
    rows: Seq<Seq<SegV>>,
    art: Seq<Seq<char>>,
    m: AssistantMsg,
    clock: Seq<char>,
    w: nat,
) -> bool {
    let lw = crate::layout::max_width(crate::layout::plain_lines(art));
    let rw = minus(minus(w, art[0].len()), 2);
    let body = crate::card::bubble_texts(lang, m, clock, minus(rw, 4));
    rw >= 6 && lw + 2 + rw <= usize::MAX ==> {
        &&& forall|i: int|
            1 <= i <= crate::card::BUBBLE_TEXT_ROWS + 2 && i != 2 ==> text_of(
                #[trigger] rows[2 + i],
            ).skip(lw + 2int) == crate::panel::boxed_row(body[i - 1], rw)
        &&& text_of(rows[4]).skip(lw + 2int) == seq!['<', ' '] + crate::panel::boxed_row(
            body[1],
            rw,
        ).skip(2)
    }
}

/// With no message, the bubble beside the sprite says it is waiting for
/// programs.
pub open spec fn waiting_shown(lang: crate::i18n::Lang, rows: Seq<Seq<SegV>>, art: Seq<Seq<char>>, w: nat) -> bool {
    let lw = crate::layout::max_width(crate::layout::plain_lines(art));
    let rw = minus(minus(w, art[0].len()), 2);
    rw >= 6 && lw + 2 + rw <= usize::MAX ==> text_of(rows[3]).skip(lw + 2int) == crate::panel::boxed_row(
        table(lang).no_messages@,
        rw,
    )
}

/// The full tier for one sprite size.
fn wide_tier(
    pet: &Pet,
    frame: usize,
    msg: Option<&AssistantMsg>,
    queue_preview: &[String],
    queue_len: usize,
    view: &HomeView,
    w: usize,
    size: ArtSize,
) -> (r: Vec<Line>)
    ensures
        r.len() == wide_rows(pet.species, size, msg_kind(msg), frame),
        msg matches Some(m) ==> bubble_shown(view.lang, 
            lines_view(r@),
            face_art(pet.species, size, msg_kind(msg), frame),
            *m,
            view.clock_text@,
            w as nat,
        ),
        msg is None ==> waiting_shown(
            view.lang,
            lines_view(r@),
            face_art(pet.species, size, msg_kind(msg), frame),
            w as nat,
        ),
{
    let strings = t(view.lang);
    let face = match msg {
        Some(m) => kind_face(m.kind, frame),
        None => Mood::Happy.face(frame % 4 == 3),
    };
    let mut art = render_art_face(pet.species, size, face.0, face.1);
    proof {
        assert(string_views(art@).len() == art@.len());
        assert(art_rows(template_text(pet.species, size), face.0, face.1, None).len() >= 1);
    }
    match msg {
        Some(m) => {
            art = animate_art(art, m.kind, frame);
        },
        None => {},
    }
    proof {
        assert(string_views(art@) == face_art(pet.species, size, msg_kind(msg), frame));
        assert(string_views(art@).len() == art@.len());
    }
    let art_w = if art.len() > 0 {
        char_count(art[0].as_str())
    } else {
        0
    };
    let right_w = w.saturating_sub(art_w).saturating_sub(2);
    let ghost av = string_views(art@);
    let mut left: Vec<Line> = Vec::new();
    let mut k: usize = 0;
    while k < art.len()
        invariant
            k <= art.len(),
            left.len() == k,
            av == string_views(art@),
            lines_view(left@) == crate::layout::plain_lines(av.take(k as int)),
        decreases art.len() - k,
    {
        let ghost before = lines_view(left@);
        let pl = crate::line::plain(art[k].clone());
        left.push(pl);
        proof {
            assert(av[k as int] == art@[k as int]@);
            assert(lines_view(left@) =~= before.push(line_view(pl)));
            assert(crate::layout::plain_lines(av.take(k + 1)) =~= crate::layout::plain_lines(
                av.take(k as int),
            ).push(seq![(av[k as int], None::<Color>, None::<Color>)]));
        }
        k = k + 1;
    }
    proof {
        assert(av.take(art.len() as int) =~= av);
    }
    let mut right = bubble_panel(view.lang, msg, view.clock_text.as_str(), right_w);
    let ghost bubble = lines_view(right@);
    let mut queue_body: Vec<Line> = Vec::new();
    let mut k: usize = 0;
    while k < queue_preview.len() && k < QUEUE_ROWS
        invariant
            k <= QUEUE_ROWS,
            queue_body.len() == k,
        decreases QUEUE_ROWS - k,
    {
        queue_body.push(tinted(queue_preview[k].clone(), Color::DarkGrey));
        k = k + 1;
    }
    while queue_body.len() < QUEUE_ROWS
        invariant
            queue_body.len() <= QUEUE_ROWS,
        decreases QUEUE_ROWS - queue_body.len(),
    {
        queue_body.push(empty_line());
    }
    let mut qt: Vec<char> = Vec::new();
    push_str(&mut qt, strings.panel_queue);
    qt.push(' ');
    qt.push('(');
    push_dec(&mut qt, queue_len as u64);
    qt.push(')');
    let qtitle = text(qt);
    let qp = panel(qtitle.as_str(), queue_body.as_slice(), right_w);
    extend_lines(&mut right, qp.as_slice());
    proof {
        assert(lines_view(right@) =~= bubble + lines_view(qp@));
    }

    let (mut header, _) = header_parts(pet, view);
    let mut chip = timer_segs(view);
    if chip.len() > 0 {
        add_seg(&mut chip, spaces(3), None);
    }
    let mut tag: Vec<char> = Vec::new();
    tag.push(' ');
    push_str(&mut tag, strings.assistant_tag);
    tag.push(' ');
    crate::layout::push_seg(&mut chip, (text(tag), Some(Color::Cyan), Some(Color::DarkGrey)));
    let pad = w.saturating_sub(line_w(&header).saturating_add(line_w(&chip)));
    add_seg(&mut header, spaces(pad), None);
    add_line(&mut header, &chip);
    let mut c: Vec<Line> = Vec::new();
    c.push(header);
    c.push(empty_line());
    let joined = beside(left.as_slice(), right.as_slice(), 2);
    let ghost c0 = lines_view(c@);
    extend_lines(&mut c, joined.as_slice());
    proof {
        assert(art_w as nat == av[0].len());
        match msg {
            Some(m) => {
                lemma_bubble_beside(
                    lines_view(left@),
                    lines_view(right@),
                    lines_view(joined@),
                    bubble,
                    av,
                    right_w as nat,
                );
                assert forall|i: int| 0 <= i < joined.len() implies #[trigger] lines_view(c@)[2 + i]
                    == lines_view(joined@)[i] by {
                    assert(lines_view(c@) == c0 + lines_view(joined@));
                }
            },
            None => {
                lemma_bubble_beside(
                    lines_view(left@),
                    lines_view(right@),
                    lines_view(joined@),
                    bubble,
                    av,
                    right_w as nat,
                );
                assert(lines_view(c@) == c0 + lines_view(joined@));
                assert(lines_view(c@)[3] == lines_view(joined@)[1]);
            },
        }
    }
    c
}

/// The bubble's rows, set to the right of the sprite, still read as
/// themselves past the sprite's columns and the gap.
proof fn lemma_bubble_beside(
    left: Seq<Seq<SegV>>,
    right: Seq<Seq<SegV>>,
    joined: Seq<Seq<SegV>>,
    bubble: Seq<Seq<SegV>>,
    art: Seq<Seq<char>>,
    rw: nat,
)
    requires
        left == crate::layout::plain_lines(art),
        bubble.len() == crate::card::BUBBLE_BODY_ROWS + 2,
        right.len() >= bubble.len(),
        forall|i: int| 0 <= i < bubble.len() ==> #[trigger] right[i] == bubble[i],
        rw >= 6 ==> forall|i: int| 0 <= i < right.len() ==> width_of(#[trigger] right[i]) == rw,
        joined.len() == max_nat(left.len(), right.len()),
        ({
            let a = crate::layout::max_width(left);
            let b = crate::layout::max_width(right);
            a + 2 + b <= usize::MAX ==> forall|i: int|
                0 <= i < joined.len() ==> text_of(#[trigger] joined[i]) == crate::layout::padded(
                    text_of(crate::layout::row_or_empty(left, i)),
                    a + 2,
                ) + crate::layout::padded(text_of(crate::layout::row_or_empty(right, i)), b)
        }),
    ensures
        ({
            let lw = crate::layout::max_width(left);
            rw >= 6 && lw + 2 + rw <= usize::MAX ==> forall|i: int|
                0 <= i < bubble.len() ==> text_of(#[trigger] joined[i]).skip(lw + 2int) == text_of(
                    bubble[i],
                )
        }),
{
    let lw = crate::layout::max_width(left);
    if rw >= 6 && lw + 2 + rw <= usize::MAX {
        crate::layout::lemma_all_width_max(right, rw);
        assert forall|i: int| 0 <= i < bubble.len() implies text_of(#[trigger] joined[i]).skip(
            lw + 2int,
        ) == text_of(bubble[i]) by {
            let lt = text_of(crate::layout::row_or_empty(left, i));
            if 0 <= i < left.len() {
                crate::layout::lemma_max_width(left, i);
                crate::layout::lemma_width_text(left[i]);
            } else {
                assert(lt =~= Seq::<char>::empty());
            }
            assert(lt.len() <= lw);
            let p = crate::layout::padded(lt, lw + 2);
            assert(p.len() == lw + 2);
            crate::layout::lemma_width_text(right[i]);
            let q = crate::layout::padded(text_of(right[i]), rw);
            assert(q =~= text_of(right[i]));
            assert((p + q).skip(lw + 2int) =~= q);
        }
    }
}

/// The compact tier's face: the tiny sprite with the message's expression,
/// animated by its kind; a happy face when there is none.
pub open spec fn compact_face(p: Pet, frame: usize, msg: Option<&AssistantMsg>) -> Seq<char> {
    match msg {
        Some(m) => crate::expression::animated_tiny(
            crate::species::put_face(
                crate::species::tiny_text(p.species),
                kind_face_of(m.kind, frame as int).0,
                kind_face_of(m.kind, frame as int).1,
            ),
            m.kind,
            frame as int,
        ),
        None => crate::species::put_face(
            crate::species::tiny_text(p.species),
            face_of(Mood::Happy, frame % 4 == 3).0,
            face_of(Mood::Happy, frame % 4 == 3).1,
        ),
    }
}

/// The compact bubble's width beside a face `fw` wide: what is left of the
/// row after the face and a gap, up to 58 columns.
pub open spec fn compact_bw(fw: nat, iw: nat) -> nat {
    min_nat(minus(minus(iw, fw), 1), 58)
}

/// Row `j` of some wrapped rows, blank past them.
pub open spec fn row_or_blank(rows: Seq<Seq<char>>, j: int) -> Seq<char> {
    if 0 <= j < rows.len() {
        rows[j]
    } else {
        Seq::empty()
    }
}

/// The head of a question in the compact bubble: who asks, then the
/// countdown.
pub open spec fn ask_head(lang: Lang, m: AssistantMsg) -> Seq<char> {
    let who = if m.from@.len() > 0 {
        m.from@ + seq![' '] + table(lang).asks_verb@ + seq![':']
    } else {
        Seq::empty()
    };
    match m.expires_in {
        Some(e) => who + (if m.from@.len() > 0 {
            seq![' ', ' ']
        } else {
            Seq::empty()
        }) + crate::card::countdown_text(lang, e),
        None => who,
    }
}

/// The foot of a plain message in the compact bubble: who sent it and its
/// kind.
pub open spec fn say_meta(lang: Lang, m: AssistantMsg) -> Seq<char> {
    (if m.from@.len() > 0 {
        table(lang).from_label@ + seq![':', ' '] + m.from@ + crate::line::repeat(' ', 3)
    } else {
        Seq::empty()
    }) + table(lang).type_label@ + seq![':', ' '] + m.kind_label@
}

/// The texts inside the compact bubble: for a question its head, its text
/// over two rows and the answer slot; for a plain message its text over
/// three rows and its sender and kind; for none, the waiting note.
pub open spec fn compact_body(lang: Lang, msg: Option<&AssistantMsg>, inner: nat) -> Seq<Seq<char>> {
    match msg {
        None => seq![table(lang).no_messages@, Seq::empty(), Seq::empty(), Seq::empty()],
        Some(m) => if m.options is Some {
            let q = wrapped_rows(m.text@, inner, 2);
            seq![ask_head(lang, *m), row_or_blank(q, 0), row_or_blank(q, 1)] + Seq::new(
                OPTION_ROWS as nat,
                |j: int| crate::card::answer_row_text(lang, *m, inner, j),
            )
        } else {
            let q = wrapped_rows(m.text@, inner, 3);
            seq![row_or_blank(q, 0), row_or_blank(q, 1), row_or_blank(q, 2), say_meta(lang, *m)]
        },
    }
}

/// A bubble row: the text boxed, with the tail toward the pet on the
/// bubble's third row.
pub open spec fn bubble_line(t: Seq<char>, bw: nat, i: int) -> Seq<char> {
    if i == 2 {
        seq!['<', ' '] + crate::panel::boxed_row(t, bw).skip(2)
    } else {
        crate::panel::boxed_row(t, bw)
    }
}

/// The answer slot of a question fits in memory (always true of a real
/// terminal).
pub open spec fn compact_fits(lang: Lang, msg: Option<&AssistantMsg>, inner: nat) -> bool {
    match msg {
        Some(m) => m.options is Some ==> crate::card::answer_fits(lang, *m, inner),
        None => true,
    }
}

proof fn lemma_wrapped_rows(lv: Seq<Seq<SegV>>, ws: Seq<Seq<char>>, j: int)
    requires
        lv == plain_lines(ws),
        0 <= j < ws.len(),
    ensures
        text_of(lv[j]) == ws[j],
{
    crate::layout::lemma_single(lv[j]);
}

/// The compact tier's rows past the face and the gap read as the bubble's
/// rows: its texts boxed, the tail on the third row.
proof fn lemma_compact_rows(
    lv: Seq<Seq<SegV>>,
    bv: Seq<Seq<SegV>>,
    boxedv: Seq<Seq<SegV>>,
    bodyv: Seq<Seq<SegV>>,
    cv: Seq<Seq<SegV>>,
    expected: Seq<Seq<char>>,
    fw: nat,
    bw: nat,
)
    requires
        bw >= 6,
        lv.len() == 3,
        crate::layout::max_width(lv) == fw,
        bv.len() == boxedv.len(),
        boxedv.len() == bodyv.len() + 2,
        bodyv.len() == expected.len(),
        bodyv.len() >= 2,
        forall|i: int| 0 <= i < bv.len() && i != 2 ==> #[trigger] bv[i] == boxedv[i],
        text_of(bv[2]) == seq!['<', ' '] + text_of(boxedv[2]).skip(2),
        forall|i: int|
            1 <= i <= bodyv.len() ==> text_of(#[trigger] boxedv[i]) == crate::panel::boxed_row(
                text_of(bodyv[i - 1]),
                bw,
            ),
        forall|i: int| 0 <= i < bv.len() ==> width_of(#[trigger] bv[i]) == bw,
        forall|j: int| 0 <= j < bodyv.len() ==> text_of(#[trigger] bodyv[j]) == expected[j],
        cv.len() == max_nat(lv.len(), bv.len()),
        ({
            let a = crate::layout::max_width(lv);
            let b = crate::layout::max_width(bv);
            a + 1 + b <= usize::MAX ==> forall|i: int|
                0 <= i < cv.len() ==> text_of(#[trigger] cv[i]) == crate::layout::padded(
                    text_of(crate::layout::row_or_empty(lv, i)),
                    a + 1,
                ) + crate::layout::padded(text_of(crate::layout::row_or_empty(bv, i)), b)
        }),
        fw + 1 + bw <= usize::MAX,
    ensures
        forall|j: int|
            0 <= j < expected.len() ==> text_of(#[trigger] cv[1 + j]).skip(fw + 1int) == bubble_line(
                expected[j],
                bw,
                1 + j,
            ),
{
    crate::layout::lemma_all_width_max(bv, bw);
    assert forall|j: int| 0 <= j < expected.len() implies text_of(#[trigger] cv[1 + j]).skip(fw + 1int)
        == bubble_line(expected[j], bw, 1 + j) by {
        let i = 1 + j;
        let lt = text_of(crate::layout::row_or_empty(lv, i));
        if i < 3 {
            crate::layout::lemma_max_width(lv, i);
            crate::layout::lemma_width_text(lv[i]);
        } else {
            assert(lt =~= Seq::<char>::empty());
        }
        let p = crate::layout::padded(lt, fw + 1);
        assert(p.len() == fw + 1);
        assert(crate::layout::row_or_empty(bv, i) == bv[i]);
        crate::layout::lemma_width_text(bv[i]);
        let qq = crate::layout::padded(text_of(bv[i]), bw);
        assert(qq =~= text_of(bv[i]));
        assert((p + qq).skip(fw + 1int) =~= qq);
        assert(text_of(boxedv[i]) == crate::panel::boxed_row(text_of(bodyv[i - 1]), bw));
    }
}

/// The rows inside the compact bubble (see `compact_body`).
#[verifier::rlimit(40)]
fn compact_body_rows(lang: Lang, msg: Option<&AssistantMsg>, inner: usize, color: Color) -> (body: Vec<Line>)
    ensures
        body.len() == compact_body(lang, msg, inner as nat).len(),
        compact_fits(lang, msg, inner as nat) ==> forall|j: int|
            0 <= j < body.len() ==> text_of(#[trigger] lines_view(body@)[j]) == compact_body(
                lang,
                msg,
                inner as nat,
            )[j],
{
    let strings = t(lang);
    let ghost expected = compact_body(lang, msg, inner as nat);
    let ghost fits = compact_fits(lang, msg, inner as nat);
    let mut body: Vec<Line> = Vec::new();
    match msg {
        Some(m) => {
            if m.options.is_some() {
                let mut first = empty_line();
                if !m.from.as_str().is_empty() {
                    let mut v: Vec<char> = Vec::new();
                    push_str(&mut v, m.from.as_str());
                    v.push(' ');
                    push_str(&mut v, strings.asks_verb);
                    v.push(':');
                    add_seg(&mut first, text(v), Some(Color::DarkGrey));
                }
                match m.expires_in {
                    Some(e) => {
                        if first.len() > 0 {
                            add_seg(&mut first, spaces(2), None);
                        }
                        let cd = countdown_seg(lang, e);
                        let ghost before = line_view(first);
                        crate::layout::push_seg(&mut first, cd);
                        proof {
                            crate::layout::lemma_push(before, crate::line::seg_view(cd));
                            assert(crate::line::repeat(' ', 2) =~= seq![' ', ' ']);
                        }
                    },
                    None => {},
                }
                assert(text_of(line_view(first)) =~= expected[0]);
                body.push(first);
                let ghost b0 = lines_view(body@);
                let wrapped = wrapped_text(m.text.as_str(), inner, 2);
                let ghost q = wrapped_rows(m.text@, inner as nat, 2);
                extend_lines(&mut body, wrapped.as_slice());
                let ghost b1 = lines_view(body@);
                if body.len() < 3 {
                    let e = empty_line();
                    body.push(e);
                    proof {
                        assert(lines_view(body@) =~= b1.push(line_view(e)));
                    }
                }
                proof {
                    assert(b1 == b0 + lines_view(wrapped@));
                    assert(lines_view(wrapped@).len() == q.len());
                    assert forall|j: int| 0 <= j < 3 implies text_of(#[trigger] lines_view(body@)[j])
                        == expected[j] by {
                        if j == 0 {
                            assert(lines_view(body@)[0] == b1[0]);
                            assert(b1[0] == b0[0]);
                        } else if j < 1 + q.len() {
                            assert(lines_view(body@)[j] == b1[j]);
                            assert(b1[j] == lines_view(wrapped@)[j - 1]);
                            lemma_wrapped_rows(lines_view(wrapped@), q, j - 1);
                        } else {
                            assert(text_of(lines_view(body@)[j]) =~= Seq::<char>::empty());
                        }
                    }
                }
                let answers = answer_rows(lang, m, inner);
                let ghost b3 = lines_view(body@);
                extend_lines(&mut body, answers.as_slice());
                proof {
                    assert forall|j: int| 0 <= j < 6 && fits implies text_of(#[trigger] lines_view(body@)[j])
                        == expected[j] by {
                        if j < 3 {
                            assert(lines_view(body@)[j] == b3[j]);
                        } else {
                            assert(lines_view(body@)[j] == lines_view(answers@)[j - 3]);
                        }
                    }
                }
            } else {
                let wrapped = wrapped_text(m.text.as_str(), inner, 3);
                let ghost q = wrapped_rows(m.text@, inner as nat, 3);
                extend_lines(&mut body, wrapped.as_slice());
                proof {
                    assert(lines_view(body@) =~= lines_view(wrapped@));
                    assert forall|j: int| 0 <= j < body.len() implies text_of(#[trigger] lines_view(body@)[j])
                        == expected[j] by {
                        lemma_wrapped_rows(lines_view(wrapped@), q, j);
                    }
                }
                while body.len() < 3
                    invariant
                        1 <= body.len() <= 3,
                        expected == compact_body(lang, msg, inner as nat),
                        forall|j: int| 0 <= j < body.len() ==> text_of(#[trigger] lines_view(body@)[j])
                            == expected[j],
                        q == wrapped_rows(m.text@, inner as nat, 3),
                        body.len() >= q.len(),
                        msg == Some(m),
                        m.options is None,
                    decreases 3 - body.len(),
                {
                    let ghost before = lines_view(body@);
                    let e = empty_line();
                    body.push(e);
                    proof {
                        assert(lines_view(body@) =~= before.push(line_view(e)));
                        assert forall|j: int| 0 <= j < body.len() implies text_of(
                            #[trigger] lines_view(body@)[j],
                        ) == expected[j] by {
                            if j < before.len() {
                                assert(lines_view(body@)[j] == before[j]);
                            } else {
                                assert(text_of(lines_view(body@)[j]) =~= Seq::<char>::empty());
                            }
                        }
                    }
                }
                let mut last = empty_line();
                if !m.from.as_str().is_empty() {
                    let mut v: Vec<char> = Vec::new();
                    push_str(&mut v, strings.from_label);
                    v.push(':');
                    v.push(' ');
                    add_seg(&mut last, text(v), Some(Color::DarkGrey));
                    add_seg(&mut last, m.from.clone(), Some(color));
                    add_seg(&mut last, spaces(3), None);
                }
                let mut v: Vec<char> = Vec::new();
                push_str(&mut v, strings.type_label);
                v.push(':');
                v.push(' ');
                push_str(&mut v, m.kind_label);
                add_seg(&mut last, text(v), Some(Color::DarkGrey));
                assert(text_of(line_view(last)) =~= expected[3]);
                let ghost b3 = lines_view(body@);
                body.push(last);
                proof {
                    assert(lines_view(body@) =~= b3.push(line_view(last)));
                    assert forall|j: int| 0 <= j < 4 implies text_of(#[trigger] lines_view(body@)[j])
                        == expected[j] by {
                        if j < 3 {
                            assert(lines_view(body@)[j] == b3[j]);
                        }
                    }
                }
            }
        },
        None => {
            let n0 = tinted(strings.no_messages.to_string(), Color::DarkGrey);
            let e = empty_line();
            proof {
                crate::layout::lemma_single(line_view(n0));
            }
            body.push(n0);
            body.push(empty_line());
            body.push(empty_line());
            body.push(empty_line());
            proof {
                assert forall|j: int| 0 <= j < 4 implies text_of(#[trigger] lines_view(body@)[j])
                    == expected[j] by {
                    if j > 0 {
                        assert(text_of(lines_view(body@)[j]) =~= Seq::<char>::empty());
                    }
                }
            }
        },
    }
    body
}

/// The compact tier: the tiny face beside a small bubble holding the asker,
/// the countdown, the text and the answer slot; the queue count below.
#[verifier::rlimit(60)]
fn compact_tier(lang: crate::i18n::Lang, pet: &Pet, frame: usize, msg: Option<&AssistantMsg>, queue_len: usize, iw: usize, ih: usize) -> (r: Vec<Line>)
    ensures
        r.len() == compact_rows(msg_is_ask(msg), queue_len as nat, ih as nat),
        ({
            let fw = compact_face(*pet, frame, msg).len();
            let bw = compact_bw(fw, iw as nat);
            let body = compact_body(lang, msg, minus(bw, 4));
            bw >= 6 && compact_fits(lang, msg, minus(bw, 4)) ==> forall|j: int|
                0 <= j < body.len() ==> text_of(#[trigger] lines_view(r@)[1 + j]).skip(fw + 1int) == bubble_line(
                    body[j],
                    bw,
                    1 + j,
                )
        }),
{
    let strings = t(lang);
    let face = match msg {
        Some(m) => kind_face(m.kind, frame),
        None => Mood::Happy.face(frame % 4 == 3),
    };
    let mut face_str = render_tiny_face(pet.species, face.0, face.1);
    match msg {
        Some(m) => {
            face_str = animate_tiny(face_str, m.kind, frame);
        },
        None => {},
    }
    let ghost fv = face_str@;
    assert(fv == compact_face(*pet, frame, msg));
    let fw = char_count(face_str.as_str());
    let room = iw.saturating_sub(fw).saturating_sub(1);
    let bubble_w = if room < 58 {
        room
    } else {
        58
    };
    let inner = bubble_w.saturating_sub(4);
    let ghost expected = compact_body(lang, msg, inner as nat);
    let ghost fits = compact_fits(lang, msg, inner as nat);
    let color = match msg {
        Some(m) => kind_color(m.kind),
        None => Color::DarkGrey,
    };
    let body = compact_body_rows(lang, msg, inner, color);
    assert(body.len() == expected.len());
    let bubble = boxed(None, color, body.as_slice(), bubble_w);
    proof {
        assert(text_of(lines_view(bubble@)[2]) == crate::panel::boxed_row(
            text_of(lines_view(body@)[1]),
            bubble_w as nat,
        ));
    }
    let ghost boxedv = lines_view(bubble@);
    let bubble = tail_toward_pet(bubble, color, bubble_w);
    let face_color = match msg {
        Some(m) => kind_color(m.kind),
        None => Color::Green,
    };
    let mut left: Vec<Line> = Vec::new();
    let e0 = empty_line();
    let e1 = empty_line();
    let fl = tinted(face_str, face_color);
    left.push(e0);
    left.push(e1);
    left.push(fl);
    proof {
        let lv = lines_view(left@);
        assert(lv =~= seq![line_view(e0), line_view(e1), line_view(fl)]);
        crate::layout::lemma_single(line_view(fl));
        crate::layout::lemma_width_text(line_view(fl));
        reveal_with_fuel(crate::layout::max_width, 4);
        assert(lv.drop_last() =~= seq![line_view(e0), line_view(e1)]);
        assert(lv.drop_last().drop_last() =~= seq![line_view(e0)]);
        assert(lv.drop_last().drop_last().drop_last() =~= Seq::<Seq<SegV>>::empty());
        assert(crate::layout::max_width(lv) == fw);
    }
    let mut c = beside(left.as_slice(), bubble.as_slice(), 1);
    let ghost cv = lines_view(c@);
    if queue_len > 0 && c.len() + 2 <= ih {
        let mut q: Vec<char> = Vec::new();
        push_str(&mut q, strings.panel_queue);
        q.push(' ');
        q.push('(');
        push_dec(&mut q, queue_len as u64);
        q.push(')');
        c.push(tinted(text(q), Color::DarkGrey));
    }
    proof {
        if bubble_w >= 6 && fits {
            let bv = lines_view(bubble@);
            lemma_compact_rows(
                lines_view(left@),
                bv,
                boxedv,
                lines_view(body@),
                cv,
                expected,
                fw as nat,
                bubble_w as nat,
            );
            assert forall|j: int| 0 <= j < expected.len() implies text_of(#[trigger] lines_view(c@)[1 + j]).skip(
                fw + 1,
            ) == bubble_line(expected[j], bubble_w as nat, 1 + j) by {
                assert(lines_view(c@)[1 + j] == cv[1 + j]);
            }
        }
    }
    c
}

/// The last resort: one header row (face, sender, countdown, queue badge),
/// then the text and the options over the rows that are left, padded to one
/// width.
#[verifier::rlimit(80)]
fn last_tier(lang: crate::i18n::Lang, pet: &Pet, frame: usize, msg: Option<&AssistantMsg>, queue_len: usize, iw: usize, ih: usize) -> (r: Vec<Line>)
    ensures
        r.len() == last_rows(msg is Some, msg_is_ask(msg), msg_text(msg), iw as nat, ih as nat),
        msg matches Some(m) ==> {
            let ws = wrapped_rows(m.text@, last_width(iw as nat), last_text_rows(m.options is Some, ih as nat));
            forall|j: int|
                0 <= j < ws.len() && 1 + j < r.len() ==> text_of(#[trigger] lines_view(r@)[1 + j])
                    == crate::layout::padded(ws[j], width_of(lines_view(r@)[1 + j]))
        },
        msg is None && r.len() >= 2 ==> text_of(lines_view(r@)[1]) == crate::layout::padded(
            table(lang).no_messages@,
            width_of(lines_view(r@)[1]),
        ),
{
    let strings = t(lang);
    let face = match msg {
        Some(m) => kind_face(m.kind, frame),
        None => Mood::Happy.face(frame % 4 == 3),
    };
    let face_color = match msg {
        Some(m) => kind_color(m.kind),
        None => Color::Green,
    };
    let width: usize = if iw < 10 {
        10
    } else if iw > 60 {
        60
    } else {
        iw
    };
    let mut header = empty_line();
    add_seg(&mut header, render_tiny_face(pet.species, face.0, face.1), Some(face_color));
    match msg {
        Some(m) => {
            if !m.from.as_str().is_empty() {
                let mut v: Vec<char> = Vec::new();
                v.push(' ');
                push_str(&mut v, m.from.as_str());
                add_seg(&mut header, text(v), Some(Color::DarkGrey));
            }
            match m.expires_in {
                Some(e) => {
                    add_seg(&mut header, spaces(1), None);
                    crate::layout::push_seg(&mut header, countdown_seg(lang, e));
                },
                None => {},
            }
        },
        None => {},
    }
    if queue_len > 0 {
        let mut v: Vec<char> = Vec::new();
        v.push(' ');
        v.push('+');
        push_dec(&mut v, queue_len as u64);
        add_seg(&mut header, text(v), Some(Color::DarkGrey));
    }
    let mut rows: Vec<Line> = Vec::new();
    rows.push(ellipsize(header, width));
    let a = ih.saturating_sub(1);
    let avail: usize = if a < 2 {
        2
    } else {
        a
    };
    match msg {
        Some(m) => {
            let is_ask = m.options.is_some();
            let spare = avail - 2;
            let opt_rows: usize = if is_ask {
                if spare < OPTION_ROWS {
                    spare
                } else {
                    OPTION_ROWS
                }
            } else {
                0
            };
            let t0 = (avail - 1).saturating_sub(opt_rows);
            let text_rows: usize = if t0 < 1 {
                1
            } else if t0 > 3 {
                3
            } else {
                t0
            };
            let wrapped = wrapped_text(m.text.as_str(), width, text_rows);
            proof {
                assert(lines_view(wrapped@).len() == wrapped@.len());
                assert(plain_lines(wrapped_rows(m.text@, width as nat, text_rows as nat)).len()
                    == wrapped_rows(m.text@, width as nat, text_rows as nat).len());
            }
            let ghost h1 = lines_view(rows@);
            extend_lines(&mut rows, wrapped.as_slice());
            let ghost h2 = lines_view(rows@);
            proof {
                let ws = wrapped_rows(m.text@, width as nat, text_rows as nat);
                assert(h2 == h1 + plain_lines(ws));
                assert forall|j: int| 0 <= j < ws.len() implies text_of(#[trigger] h2[1 + j]) == ws[j] by {
                    assert(h2[1 + j] == plain_lines(ws)[j]);
                    crate::layout::lemma_single(plain_lines(ws)[j]);
                }
            }
            if is_ask {
                let answers = answer_rows(lang, m, width);
                let take: usize = if opt_rows < 1 {
                    1
                } else {
                    opt_rows
                };
                let mut k: usize = 0;
                while k < take
                    invariant
                        k <= take,
                        take <= OPTION_ROWS,
                        answers.len() == OPTION_ROWS,
                        rows.len() == 1 + wrapped.len() + k,
                        h2.len() == 1 + wrapped.len(),
                        forall|i: int| 0 <= i < h2.len() ==> #[trigger] lines_view(rows@)[i] == h2[i],
                    decreases take - k,
                {
                    let ghost before = lines_view(rows@);
                    let cl = copy_line(&answers[k]);
                    rows.push(cl);
                    proof {
                        assert(lines_view(rows@) =~= before.push(line_view(cl)));
                        assert forall|i: int| 0 <= i < h2.len() implies #[trigger] lines_view(rows@)[i] == h2[i] by {
                            assert(lines_view(rows@)[i] == before[i]);
                        }
                    }
                    k = k + 1;
                }
            }
        },
        None => {
            let nm = tinted(strings.no_messages.to_string(), Color::DarkGrey);
            proof {
                crate::layout::lemma_single(line_view(nm));
            }
            rows.push(nm);
        },
    }
    let ghost full = lines_view(rows@);
    let keep = if a < 1 {
        1
    } else {
        a
    };
    rows.truncate(keep);
    proof {
        assert forall|i: int| 0 <= i < rows.len() implies #[trigger] lines_view(rows@)[i] == full[i] by {}
    }
    pad_block(rows)
}

/// The assistant screen in an `iw` × `ih` inner area: the full layout with
/// the large sprite, then the small one (from 72 columns), the compact tier
/// (from 44 × 7), and the last resort. Its height is `assistant_rows`, which
/// no option list, cursor, typed answer or queue preview changes.
pub fn build_assistant(
    pet: &Pet,
    frame: usize,
    msg: Option<&AssistantMsg>,
    queue_preview: &[String],
    queue_len: usize,
    view: &HomeView,
    iw: usize,
    ih: usize,
) -> (r: Vec<Line>)
    ensures
        r.len() == assistant_rows(
            pet.species,
            frame,
            msg_kind(msg),
            msg_is_ask(msg),
            msg_text(msg),
            queue_len as nat,
            iw as nat,
            ih as nat,
        ),
        1 <= r.len() <= max_nat(minus(ih as nat, 1), 1),
        msg matches Some(m) ==> iw >= 72 ==> {
            let w: nat = if iw < 96 {
                iw as nat
            } else {
                96
            };
            let large = wide_rows(pet.species, ArtSize::Large, msg_kind(msg), frame);
            let small = wide_rows(pet.species, ArtSize::Small, msg_kind(msg), frame);
            &&& large < ih ==> bubble_shown(view.lang, 
                lines_view(r@),
                face_art(pet.species, ArtSize::Large, msg_kind(msg), frame),
                *m,
                view.clock_text@,
                w,
            )
            &&& large >= ih && small < ih ==> bubble_shown(view.lang, 
                lines_view(r@),
                face_art(pet.species, ArtSize::Small, msg_kind(msg), frame),
                *m,
                view.clock_text@,
                w,
            )
        },
        msg is None ==> iw >= 72 ==> {
            let w: nat = if iw < 96 {
                iw as nat
            } else {
                96
            };
            let large = wide_rows(pet.species, ArtSize::Large, msg_kind(msg), frame);
            let small = wide_rows(pet.species, ArtSize::Small, msg_kind(msg), frame);
            &&& large < ih ==> waiting_shown(
                view.lang,
                lines_view(r@),
                face_art(pet.species, ArtSize::Large, msg_kind(msg), frame),
                w,
            )
            &&& large >= ih && small < ih ==> waiting_shown(
                view.lang,
                lines_view(r@),
                face_art(pet.species, ArtSize::Small, msg_kind(msg), frame),
                w,
            )
        },
        ({
            let large = wide_rows(pet.species, ArtSize::Large, msg_kind(msg), frame);
            let small = wide_rows(pet.species, ArtSize::Small, msg_kind(msg), frame);
            let fw = compact_face(*pet, frame, msg).len();
            let bw = compact_bw(fw, iw as nat);
            let body = compact_body(view.lang, msg, minus(bw, 4));
            (iw < 72 || (large >= ih && small >= ih)) && iw >= 44 && ih >= 7 && compact_rows(
                msg_is_ask(msg),
                queue_len as nat,
                ih as nat,
            ) < ih && bw >= 6 && compact_fits(view.lang, msg, minus(bw, 4)) ==> forall|j: int|
                0 <= j < body.len() ==> text_of(#[trigger] lines_view(r@)[1 + j]).skip(fw + 1int) == bubble_line(
                    body[j],
                    bw,
                    1 + j,
                )
        }),
        ({
            let large = wide_rows(pet.species, ArtSize::Large, msg_kind(msg), frame);
            let small = wide_rows(pet.species, ArtSize::Small, msg_kind(msg), frame);
            let last = (iw < 72 || (large >= ih && small >= ih)) && !(iw >= 44 && ih >= 7 && compact_rows(
                msg_is_ask(msg),
                queue_len as nat,
                ih as nat,
            ) < ih);
            last ==> match msg {
                Some(m) => {
                    let ws = wrapped_rows(m.text@, last_width(iw as nat), last_text_rows(m.options is Some, ih as nat));
                    forall|j: int|
                        0 <= j < ws.len() && 1 + j < r.len() ==> text_of(#[trigger] lines_view(r@)[1 + j])
                            == crate::layout::padded(ws[j], width_of(lines_view(r@)[1 + j]))
                },
                None => r.len() >= 2 ==> text_of(lines_view(r@)[1]) == crate::layout::padded(
                    table(view.lang).no_messages@,
                    width_of(lines_view(r@)[1]),
                ),
            }
        }),
{
    proof {
        law_assistant_fits(
            pet.species,
            frame,
            msg_kind(msg),
            msg_is_ask(msg),
            msg_text(msg),
            queue_len as nat,
            iw as nat,
            ih as nat,
        );
    }
    if iw >= 72 {
        let w = if iw < 96 {
            iw
        } else {
            96
        };
        let c = wide_tier(pet, frame, msg, queue_preview, queue_len, view, w, ArtSize::Large);
        if c.len() < ih {
            return c;
        }
        let c = wide_tier(pet, frame, msg, queue_preview, queue_len, view, w, ArtSize::Small);
        if c.len() < ih {
            return c;
        }
    }
    if iw >= 44 && ih >= 7 {
        let c = compact_tier(view.lang, pet, frame, msg, queue_len, iw, ih);
        if c.len() < ih {
            return c;
        }
    }
    last_tier(view.lang, pet, frame, msg, queue_len, iw, ih)
}

} // verus!
