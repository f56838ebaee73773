//! The message card of the assistant screen: the speech bubble with its text,
//! the `from · type · time` row, the expiry countdown and the answer slot.
//! The card has the same height for every message; only its shape (nothing,
//! a message, a question) decides what goes in it.

use vstd::prelude::*;
use crate::answer::{input_rows, option_labels, option_rows, OPTION_ROWS};
use crate::assistant::{string_views, Kind};
use crate::i18n::{t, table, Lang};
use crate::layout::{
    add_line, add_seg, char_count, empty_line, extend_lines, line_texts, lines_view, plain_lines, spaces, text, text_of,
    wrapped_rows, wrapped_text, SegV,
};
use crate::line::{kind_color, line_view, seg, seg_view, tinted, width_of, Color, Line, Seg};
use crate::panel::boxed;
use crate::species::right_align;
use crate::text::{dec, push_str};

verus! {

/// What the assistant screen shows of the current message.
pub struct AssistantMsg {
    pub text: String,
    pub from: String,
    pub kind: Kind,
    pub kind_label: &'static str,
    /// The options of a question; `None` for a plain message.
    pub options: Option<Vec<String>>,
    /// Seconds until the question is dropped.
    pub expires_in: Option<u64>,
    /// The typed answer while the field is open.
    pub input: Option<String>,
    /// A typed answer is offered as one more option.
    pub input_ok: bool,
    /// The highlighted option.
    pub sel: usize,
}

/// Rows of message text a card holds.
pub const BUBBLE_TEXT_ROWS: usize = 4;

/// Rows inside a bubble: text, a blank, the meta row, the answer slot.
pub const BUBBLE_BODY_ROWS: usize = 9;

/// The labels a question offers: its options (and the typed answer when
/// allowed).
pub open spec fn offered(lang: crate::i18n::Lang, m: AssistantMsg) -> Seq<Seq<char>> {
    crate::answer::labels_of(
        lang,
        match m.options {
            Some(o) => string_views(o@),
            None => Seq::empty(),
        },
        m.input_ok,
    )
}

/// Row `j` of the answer slot: the typed-answer field while it is open,
/// else the option in that row of the scrolled window (blank past the
/// options).
pub open spec fn answer_row_text(lang: crate::i18n::Lang, m: AssistantMsg, w: nat, j: int) -> Seq<char> {
    match m.input {
        Some(buf) => crate::answer::field_row(
            crate::answer::input_lines_of(buf@, crate::answer::field_width(w)),
            OPTION_ROWS as nat,
            j,
        ),
        None => {
            let ov = offered(lang, m);
            let start = crate::answer::window_start(ov.len(), m.sel as nat);
            let end = crate::answer::window_end(ov.len(), m.sel as nat);
            if start + j < end {
                crate::answer::ellipsized(crate::answer::option_row(ov, m.sel as nat, w, start + j), w)
            } else {
                Seq::empty()
            }
        },
    }
}

/// Every option row of the slot fits in memory.
pub open spec fn answer_fits(lang: crate::i18n::Lang, m: AssistantMsg, w: nat) -> bool {
    m.input is None ==> forall|j: int|
        0 <= j < OPTION_ROWS && crate::answer::window_start(offered(lang, m).len(), m.sel as nat) + j
            < crate::answer::window_end(offered(lang, m).len(), m.sel as nat) ==> #[trigger] crate::answer::option_row(
            offered(lang, m),
            m.sel as nat,
            w,
            crate::answer::window_start(offered(lang, m).len(), m.sel as nat) + j,
        ).len() <= usize::MAX
}

/// The answer slot of a question: the typed-answer field while it is open,
/// the options otherwise. Always `OPTION_ROWS` rows.
pub fn answer_rows(lang: crate::i18n::Lang, m: &AssistantMsg, w: usize) -> (r: Vec<Line>)
    ensures
        r.len() == OPTION_ROWS,
        m.input matches Some(buf) ==> forall|j: int|
            0 <= j < OPTION_ROWS ==> text_of(#[trigger] lines_view(r@)[j])
                == crate::answer::field_row(
                crate::answer::input_lines_of(buf@, crate::answer::field_width(w as nat)),
                OPTION_ROWS as nat,
                j,
            ),
        m.input is None ==> forall|j: int|
            0 <= j < OPTION_ROWS ==> {
                let ov = crate::answer::labels_of(lang, 
                    match m.options {
                        Some(o) => string_views(o@),
                        None => Seq::empty(),
                    },
                    m.input_ok,
                );
                let start = crate::answer::window_start(ov.len(), m.sel as nat);
                let end = crate::answer::window_end(ov.len(), m.sel as nat);
                if start + j < end {
                    crate::answer::option_row(ov, m.sel as nat, w as nat, start + j).len() <= usize::MAX
                        ==> text_of(#[trigger] lines_view(r@)[j]) == crate::answer::ellipsized(
                        crate::answer::option_row(ov, m.sel as nat, w as nat, start + j),
                        w as nat,
                    )
                } else {
                    text_of(lines_view(r@)[j]) == Seq::<char>::empty()
                }
            },
        answer_fits(lang, *m, w as nat) ==> forall|j: int|
            0 <= j < OPTION_ROWS ==> text_of(#[trigger] lines_view(r@)[j]) == answer_row_text(lang, *m, w as nat, j),
{
    match &m.input {
        Some(buf) => input_rows(buf.as_str(), w, OPTION_ROWS),
        None => {
            let labels = match &m.options {
                Some(opts) => option_labels(lang, opts.as_slice(), m.input_ok),
                None => {
                    let none: Vec<String> = Vec::new();
                    assert(string_views(none@) =~= Seq::<Seq<char>>::empty());
                    option_labels(lang, none.as_slice(), m.input_ok)
                },
            };
            option_rows(labels.as_slice(), m.sel, w)
        },
    }
}

pub proof fn lemma_dec_short(n: nat)
    requires
        n < 1000,
    ensures
        1 <= crate::text::dec(n).len() <= 3,
    decreases n,
{
    if n >= 10 {
        lemma_dec_short(n / 10);
        if n / 10 >= 100 {
            assert(false);
        }
        if n / 10 >= 10 {
            assert(n / 10 / 10 < 10);
            assert(crate::text::dec(n / 10 / 10).len() == 1);
        }
    }
}

/// The expiry countdown, fixed-width so its ticking never reflows the row:
/// the label and the seconds (capped at 999) right-aligned in three
/// columns; red from 10 seconds down, yellow before.
pub fn countdown_seg(lang: crate::i18n::Lang, expires_in: u64) -> (r: Seg)
    ensures
        seg_view(r) == (
            table(lang).expires_label@ + seq![' '] + right_align(
                dec(if expires_in < 999 {
                    expires_in as nat
                } else {
                    999
                }),
                3,
            ) + seq!['s'],
            Some(
                if expires_in <= 10 {
                    Color::Red
                } else {
                    Color::Yellow
                },
            ),
            None::<Color>,
        ),
        r.0@.len() == table(lang).expires_label@.len() + 5,
{
    let shown: u64 = if expires_in < 999 {
        expires_in
    } else {
        999
    };
    let color = if expires_in <= 10 {
        Color::Red
    } else {
        Color::Yellow
    };
    let mut v: Vec<char> = Vec::new();
    push_str(&mut v, t(lang).expires_label);
    v.push(' ');
    crate::layout::push_dec_right(&mut v, shown, 3);
    v.push('s');
    proof {
        lemma_dec_short(shown as nat);
    }
    (text(v), Some(color), None)
}

/// The width of a line whose first segment is replaced by one of the same
/// text length is unchanged.
pub proof fn lemma_swap_first(l: Seq<SegV>, s: SegV)
    requires
        l.len() >= 1,
        s.0.len() == l[0].0.len(),
    ensures
        width_of(l.update(0, s)) == width_of(l),
        text_of(l.update(0, s)) == s.0 + text_of(l.skip(1)),
{
    let u = l.update(0, s);
    assert(l =~= seq![l[0]] + l.skip(1));
    assert(u =~= seq![s] + l.skip(1));
    crate::layout::lemma_concat(seq![l[0]], l.skip(1));
    crate::layout::lemma_concat(seq![s], l.skip(1));
    assert(seq![l[0]] =~= Seq::<SegV>::empty().push(l[0]));
    assert(seq![s] =~= Seq::<SegV>::empty().push(s));
    crate::layout::lemma_push(Seq::<SegV>::empty(), l[0]);
    crate::layout::lemma_push(Seq::<SegV>::empty(), s);
    assert(text_of(Seq::<SegV>::empty()) =~= Seq::<char>::empty());
    assert(Seq::<char>::empty() + s.0 =~= s.0);
}

/// The speech bubble, `w` wide: an untitled box in the message's color with
/// a tail toward the pet, the text (up to four rows), the meta row and the
/// answer slot. Exactly `BUBBLE_BODY_ROWS + 2` rows for every message, and
/// from a width of 6 up every row is `w` wide.
pub fn bubble_panel(lang: crate::i18n::Lang, msg: Option<&AssistantMsg>, clock_text: &str, w: usize) -> (r: Vec<Line>)
    ensures
        r.len() == BUBBLE_BODY_ROWS + 2,
        w >= 6 ==> forall|i: int| 0 <= i < r.len() ==> width_of(#[trigger] lines_view(r@)[i]) == w,
        msg is None ==> text_of(lines_view(r@)[1]) == crate::panel::boxed_row(
            table(lang).no_messages@,
            w as nat,
        ),
        msg matches Some(m) ==> {
            let body = bubble_texts(lang, *m, clock_text@, crate::panel::minus(w as nat, 4));
            &&& forall|i: int|
                1 <= i <= BUBBLE_TEXT_ROWS + 2 && i != 2 ==> text_of(#[trigger] lines_view(r@)[i])
                    == crate::panel::boxed_row(body[i - 1], w as nat)
            &&& text_of(lines_view(r@)[2]) == seq!['<', ' '] + crate::panel::boxed_row(
                body[1],
                w as nat,
            ).skip(2)
        },
{
    let strings = t(lang);
    let inner = w.saturating_sub(4);
    match msg {
        None => {
            let mut body: Vec<Line> = Vec::new();
            let first = tinted(strings.no_messages.to_string(), Color::DarkGrey);
            proof {
                crate::layout::lemma_single(line_view(first));
            }
            body.push(first);
            while body.len() < BUBBLE_BODY_ROWS
                invariant
                    body.len() <= BUBBLE_BODY_ROWS,
                    body.len() >= 1,
                    text_of(lines_view(body@)[0]) == table(lang).no_messages@,
                decreases BUBBLE_BODY_ROWS - body.len(),
            {
                let ghost before = lines_view(body@);
                let e = empty_line();
                body.push(e);
                assert(lines_view(body@) =~= before.push(line_view(e)));
            }
            boxed(None, Color::DarkGrey, body.as_slice(), w)
        },
        Some(m) => {
            let color = kind_color(m.kind);
            let mut body = bubble_text_rows(lang, m, inner);
            let ghost tr = line_texts(lines_view(body@));
            let gap = empty_line();
            body.push(gap);
            let meta = meta_row(lang, m, clock_text, color);
            let ghost mv = line_view(meta);
            body.push(meta);
            let ghost top = lines_view(body@);
            proof {
                assert(line_texts(top) =~= tr.push(Seq::<char>::empty()).push(
                    meta_text(lang, *m, clock_text@),
                ));
            }
            let slot = answer_slot(lang, m, inner);
            extend_lines(&mut body, slot.as_slice());
            let rows = boxed(None, color, body.as_slice(), w);
            proof {
                let bt = bubble_texts(lang, *m, clock_text@, crate::panel::minus(w as nat, 4));
                assert(inner as nat == crate::panel::minus(w as nat, 4));
                assert(line_texts(top) =~= bt);
                assert forall|i: int| 1 <= i <= BUBBLE_TEXT_ROWS + 2 implies text_of(
                    #[trigger] lines_view(rows@)[i],
                ) == crate::panel::boxed_row(bt[i - 1], w as nat) by {
                    assert(lines_view(body@)[i - 1] == top[i - 1]);
                    assert(text_of(top[i - 1]) == line_texts(top)[i - 1]);
                }
            }
            assert(text_of(lines_view(rows@)[2]) == crate::panel::boxed_row(
                text_of(lines_view(body@)[1]),
                w as nat,
            ));
            tail_toward_pet(rows, color, w)
        },
    }
}

/// The bubble's text rows: who asks (for a question with a sender), the
/// text wrapped to `inner` columns, blank rows after; `BUBBLE_TEXT_ROWS`
/// rows.
fn bubble_text_rows(lang: crate::i18n::Lang, m: &AssistantMsg, inner: usize) -> (r: Vec<Line>)
    ensures
        r.len() == BUBBLE_TEXT_ROWS,
        line_texts(lines_view(r@)) == {
            let a = asks_rows(lang, *m);
            let tr = (BUBBLE_TEXT_ROWS - a.len()) as nat;
            let wr = wrapped_rows(m.text@, inner as nat, tr);
            a + wr + Seq::new((tr - wr.len()) as nat, |i: int| Seq::<char>::empty())
        },
{
    let strings = t(lang);
    let mut body: Vec<Line> = Vec::new();
    if m.options.is_some() && !m.from.as_str().is_empty() {
        let mut v: Vec<char> = Vec::new();
        push_str(&mut v, m.from.as_str());
        v.push(' ');
        push_str(&mut v, strings.asks_verb);
        v.push(':');
        let l = tinted(text(v), Color::DarkGrey);
        proof {
            crate::layout::lemma_single(line_view(l));
            assert(v@ =~= m.from@ + seq![' '] + table(lang).asks_verb@ + seq![':']);
            assert(m.from@.len() > 0);
        }
        body.push(l);
        proof {
            assert(line_texts(lines_view(body@)) =~= seq![text_of(line_view(l))]);
        }
    }
    let ghost asks = asks_rows(lang, *m);
    proof {
        assert(line_texts(lines_view(body@)) =~= asks);
    }
    let text_rows = BUBBLE_TEXT_ROWS - body.len();
    let wrapped = wrapped_text(m.text.as_str(), inner, text_rows);
    let ghost wr = wrapped_rows(m.text@, inner as nat, text_rows as nat);
    proof {
        assert(lines_view(wrapped@).len() == wrapped.len());
        assert(wr.len() == wrapped.len());
    }
    let mut k: usize = 0;
    while k < wrapped.len()
        invariant
            k <= wrapped.len(),
            wrapped.len() <= text_rows,
            wr.len() == wrapped.len(),
            body.len() == BUBBLE_TEXT_ROWS - text_rows + k,
            text_rows <= BUBBLE_TEXT_ROWS,
            lines_view(wrapped@) == plain_lines(wr),
            line_texts(lines_view(body@)) == asks + wr.take(k as int),
        decreases wrapped.len() - k,
    {
        let ghost before = lines_view(body@);
        let c = crate::layout::copy_line(&wrapped[k]);
        proof {
            assert(line_view(c) == plain_lines(wr)[k as int]);
            assert(plain_lines(wr)[k as int] == seq![(wr[k as int], None::<Color>, None::<Color>)]);
            crate::layout::lemma_single(line_view(c));
        }
        body.push(c);
        proof {
            assert(lines_view(body@) =~= before.push(line_view(c)));
            assert(line_texts(lines_view(body@)) =~= line_texts(before).push(wr[k as int]));
            assert(wr.take(k + 1) =~= wr.take(k as int).push(wr[k as int]));
        }
        k = k + 1;
    }
    proof {
        assert(wr.take(wrapped.len() as int) =~= wr);
    }
    let ghost filled = line_texts(lines_view(body@));
    while body.len() < BUBBLE_TEXT_ROWS
        invariant
            body.len() <= BUBBLE_TEXT_ROWS,
            filled.len() <= body.len(),
            line_texts(lines_view(body@)) == filled + Seq::new(
                (body.len() - filled.len()) as nat,
                |i: int| Seq::<char>::empty(),
            ),
        decreases BUBBLE_TEXT_ROWS - body.len(),
    {
        let ghost before = line_texts(lines_view(body@));
        let e = empty_line();
        body.push(e);
        proof {
            assert(line_texts(lines_view(body@)) =~= before.push(Seq::<char>::empty()));
            assert(filled + Seq::new(
                (body.len() - filled.len()) as nat,
                |i: int| Seq::<char>::empty(),
            ) =~= before.push(Seq::<char>::empty()));
        }
    }
    body
}

/// The meta row (see `meta_text`), in grey with the sender in the message's
/// color and the countdown in its own.
#[verifier::rlimit(40)]
fn meta_row(lang: crate::i18n::Lang, m: &AssistantMsg, clock_text: &str, color: Color) -> (r: Line)
    ensures
        text_of(line_view(r)) == meta_text(lang, *m, clock_text@),
{
    let strings = t(lang);
    let mut meta = empty_line();
    if !m.from.as_str().is_empty() {
        let mut v: Vec<char> = Vec::new();
        push_str(&mut v, strings.from_label);
        v.push(':');
        v.push(' ');
        add_seg(&mut meta, text(v), Some(Color::DarkGrey));
        add_seg(&mut meta, m.from.clone(), Some(color));
        add_seg(&mut meta, spaces(3), None);
    }
    let mut v: Vec<char> = Vec::new();
    push_str(&mut v, strings.type_label);
    v.push(':');
    v.push(' ');
    push_str(&mut v, m.kind_label);
    add_seg(&mut meta, text(v), Some(Color::DarkGrey));
    let mut c: Vec<char> = Vec::new();
    c.push(' ');
    c.push(' ');
    c.push(' ');
    push_str(&mut c, clock_text);
    add_seg(&mut meta, text(c), Some(Color::DarkGrey));
    match m.expires_in {
        Some(e) => {
            add_seg(&mut meta, spaces(3), None);
            let cd = countdown_seg(lang, e);
            let ghost before = line_view(meta);
            crate::layout::push_seg(&mut meta, cd);
            proof {
                crate::layout::lemma_push(before, seg_view(cd));
            }
        },
        None => {},
    }
    assert(text_of(line_view(meta)) =~= meta_text(lang, *m, clock_text@));
    meta
}

/// The answer slot under a question's meta row; blank rows for a plain
/// message. `OPTION_ROWS` rows.
fn answer_slot(lang: crate::i18n::Lang, m: &AssistantMsg, inner: usize) -> (r: Vec<Line>)
    ensures
        r.len() == OPTION_ROWS,
{
    if m.options.is_some() {
        answer_rows(lang, m, inner)
    } else {
        let mut rows: Vec<Line> = Vec::new();
        let mut k: usize = 0;
        while k < OPTION_ROWS
            invariant
                k <= OPTION_ROWS,
                rows.len() == k,
            decreases OPTION_ROWS - k,
        {
            rows.push(empty_line());
            k = k + 1;
        }
        rows
    }
}

/// The line naming who asks, for a question with a sender.
pub open spec fn asks_rows(lang: crate::i18n::Lang, m: AssistantMsg) -> Seq<Seq<char>> {
    if m.options is Some && m.from@.len() > 0 {
        seq![m.from@ + seq![' '] + table(lang).asks_verb@ + seq![':']]
    } else {
        Seq::empty()
    }
}

/// The countdown's text (see `countdown_seg`).
pub open spec fn countdown_text(lang: crate::i18n::Lang, e: u64) -> Seq<char> {
    table(lang).expires_label@ + seq![' '] + right_align(
        dec(if e < 999 {
            e as nat
        } else {
            999
        }),
        3,
    ) + seq!['s']
}

/// The meta row: the sender (when there is one), the type, the clock, and
/// the countdown of a question that expires.
pub open spec fn meta_text(lang: crate::i18n::Lang, m: AssistantMsg, clock: Seq<char>) -> Seq<char> {
    (if m.from@.len() > 0 {
        table(lang).from_label@ + seq![':', ' '] + m.from@ + crate::line::repeat(' ', 3)
    } else {
        Seq::empty()
    }) + table(lang).type_label@ + seq![':', ' '] + m.kind_label@ + seq![' ', ' ', ' '] + clock + match m.expires_in {
        Some(e) => crate::line::repeat(' ', 3) + countdown_text(lang, e),
        None => Seq::empty(),
    }
}

/// The bubble's rows above the answer slot: who asks, the text wrapped to
/// the inner width (blank rows under it), a blank, the meta row.
pub open spec fn bubble_texts(lang: crate::i18n::Lang, m: AssistantMsg, clock: Seq<char>, inner: nat) -> Seq<Seq<char>> {
    let a = asks_rows(lang, m);
    let tr = (BUBBLE_TEXT_ROWS - a.len()) as nat;
    let wr = crate::layout::wrapped_rows(m.text@, inner, tr);
    a + wr + Seq::new((tr - wr.len()) as nat, |i: int| Seq::<char>::empty()) + seq![
        Seq::<char>::empty(),
        meta_text(lang, m, clock),
    ]
}

/// The bubble's tail: the first border segment of body row 1 becomes `< `.
pub fn tail_toward_pet(rows: Vec<Line>, color: Color, w: usize) -> (r: Vec<Line>)
    requires
        rows.len() >= 3,
        lines_view(rows@)[2].len() >= 1,
        lines_view(rows@)[2][0].0 == seq!['│', ' '],
        w >= 6 ==> forall|i: int|
            0 <= i < rows.len() ==> width_of(#[trigger] lines_view(rows@)[i]) == w,
    ensures
        r.len() == rows.len(),
        w >= 6 ==> forall|i: int| 0 <= i < r.len() ==> width_of(#[trigger] lines_view(r@)[i]) == w,
        forall|i: int| 0 <= i < r.len() && i != 2 ==> #[trigger] lines_view(r@)[i] == lines_view(rows@)[i],
        text_of(lines_view(r@)[2]) == seq!['<', ' '] + text_of(lines_view(rows@)[2]).skip(2),
{
    let mut rows = rows;
    let mut row2 = crate::layout::copy_line(&rows[2]);
    let mut v: Vec<char> = Vec::new();
    v.push('<');
    v.push(' ');
    let s = seg(text(v), Some(color));
    let ghost sv = seg_view(s);
    let ghost old2 = line_view(row2);
    row2.set(0, s);
    proof {
        assert(line_view(row2) =~= old2.update(0, sv));
        lemma_swap_first(old2, sv);
        lemma_swap_first(old2, old2[0]);
        assert(old2.update(0, old2[0]) =~= old2);
        assert(text_of(old2).skip(2) =~= text_of(old2.skip(1)));
    }
    let ghost before = rows@;
    rows.set(2, row2);
    proof {
        assert forall|i: int| 0 <= i < rows.len() implies lines_view(rows@)[i] == if i == 2 {
            line_view(row2)
        } else {
            lines_view(before)[i]
        } by {}
    }
    rows
}

} // verus!
