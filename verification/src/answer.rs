//! The answer widgets of an ask: the numbered options and the typed-answer
//! field, as text.

use vstd::prelude::*;
use crate::assistant::string_views;
use crate::i18n::{t, table, Lang};
use crate::layout::{add_seg, ellipsize, empty_line, less_one, lines_view, spaces, text, text_of, SegV};
use crate::line::{chip, line_view, line_w, repeat, width_of, Color, Line};
use crate::panel::minus;
use crate::text::{chars_of, dec, push_dec, push_str, split_chars, split_on, string_of, views};

verus! {

/// How many options can be picked by number (keys 1-9).
pub const MAX_OPTIONS: usize = 9;

/// The choices as shown: the first nine options plus, when a typed answer is
/// accepted and a number key is left for it, one more entry that opens the
/// text field.
pub open spec fn labels_of(lang: crate::i18n::Lang, options: Seq<Seq<char>>, input_ok: bool) -> Seq<Seq<char>> {
    let base = if options.len() <= 9 {
        options
    } else {
        options.take(9)
    };
    if input_ok && base.len() < 9 {
        base.push(table(lang).option_write@)
    } else {
        base
    }
}

pub fn option_labels(lang: crate::i18n::Lang, options: &[String], input_ok: bool) -> (r: Vec<String>)
    ensures
        string_views(r@) == labels_of(lang, string_views(options@), input_ok),
{
    let ghost ov = string_views(options@);
    let n = if options.len() <= MAX_OPTIONS {
        options.len()
    } else {
        MAX_OPTIONS
    };
    let mut labels: Vec<String> = Vec::new();
    let mut i: usize = 0;
    while i < n
        invariant
            i <= n <= options.len(),
            n <= 9,
            ov == string_views(options@),
            string_views(labels@) == ov.take(i as int),
        decreases n - i,
    {
        let ghost before = string_views(labels@);
        labels.push(options[i].as_str().to_owned());
        assert(string_views(labels@) =~= before.push(ov[i as int]));
        assert(ov.take(i + 1) =~= ov.take(i as int).push(ov[i as int]));
        i = i + 1;
    }
    assert(ov.take(n as int) =~= if ov.len() <= 9 {
        ov
    } else {
        ov.take(9)
    });
    if input_ok && labels.len() < MAX_OPTIONS {
        let ghost before = string_views(labels@);
        labels.push(t(lang).option_write.to_owned());
        assert(string_views(labels@) =~= before.push(table(lang).option_write@));
    }
    labels
}

/// A paragraph cut into pieces of `n` characters, the last one shorter; an
/// empty paragraph is one empty piece.
pub open spec fn chunks(p: Seq<char>, n: nat) -> Seq<Seq<char>>
    decreases p.len(),
{
    if n == 0 || p.len() <= n {
        seq![p]
    } else {
        seq![p.take(n as int)] + chunks(p.skip(n as int), n)
    }
}

/// Every piece of every paragraph, in order.
pub open spec fn flat_chunks(ps: Seq<Seq<char>>, n: nat) -> Seq<Seq<char>>
    decreases ps.len(),
{
    if ps.len() == 0 {
        Seq::empty()
    } else {
        flat_chunks(ps.drop_last(), n) + chunks(ps.last(), n)
    }
}

/// The typed answer broken into lines of at most `w` characters (at least
/// one): every character kept, spaces included, each line break of the text
/// starting a new line.
pub open spec fn input_lines_of(buf: Seq<char>, w: nat) -> Seq<Seq<char>> {
    flat_chunks(split_on(buf, '\n'), if w == 0 {
        1
    } else {
        w
    })
}

proof fn lemma_chunks_step(s: Seq<char>, n: nat)
    requires
        n > 0,
        s.len() > n,
    ensures
        chunks(s, n) == seq![s.take(n as int)] + chunks(s.skip(n as int), n),
{
}

fn chunks_exec(p: &[char], n: usize) -> (r: Vec<Vec<char>>)
    requires
        n > 0,
    ensures
        views(r@) == chunks(p@, n as nat),
{
    let mut out: Vec<Vec<char>> = Vec::new();
    let mut i: usize = 0;
    assert(p@.skip(0) =~= p@);
    loop
        invariant_except_break
            i <= p.len(),
            i < p.len() || i == 0,
            views(out@) + chunks(p@.skip(i as int), n as nat) == chunks(p@, n as nat),
        invariant
            n > 0,
        ensures
            views(out@) == chunks(p@, n as nat),
        decreases p.len() - i,
    {
        let rest = p.len() - i;
        let ghost s = p@.skip(i as int);
        if rest <= n {
            let ghost before = views(out@);
            let piece = crate::text::slice_vec(p, i, p.len());
            assert(piece@ =~= s);
            out.push(piece);
            assert(views(out@) =~= before.push(piece@));
            assert(views(out@) =~= before + chunks(s, n as nat));
            break ;
        }
        let ghost before = views(out@);
        let piece = crate::text::slice_vec(p, i, i + n);
        assert(piece@ =~= s.take(n as int));
        out.push(piece);
        assert(views(out@) =~= before.push(piece@));
        assert(s.skip(n as int) =~= p@.skip(i + n));
        assert(s.len() == rest);
        proof {
            lemma_chunks_step(s, n as nat);
        }
        assert(views(out@) + chunks(p@.skip(i + n), n as nat) =~= before + chunks(s, n as nat));
        i = i + n;
    }
    out
}

/// The typed answer broken into lines of at most `w` characters.
pub fn input_lines(buf: &str, w: usize) -> (r: Vec<String>)
    ensures
        string_views(r@) == input_lines_of(buf@, w as nat),
{
    let n: usize = if w == 0 {
        1
    } else {
        w
    };
    let bc = chars_of(buf);
    let paras = split_chars(bc.as_slice(), '\n');
    let ghost pv = views(paras@);
    let mut out: Vec<String> = Vec::new();
    let mut i: usize = 0;
    assert(pv.take(0) =~= Seq::<Seq<char>>::empty());
    while i < paras.len()
        invariant
            i <= paras.len(),
            n > 0,
            n == if w == 0 {
                1
            } else {
                w
            },
            pv == views(paras@),
            string_views(out@) == flat_chunks(pv.take(i as int), n as nat),
        decreases paras.len() - i,
    {
        let pieces = chunks_exec(paras[i].as_slice(), n);
        let mut j: usize = 0;
        let ghost before = string_views(out@);
        while j < pieces.len()
            invariant
                j <= pieces.len(),
                string_views(out@) == before + views(pieces@).take(j as int),
            decreases pieces.len() - j,
        {
            let ghost sv = string_views(out@);
            out.push(string_of(pieces[j].as_slice()));
            assert(string_views(out@) =~= sv.push(pieces@[j as int]@));
            assert(views(pieces@).take(j + 1) =~= views(pieces@).take(j as int).push(
                pieces@[j as int]@,
            ));
            assert(string_views(out@) =~= before + views(pieces@).take(j + 1));
            j = j + 1;
        }
        assert(views(pieces@).take(pieces.len() as int) =~= views(pieces@));
        assert(pv.take(i + 1).drop_last() =~= pv.take(i as int));
        assert(pv.take(i + 1).last() == paras@[i as int]@);
        i = i + 1;
    }
    assert(pv.take(paras.len() as int) =~= pv);
    out
}

/// All pieces, put back together.
pub open spec fn concat_all(ps: Seq<Seq<char>>) -> Seq<char>
    decreases ps.len(),
{
    if ps.len() == 0 {
        Seq::empty()
    } else {
        concat_all(ps.drop_last()) + ps.last()
    }
}

proof fn lemma_concat_one(x: Seq<char>)
    ensures
        concat_all(seq![x]) == x,
{
    assert(seq![x].drop_last() =~= Seq::<Seq<char>>::empty());
    assert(concat_all(Seq::<Seq<char>>::empty()) == Seq::<char>::empty());
    assert(Seq::<char>::empty() + x =~= x);
}

proof fn lemma_concat_all_append(a: Seq<Seq<char>>, b: Seq<Seq<char>>)
    ensures
        concat_all(a + b) == concat_all(a) + concat_all(b),
    decreases b.len(),
{
    if b.len() == 0 {
        assert(a + b =~= a);
    } else {
        lemma_concat_all_append(a, b.drop_last());
        assert((a + b).drop_last() =~= a + b.drop_last());
    }
}

/// Pieces put back together give the paragraph, and no piece is longer
/// than the width.
proof fn lemma_chunks(p: Seq<char>, n: nat)
    requires
        n > 0,
    ensures
        concat_all(chunks(p, n)) == p,
        forall|k: int| 0 <= k < chunks(p, n).len() ==> (#[trigger] chunks(p, n)[k]).len() <= n,
    decreases p.len(),
{
    if p.len() > n {
        lemma_chunks(p.skip(n as int), n);
        lemma_concat_all_append(seq![p.take(n as int)], chunks(p.skip(n as int), n));
        lemma_concat_one(p.take(n as int));
        assert(p.take(n as int) + p.skip(n as int) =~= p);
        assert forall|k: int| 0 <= k < chunks(p, n).len() implies (#[trigger] chunks(
            p,
            n,
        )[k]).len() <= n by {
            if k > 0 {
                assert(chunks(p, n)[k] == chunks(p.skip(n as int), n)[k - 1]);
            }
        }
    } else {
        lemma_concat_one(p);
    }
}

/// The typed-answer field loses nothing: for text without line breaks the
/// lines put back together are the text, and no line is wider than the
/// field (or one character, for a zero width).
pub proof fn law_input_lines_keep_every_char(buf: Seq<char>, w: nat)
    requires
        !buf.contains('\n'),
    ensures
        concat_all(input_lines_of(buf, w)) == buf,
        forall|k: int|
            0 <= k < input_lines_of(buf, w).len() ==> (#[trigger] input_lines_of(buf, w)[k]).len()
                <= if w == 0 {
                1
            } else {
                w
            },
{
    let n: nat = if w == 0 {
        1
    } else {
        w
    };
    crate::assistant::lemma_split_no_sep(buf, '\n');
    let ps = split_on(buf, '\n');
    assert(ps == seq![buf]);
    assert(ps.drop_last() =~= Seq::<Seq<char>>::empty());
    assert(flat_chunks(ps.drop_last(), n) == Seq::<Seq<char>>::empty());
    assert(flat_chunks(ps, n) =~= chunks(buf, n));
    lemma_chunks(buf, n);
}

// ---------------------------------------------------------------------------
// Rows of the answer slot

/// Rows an ask's answer slot always takes, whatever the option count.
pub const OPTION_ROWS: usize = 3;

/// The typed-answer field's line width inside a card `w` wide: room for the
/// two-character gutter and the caret.
pub open spec fn field_width(w: nat) -> nat {
    let f = minus(minus(w, 2), 1);
    if f == 0 {
        1
    } else {
        f
    }
}

/// The gutter of a field row: `> ` opens the field, `↑ ` flags text that
/// scrolled out above.
pub open spec fn gutter(j: int, hidden: nat) -> Seq<char> {
    if j == 0 && hidden == 0 {
        seq!['>', ' ']
    } else if j == 0 {
        seq!['↑', ' ']
    } else {
        seq![' ', ' ']
    }
}

/// Row `j` of a field showing the last `rows` of the lines `ls`: gutter,
/// text, and the caret on the very last line; blank below the text.
pub open spec fn field_row(ls: Seq<Seq<char>>, rows: nat, j: int) -> Seq<char> {
    let hidden = minus(ls.len(), rows);
    if hidden + j < ls.len() {
        gutter(j, hidden) + ls[hidden + j] + (if hidden + j + 1 == ls.len() {
            seq!['_']
        } else {
            Seq::empty()
        })
    } else {
        Seq::empty()
    }
}

/// The typed answer over exactly `rows` rows, following the caret: what
/// scrolled out of view is flagged, so a long answer is written in a card
/// that never changes size.
pub fn input_rows(buf: &str, w: usize, rows: usize) -> (r: Vec<Line>)
    ensures
        r.len() == rows,
        forall|j: int|
            0 <= j < rows ==> text_of(#[trigger] lines_view(r@)[j]) == field_row(
                input_lines_of(buf@, field_width(w as nat)),
                rows as nat,
                j,
            ),
{
    let inner = w.saturating_sub(2);
    let f = inner.saturating_sub(1);
    let fw: usize = if f == 0 {
        1
    } else {
        f
    };
    let lines = input_lines(buf, fw);
    let ghost ls = string_views(lines@);
    let hidden = lines.len().saturating_sub(rows);
    let mut out: Vec<Line> = Vec::new();
    let mut j: usize = 0;
    while j < rows
        invariant
            j <= rows,
            out.len() == j,
            ls == string_views(lines@),
            ls == input_lines_of(buf@, field_width(w as nat)),
            hidden == minus(ls.len(), rows as nat),
            forall|k: int|
                0 <= k < j ==> text_of(#[trigger] lines_view(out@)[k]) == field_row(
                    ls,
                    rows as nat,
                    k,
                ),
        decreases rows - j,
    {
        let mut row = empty_line();
        if j < lines.len() - hidden {
            let g: Vec<char> = if j == 0 && hidden == 0 {
                let mut g: Vec<char> = Vec::new();
                g.push('>');
                g.push(' ');
                g
            } else if j == 0 {
                let mut g: Vec<char> = Vec::new();
                g.push('↑');
                g.push(' ');
                g
            } else {
                let mut g: Vec<char> = Vec::new();
                g.push(' ');
                g.push(' ');
                g
            };
            assert(g@ =~= gutter(j as int, hidden as nat));
            add_seg(&mut row, text(g), Some(Color::DarkGrey));
            add_seg(&mut row, lines[hidden + j].clone(), None);
            if hidden + j + 1 == lines.len() {
                let mut c: Vec<char> = Vec::new();
                c.push('_');
                add_seg(&mut row, text(c), Some(Color::Cyan));
            }
            assert(text_of(line_view(row)) =~= field_row(ls, rows as nat, j as int));
        } else {
            assert(text_of(line_view(row)) =~= field_row(ls, rows as nat, j as int));
        }
        let ghost before = out@;
        out.push(row);
        proof {
            assert(out@ =~= before.push(row));
            assert forall|k: int| 0 <= k < j + 1 implies lines_view(out@)[k] == if k < j {
                lines_view(before)[k]
            } else {
                line_view(row)
            } by {}
        }
        j = j + 1;
    }
    out
}

/// The start of the window of `OPTION_ROWS` options that keeps `sel` in
/// view.
pub open spec fn window_start(len: nat, sel: nat) -> nat {
    let a = minus(sel, 2);
    let b = minus(len, 3);
    if a <= b {
        a
    } else {
        b
    }
}

pub open spec fn window_end(len: nat, sel: nat) -> nat {
    let e = window_start(len, sel) + 3;
    if e <= len {
        e
    } else {
        len
    }
}

/// The window of options on show: at most `OPTION_ROWS` of them, scrolled
/// so the highlighted one is always inside.
pub fn option_window(len: usize, sel: usize) -> (r: (usize, usize))
    ensures
        r.0 == window_start(len as nat, sel as nat),
        r.1 == window_end(len as nat, sel as nat),
        r.0 <= r.1 <= len,
        r.1 - r.0 <= OPTION_ROWS,
        sel < len ==> r.0 <= sel < r.1,
{
    let a = sel.saturating_sub(OPTION_ROWS - 1);
    let b = len.saturating_sub(OPTION_ROWS);
    let start = if a <= b {
        a
    } else {
        b
    };
    let e = start + OPTION_ROWS;
    let end = if e <= len {
        e
    } else {
        len
    };
    (start, end)
}

/// The scroll hint of window row `j`: `↑n` on the first row when options are
/// hidden above, `↓n` on the last slot when options are hidden below.
pub open spec fn scroll_hint(j: int, above: nat, below: nat) -> Option<Seq<char>> {
    if j == 0 && above > 0 {
        Some(seq![' ', '↑'] + dec(above))
    } else if j > 0 && below > 0 && j + 1 == 3 {
        Some(seq![' ', '↓'] + dec(below))
    } else {
        None
    }
}

/// Option `i` as a row, before any cut: the cursor mark, the number key cap,
/// the label, and the scroll hint pushed to the right edge.
pub open spec fn option_row(options: Seq<Seq<char>>, sel: nat, w: nat, i: int) -> Seq<char> {
    let start = window_start(options.len(), sel);
    let end = window_end(options.len(), sel);
    let base = seq![if i == sel { '▸' } else { ' ' }, ' '] + dec((i + 1) as nat) + seq![' ', ' ']
        + options[i];
    match scroll_hint(i - start, start, minus(options.len(), end)) {
        Some(h) => base + repeat(' ', minus(w, base.len() + h.len())) + h,
        None => base,
    }
}

/// A row cut to `w` with `…` at the cut, or whole when it fits.
pub open spec fn ellipsized(t: Seq<char>, w: nat) -> Seq<char> {
    if t.len() <= w {
        t
    } else {
        t.take(less_one(w) as int) + seq!['…']
    }
}

#[verifier::rlimit(50)]
fn option_line(options: &[String], sel: usize, w: usize, j: usize, start: usize, end: usize) -> (r: Line)
    requires
        start == window_start(string_views(options@).len(), sel as nat),
        end == window_end(string_views(options@).len(), sel as nat),
        start <= end <= options.len(),
        start + j < end,
        j < OPTION_ROWS,
    ensures
        option_row(string_views(options@), sel as nat, w as nat, start + j).len() <= usize::MAX
            ==> text_of(line_view(r)) == ellipsized(
            option_row(string_views(options@), sel as nat, w as nat, start + j),
            w as nat,
        ),
{
    let ghost ov = string_views(options@);
    let above = start;
    let below = options.len() - end;
    let mut row = empty_line();
    let i = start + j;
    let selected = i == sel;
    let mut head: Vec<char> = Vec::new();
    head.push(if selected {
        '▸'
    } else {
        ' '
    });
    add_seg(&mut row, text(head), Some(Color::Cyan));
    let mut key: Vec<char> = Vec::new();
    push_dec(&mut key, (i + 1) as u64);
    let cap = chip(text(key).as_str());
    let ghost r0 = line_view(row);
    let ghost cv = cap.0@;
    crate::layout::push_seg(&mut row, cap);
    proof {
        crate::layout::lemma_push(r0, (cv, Some(Color::Cyan), Some(Color::DarkGrey)));
    }
    let mut label: Vec<char> = Vec::new();
    label.push(' ');
    push_str(&mut label, options[i].as_str());
    add_seg(
        &mut row,
        text(label),
        if selected {
            Some(Color::Cyan)
        } else {
            None
        },
    );
    let ghost base = text_of(line_view(row));
    proof {
        assert(ov[i as int] == options@[i as int]@);
        assert(base =~= seq![if i == sel { '▸' } else { ' ' }, ' '] + dec((i + 1) as nat) + seq![
            ' ',
            ' ',
        ] + ov[i as int]);
    }
    let hint: Option<Vec<char>> = if j == 0 && above > 0 {
        let mut h: Vec<char> = Vec::new();
        h.push(' ');
        h.push('↑');
        push_dec(&mut h, above as u64);
        Some(h)
    } else if j > 0 && below > 0 && j + 1 == OPTION_ROWS {
        let mut h: Vec<char> = Vec::new();
        h.push(' ');
        h.push('↓');
        push_dec(&mut h, below as u64);
        Some(h)
    } else {
        None
    };
    proof {
        assert(hint matches Some(h) ==> scroll_hint(j as int, above as nat, below as nat) == Some(h@));
        assert(hint is None ==> scroll_hint(j as int, above as nat, below as nat) is None);
    }
    match hint {
        Some(h) => {
            proof {
                crate::layout::lemma_width_text(line_view(row));
            }
            let pad = w.saturating_sub(line_w(&row).saturating_add(h.len()));
            add_seg(&mut row, spaces(pad), None);
            add_seg(&mut row, text(h), Some(Color::DarkGrey));
        },
        None => {},
    }
    let ghost pre = text_of(line_view(row));
    proof {
        assert(pre =~= option_row(ov, sel as nat, w as nat, i as int));
        crate::layout::lemma_width_text(line_view(row));
    }
    ellipsize(row, w)
}

/// One option per row, the cursor marked, in a slot of exactly
/// `OPTION_ROWS` rows that scrolls to the cursor; rows wider than `w` end in
/// `…`.
pub fn option_rows(options: &[String], sel: usize, w: usize) -> (r: Vec<Line>)
    ensures
        r.len() == OPTION_ROWS,
        forall|j: int|
            0 <= j < OPTION_ROWS ==> {
                let ov = string_views(options@);
                let start = window_start(ov.len(), sel as nat);
                let end = window_end(ov.len(), sel as nat);
                if start + j < end {
                    option_row(ov, sel as nat, w as nat, start + j).len() <= usize::MAX ==> text_of(
                        #[trigger] lines_view(r@)[j],
                    ) == ellipsized(option_row(ov, sel as nat, w as nat, start + j), w as nat)
                } else {
                    text_of(lines_view(r@)[j]) == Seq::<char>::empty()
                }
            },
{
    let ghost ov = string_views(options@);
    let (start, end) = option_window(options.len(), sel);
    let mut rows: Vec<Line> = Vec::new();
    let mut j: usize = 0;
    while j < OPTION_ROWS
        invariant
            j <= OPTION_ROWS,
            rows.len() == j,
            ov == string_views(options@),
            start == window_start(ov.len(), sel as nat),
            end == window_end(ov.len(), sel as nat),
            start <= end <= options.len(),
            end - start <= OPTION_ROWS,
            forall|k: int|
                0 <= k < j ==> if start + k < end {
                    option_row(ov, sel as nat, w as nat, start + k).len() <= usize::MAX ==> text_of(
                        #[trigger] lines_view(rows@)[k],
                    ) == ellipsized(option_row(ov, sel as nat, w as nat, start + k), w as nat)
                } else {
                    text_of(lines_view(rows@)[k]) == Seq::<char>::empty()
                },
        decreases OPTION_ROWS - j,
    {
        let row = if j < end - start {
            option_line(options, sel, w, j, start, end)
        } else {
            empty_line()
        };
        let ghost before = rows@;
        rows.push(row);
        proof {
            assert(rows@ =~= before.push(row));
            assert forall|k: int| 0 <= k < j + 1 implies lines_view(rows@)[k] == if k < j {
                lines_view(before)[k]
            } else {
                line_view(row)
            } by {}
        }
        j = j + 1;
    }
    rows
}

} // verus!
