//! Boxes and overlays: the titled panels of the interface, and the modal
//! splicing that keeps the screen behind a dialog visible.

use vstd::prelude::*;
use crate::layout::{
    block_w, clip_pad, clipped, copy_lines, extend_line, lemma_concat, lemma_max_width, lemma_push,
    lemma_width_text, line_slice, copy_line, lines_view, max_width, pad_block, padded, prefix, push_seg, sat,
    take_chars, text_of, window, char_count, SegV,
};
use crate::line::{line_view, repeat, repeat_string, seg, width_of, Color, Line};
use crate::text::string_of;

verus! {

/// `a - b`, or 0.
pub open spec fn minus(a: nat, b: nat) -> nat {
    if a >= b {
        (a - b) as nat
    } else {
        0
    }
}

/// The top border: `┌─ title ───┐`, or a plain `┌────┐` without a title.
pub open spec fn boxed_top(title: Option<Seq<char>>, w: nat) -> Seq<char> {
    match title {
        None => seq!['┌'] + repeat('─', minus(w, 2)) + seq!['┐'],
        Some(t) => {
            let tt = prefix(t, minus(w, 6));
            seq!['┌', '─', ' '] + tt + seq![' '] + repeat('─', minus(w, tt.len() + 5)) + seq!['┐']
        },
    }
}

pub open spec fn boxed_bottom(w: nat) -> Seq<char> {
    seq!['└'] + repeat('─', minus(w, 2)) + seq!['┘']
}

/// A body row: the line cut or padded to the inner width between borders.
pub open spec fn boxed_row(t: Seq<char>, w: nat) -> Seq<char> {
    seq!['│', ' '] + clipped(t, minus(w, 4)) + seq![' ', '│']
}

pub open spec fn title_view(title: Option<(&str, Color)>) -> Option<Seq<char>> {
    match title {
        Some(p) => Some(p.0@),
        None => None,
    }
}

fn text_of_chars(cs: Vec<char>) -> (r: String)
    ensures
        r@ == cs@,
{
    string_of(cs.as_slice())
}

fn two(a: char, b: char) -> (r: String)
    ensures
        r@ == seq![a, b],
{
    let mut v: Vec<char> = Vec::new();
    v.push(a);
    v.push(b);
    assert(v@ =~= seq![a, b]);
    text_of_chars(v)
}

/// `a`, `n` copies of `c`, then `b`.
fn framed(a: char, c: char, n: usize, b: char) -> (r: String)
    ensures
        r@ == seq![a] + repeat(c, n as nat) + seq![b],
{
    let mut v: Vec<char> = Vec::new();
    v.push(a);
    let mid = repeat_string(c, n);
    let mid_chars = crate::text::chars_of(mid.as_str());
    crate::text::push_all(&mut v, mid_chars.as_slice());
    v.push(b);
    assert(v@ =~= seq![a] + repeat(c, n as nat) + seq![b]);
    text_of_chars(v)
}

/// A box around `body`, `w` characters wide: a top border (with the title
/// when there is one), each body line cut or padded between `│ ` and ` │`,
/// and a bottom border. From a width of 6 up every row is exactly `w` wide.
/// Each body row opens with the two-character segment `│ ` in the border
/// color.
pub fn boxed(title: Option<(&str, Color)>, border_color: Color, body: &[Line], w: usize) -> (r: Vec<
    Line,
>)
    ensures
        r.len() == body.len() + 2,
        text_of(lines_view(r@)[0]) == boxed_top(title_view(title), w as nat),
        text_of(lines_view(r@)[r.len() - 1]) == boxed_bottom(w as nat),
        forall|i: int|
            1 <= i <= body.len() ==> text_of(#[trigger] lines_view(r@)[i]) == boxed_row(
                text_of(lines_view(body@)[i - 1]),
                w as nat,
            ) && lines_view(r@)[i].len() >= 1 && lines_view(r@)[i][0] == (
                seq!['│', ' '],
                Some(border_color),
                None::<Color>,
            ),
        w >= 6 ==> forall|i: int| 0 <= i < r.len() ==> width_of(#[trigger] lines_view(r@)[i]) == w,
{
    let border = Some(border_color);
    let inner = w.saturating_sub(4);
    let mut top: Line = Vec::new();
    let ghost e = line_view(top);
    proof {
        assert(e =~= Seq::<SegV>::empty());
        assert(text_of(e) =~= Seq::<char>::empty());
    }
    match title {
        Some((t, tc)) => {
            let mut head: Vec<char> = Vec::new();
            head.push('┌');
            head.push('─');
            head.push(' ');
            let h = text_of_chars(head);
            let tt = take_chars(t, w.saturating_sub(6));
            let tlen = char_count(tt.as_str());
            let dash = w.saturating_sub(tlen.saturating_add(5));
            let mut tail: Vec<char> = Vec::new();
            tail.push(' ');
            let dashes = crate::text::chars_of(repeat_string('─', dash).as_str());
            crate::text::push_all(&mut tail, dashes.as_slice());
            tail.push('┐');
            let tl = text_of_chars(tail);
            let ghost hv = h@;
            let ghost ttv = tt@;
            let ghost tlv = tl@;
            push_seg(&mut top, seg(h, border));
            let ghost a = line_view(top);
            push_seg(&mut top, seg(tt, Some(tc)));
            let ghost b = line_view(top);
            push_seg(&mut top, seg(tl, border));
            proof {
                lemma_push(e, (hv, border, None));
                lemma_push(a, (ttv, Some(tc), None));
                lemma_push(b, (tlv, border, None));
                assert(hv =~= seq!['┌', '─', ' ']);
                assert(tlv =~= seq![' '] + repeat('─', dash as nat) + seq!['┐']);
                assert(text_of(line_view(top)) =~= boxed_top(title_view(title), w as nat));
            }
        },
        None => {
            let s = framed('┌', '─', w.saturating_sub(2), '┐');
            let ghost sv = s@;
            push_seg(&mut top, seg(s, border));
            proof {
                lemma_push(e, (sv, border, None));
                assert(text_of(line_view(top)) =~= boxed_top(title_view(title), w as nat));
            }
        },
    }
    proof {
        lemma_width_text(line_view(top));
    }
    let mut out: Vec<Line> = Vec::new();
    out.push(top);
    let mut i: usize = 0;
    while i < body.len()
        invariant
            i <= body.len(),
            out.len() == i + 1,
            inner == minus(w as nat, 4),
            border == Some(border_color),
            text_of(lines_view(out@)[0]) == boxed_top(title_view(title), w as nat),
            w >= 6 ==> width_of(lines_view(out@)[0]) == w,
            forall|j: int|
                1 <= j <= i ==> text_of(#[trigger] lines_view(out@)[j]) == boxed_row(
                    text_of(lines_view(body@)[j - 1]),
                    w as nat,
                ) && lines_view(out@)[j].len() >= 1 && lines_view(out@)[j][0] == (
                    seq!['│', ' '],
                    Some(border_color),
                    None::<Color>,
                ),
            w >= 6 ==> forall|j: int|
                0 <= j < i + 1 ==> width_of(#[trigger] lines_view(out@)[j]) == w,
        decreases body.len() - i,
    {
        let mut l: Line = Vec::new();
        let ghost e0 = line_view(l);
        assert(e0 =~= Seq::<SegV>::empty());
        assert(text_of(e0) =~= Seq::<char>::empty());
        let left = two('│', ' ');
        let ghost lv0 = left@;
        push_seg(&mut l, seg(left, border));
        let ghost a = line_view(l);
        let c = clip_pad(&body[i], inner);
        extend_line(&mut l, &c);
        let ghost b = line_view(l);
        let right = two(' ', '│');
        let ghost rv0 = right@;
        push_seg(&mut l, seg(right, border));
        proof {
            lemma_push(e0, (lv0, border, None));
            lemma_concat(a, line_view(c));
            lemma_push(b, (rv0, border, None));
            lemma_width_text(line_view(c));
            lemma_width_text(line_view(l));
            assert(text_of(line_view(l)) =~= boxed_row(text_of(lines_view(body@)[i as int]), w as nat));
            assert(line_view(l)[0] == (seq!['│', ' '], Some(border_color), None::<Color>));
        }
        let ghost before = out@;
        out.push(l);
        proof {
            assert(out@ =~= before.push(l));
            assert forall|j: int| 0 <= j < i + 2 implies lines_view(out@)[j] == if j < i + 1 {
                lines_view(before)[j]
            } else {
                line_view(l)
            } by {}
        }
        i = i + 1;
    }
    let bottom = framed('└', '─', w.saturating_sub(2), '┘');
    let ghost bv = bottom@;
    let mut last: Line = Vec::new();
    let ghost e1 = line_view(last);
    assert(e1 =~= Seq::<SegV>::empty());
    assert(text_of(e1) =~= Seq::<char>::empty());
    push_seg(&mut last, seg(bottom, border));
    proof {
        lemma_push(e1, (bv, border, None));
        lemma_width_text(line_view(last));
    }
    let ghost before = out@;
    out.push(last);
    proof {
        assert(out@ =~= before.push(last));
        assert forall|j: int| 0 <= j < out.len() implies lines_view(out@)[j] == if j < out.len() - 1 {
            lines_view(before)[j]
        } else {
            line_view(last)
        } by {}
    }
    out
}

/// A titled box in the neutral border color.
pub fn panel(title: &str, body: &[Line], w: usize) -> (r: Vec<Line>)
    ensures
        r.len() == body.len() + 2,
        text_of(lines_view(r@)[0]) == boxed_top(Some(title@), w as nat),
        text_of(lines_view(r@)[r.len() - 1]) == boxed_bottom(w as nat),
        forall|i: int|
            1 <= i <= body.len() ==> text_of(#[trigger] lines_view(r@)[i]) == boxed_row(
                text_of(lines_view(body@)[i - 1]),
                w as nat,
            ),
        w >= 6 ==> forall|i: int| 0 <= i < r.len() ==> width_of(#[trigger] lines_view(r@)[i]) == w,
{
    boxed(Some((title, Color::DarkGrey)), Color::DarkGrey, body, w)
}

/// Row `i` of `base` with `over` spliced centered on top: the backdrop row
/// padded to the backdrop width, with the modal's row (cut or padded to the
/// modal width) replacing the middle.
pub open spec fn overlaid(base: Seq<Seq<SegV>>, over: Seq<Seq<SegV>>, i: int) -> Seq<char> {
    let bw = max_width(base);
    let ow = max_width(over);
    let top = (base.len() - over.len()) / 2;
    let left = (bw - ow) / 2;
    let row = padded(text_of(base[i]), bw);
    if top <= i < top + over.len() {
        row.take(left) + clipped(text_of(over[i - top]), ow) + row.subrange(left + ow, bw as int)
    } else {
        row
    }
}

/// A modal block spliced over the center of a backdrop: the backdrop keeps
/// its size and stays visible around the modal. When the modal does not fit
/// the backdrop, the modal alone.
pub fn overlay(base: Vec<Line>, over: &[Line]) -> (r: Vec<Line>)
    ensures
        r.len() == base.len() || r.len() == over.len(),
        ({
            let bv = lines_view(base@);
            let ov = lines_view(over@);
            let bw = max_width(bv);
            let ow = max_width(ov);
            bw <= usize::MAX && ow <= usize::MAX ==> if ow > bw || over.len() > base.len() {
                lines_view(r@) == ov
            } else {
                r.len() == base.len() && forall|i: int|
                    0 <= i < r.len() ==> text_of(#[trigger] lines_view(r@)[i]) == overlaid(bv, ov, i)
                        && width_of(lines_view(r@)[i]) == bw
            }
        }),
{
    let ghost bv = lines_view(base@);
    let ghost ov = lines_view(over@);
    let bw = block_w(base.as_slice());
    let ow = block_w(over);
    let n = base.len();
    let rows = pad_block(base);
    if ow > bw || over.len() > n {
        return copy_lines(over);
    }
    let ghost fits = max_width(bv) <= usize::MAX && max_width(ov) <= usize::MAX;
    let top = (n - over.len()) / 2;
    let left = (bw - ow) / 2;
    let mut out: Vec<Line> = Vec::new();
    let mut i: usize = 0;
    while i < n
        invariant
            i <= n,
            n == rows.len(),
            n == bv.len(),
            out.len() == i,
            bv == lines_view(base@),
            ov == lines_view(over@),
            bw == sat(max_width(bv)),
            ow == sat(max_width(ov)),
            ow <= bw,
            over.len() <= n,
            top == (n - over.len()) / 2,
            left == (bw - ow) / 2,
            fits == (max_width(bv) <= usize::MAX && max_width(ov) <= usize::MAX),
            max_width(bv) <= usize::MAX ==> forall|j: int|
                0 <= j < n ==> text_of(#[trigger] lines_view(rows@)[j]) == padded(
                    text_of(bv[j]),
                    max_width(bv),
                ) && width_of(lines_view(rows@)[j]) == max_width(bv),
            fits ==> forall|j: int|
                0 <= j < i ==> text_of(#[trigger] lines_view(out@)[j]) == overlaid(bv, ov, j)
                    && width_of(lines_view(out@)[j]) == max_width(bv),
        decreases n - i,
    {
        let l: Line = if top <= i && i < top + over.len() {
            let row = &rows[i];
            let mut composed = line_slice(row, 0, left);
            let ghost a = line_view(composed);
            let middle = clip_pad(&over[i - top], ow);
            extend_line(&mut composed, &middle);
            let ghost b = line_view(composed);
            let rest = line_slice(row, left + ow, bw - left - ow);
            extend_line(&mut composed, &rest);
            proof {
                if fits {
                    let rt = text_of(line_view(*row));
                    assert(line_view(*row) == lines_view(rows@)[i as int]);
                    lemma_width_text(line_view(*row));
                    lemma_concat(a, line_view(middle));
                    lemma_concat(b, line_view(rest));
                    lemma_width_text(line_view(middle));
                    assert(rt.len() == bw);
                    assert(text_of(a) =~= rt.take(left as int));
                    assert(text_of(line_view(rest)) =~= rt.subrange(left + ow, bw as int));
                    assert(line_view(over@[i - top]) == ov[i - top]);
                    assert(text_of(line_view(composed)) =~= overlaid(bv, ov, i as int));
                    lemma_width_text(line_view(composed));
                }
            }
            composed
        } else {
            let c = copy_line(&rows[i]);
            proof {
                if fits {
                    assert(line_view(rows@[i as int]) == lines_view(rows@)[i as int]);
                    assert(text_of(line_view(c)) == overlaid(bv, ov, i as int));
                }
            }
            c
        };
        let ghost before = out@;
        out.push(l);
        proof {
            assert(out@ =~= before.push(l));
            assert forall|j: int| 0 <= j < i + 1 implies lines_view(out@)[j] == if j < i {
                lines_view(before)[j]
            } else {
                line_view(l)
            } by {}
        }
        i = i + 1;
    }
    out
}

} // verus!
