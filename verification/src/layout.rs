//! Block layout over `Line`s: joining blocks side by side, padding, clipping,
//! centering, slicing windows out of a line, ellipsis and word wrapping.
//! Every width is counted in characters; the contracts speak of the text a
//! line spells (`text_of`) and of its width.

use vstd::prelude::*;
use crate::line::{line_view, line_w, repeat, repeat_string, seg, seg_view, width_of, Color, Line, Seg};
use crate::assistant::string_views;
use crate::text::{chars_of, is_whitespace, is_ws, push_all, slice_vec, string_of, views};

verus! {

/// A segment as plain values: text, foreground, background.
pub type SegV = (Seq<char>, Option<Color>, Option<Color>);

/// The text a line spells: its segments' texts, in order.
pub open spec fn text_of(l: Seq<SegV>) -> Seq<char>
    decreases l.len(),
{
    if l.len() == 0 {
        Seq::empty()
    } else {
        text_of(l.drop_last()) + l.last().0
    }
}

pub open spec fn lines_view(ls: Seq<Line>) -> Seq<Seq<SegV>> {
    ls.map_values(|l: Line| line_view(l))
}

/// A line's text followed by spaces up to `n` characters.
pub open spec fn padded(t: Seq<char>, n: nat) -> Seq<char> {
    t + repeat(' ', (n - t.len()) as nat)
}

/// The widest line of a block (0 for none).
pub open spec fn max_width(ls: Seq<Seq<SegV>>) -> nat
    decreases ls.len(),
{
    if ls.len() == 0 {
        0
    } else {
        let m = max_width(ls.drop_last());
        let w = width_of(ls.last());
        if w > m {
            w
        } else {
            m
        }
    }
}

/// `n`, or `usize::MAX` when it does not fit.
pub open spec fn sat(n: nat) -> nat {
    if n <= usize::MAX {
        n
    } else {
        usize::MAX as nat
    }
}

pub proof fn lemma_width_text(l: Seq<SegV>)
    ensures
        width_of(l) == text_of(l).len(),
    decreases l.len(),
{
    if l.len() > 0 {
        lemma_width_text(l.drop_last());
    }
}

pub proof fn lemma_concat(a: Seq<SegV>, b: Seq<SegV>)
    ensures
        text_of(a + b) == text_of(a) + text_of(b),
        width_of(a + b) == width_of(a) + width_of(b),
    decreases b.len(),
{
    if b.len() == 0 {
        assert(a + b =~= a);
        assert(text_of(a) + text_of(b) =~= text_of(a));
    } else {
        assert((a + b).drop_last() =~= a + b.drop_last());
        assert((a + b).last() == b.last());
        lemma_concat(a, b.drop_last());
        assert(text_of(a) + text_of(b.drop_last()) + b.last().0 =~= text_of(a) + (text_of(
            b.drop_last(),
        ) + b.last().0));
    }
}

/// A line of one segment reads as that segment.
pub proof fn lemma_single(l: Seq<SegV>)
    requires
        l.len() == 1,
    ensures
        text_of(l) == l[0].0,
{
    let e = Seq::<SegV>::empty();
    assert(l =~= e.push(l[0]));
    lemma_push(e, l[0]);
    assert(text_of(e) =~= Seq::<char>::empty());
}

/// The texts of a block's lines.
pub open spec fn line_texts(ls: Seq<Seq<SegV>>) -> Seq<Seq<char>> {
    ls.map_values(|l: Seq<SegV>| text_of(l))
}

pub proof fn lemma_push(a: Seq<SegV>, s: SegV)
    ensures
        text_of(a.push(s)) == text_of(a) + s.0,
        width_of(a.push(s)) == width_of(a) + s.0.len(),
{
    assert(a.push(s).drop_last() =~= a);
}

/// A row as wide as the block.
pub proof fn max_width_at(ls: Seq<Seq<SegV>>) -> (k: int)
    requires
        ls.len() >= 1,
    ensures
        0 <= k < ls.len(),
        width_of(ls[k]) == max_width(ls),
    decreases ls.len(),
{
    assert(ls.last() == ls[ls.len() - 1]);
    if ls.len() == 1 {
        assert(ls.drop_last().len() == 0);
        assert(max_width(ls.drop_last()) == 0);
        0
    } else {
        let j = max_width_at(ls.drop_last());
        assert(ls.drop_last()[j] == ls[j]);
        if width_of(ls.last()) > max_width(ls.drop_last()) {
            ls.len() - 1
        } else {
            j
        }
    }
}

pub proof fn lemma_max_width(ls: Seq<Seq<SegV>>, i: int)
    requires
        0 <= i < ls.len(),
    ensures
        width_of(ls[i]) <= max_width(ls),
    decreases ls.len(),
{
    if i < ls.len() - 1 {
        assert(ls.drop_last()[i] == ls[i]);
        lemma_max_width(ls.drop_last(), i);
    }
}

/// The number of characters in `s`.
pub fn char_count(s: &str) -> (n: usize)
    ensures
        n == s@.len(),
{
    chars_of(s).len()
}

/// `n` spaces.
pub fn spaces(n: usize) -> (r: String)
    ensures
        r@ == repeat(' ', n as nat),
{
    repeat_string(' ', n)
}

/// The first `n` characters of `s` (all of it when shorter).
pub fn take_chars(s: &str, n: usize) -> (r: String)
    ensures
        r@ == if n <= s@.len() {
            s@.take(n as int)
        } else {
            s@
        },
{
    let v = chars_of(s);
    let k = if n < v.len() {
        n
    } else {
        v.len()
    };
    let w = slice_vec(v.as_slice(), 0, k);
    assert(v@.subrange(0, v@.len() as int) =~= v@);
    string_of(w.as_slice())
}

/// `s` without its first `n` characters.
pub fn skip_chars(s: &str, n: usize) -> (r: String)
    ensures
        r@ == if n <= s@.len() {
            s@.skip(n as int)
        } else {
            Seq::<char>::empty()
        },
{
    let v = chars_of(s);
    let k = if n < v.len() {
        n
    } else {
        v.len()
    };
    let w = slice_vec(v.as_slice(), k, v.len());
    string_of(w.as_slice())
}

pub fn copy_seg(s: &Seg) -> (r: Seg)
    ensures
        seg_view(r) == seg_view(*s),
{
    (s.0.clone(), s.1, s.2)
}

/// Appends a segment.
pub fn push_seg(l: &mut Line, s: Seg)
    ensures
        line_view(*final(l)) == line_view(*old(l)).push(seg_view(s)),
{
    l.push(s);
    assert(line_view(*l) =~= line_view(*old(l)).push(seg_view(s)));
}

/// Appends copies of every segment of `r`.
pub fn extend_line(l: &mut Line, r: &Line)
    ensures
        line_view(*final(l)) == line_view(*old(l)) + line_view(*r),
{
    let mut i: usize = 0;
    while i < r.len()
        invariant
            i <= r.len(),
            line_view(*l) == line_view(*old(l)) + line_view(*r).take(i as int),
        decreases r.len() - i,
    {
        let s = copy_seg(&r[i]);
        push_seg(l, s);
        i = i + 1;
        assert(line_view(*r).take(i as int) =~= line_view(*r).take((i - 1) as int).push(
            seg_view(r@[i - 1]),
        ));
    }
    assert(line_view(*r).take(r.len() as int) =~= line_view(*r));
}

pub fn copy_line(l: &Line) -> (r: Line)
    ensures
        line_view(r) == line_view(*l),
{
    let mut r: Line = Vec::new();
    let ghost empty = line_view(r);
    assert(empty =~= Seq::<SegV>::empty());
    extend_line(&mut r, l);
    assert(empty + line_view(*l) =~= line_view(*l));
    r
}

pub fn copy_lines(ls: &[Line]) -> (r: Vec<Line>)
    ensures
        lines_view(r@) == lines_view(ls@),
        r.len() == ls.len(),
{
    let mut r: Vec<Line> = Vec::new();
    let mut i: usize = 0;
    while i < ls.len()
        invariant
            i <= ls.len(),
            lines_view(r@) == lines_view(ls@).take(i as int),
        decreases ls.len() - i,
    {
        let c = copy_line(&ls[i]);
        let ghost before = r@;
        r.push(c);
        assert(r@ =~= before.push(c));
        assert(lines_view(r@) =~= lines_view(before).push(line_view(c)));
        i = i + 1;
        assert(lines_view(ls@).take(i as int) =~= lines_view(ls@).take((i - 1) as int).push(
            line_view(ls@[i - 1]),
        ));
    }
    assert(lines_view(ls@).take(ls.len() as int) =~= lines_view(ls@));
    r
}

/// Appends copies of the lines of `more`.
pub fn extend_lines(ls: &mut Vec<Line>, more: &[Line])
    ensures
        lines_view(final(ls)@) == lines_view(old(ls)@) + lines_view(more@),
        final(ls).len() == old(ls).len() + more.len(),
{
    let mut i: usize = 0;
    while i < more.len()
        invariant
            i <= more.len(),
            lines_view(ls@) == lines_view(old(ls)@) + lines_view(more@).take(i as int),
        decreases more.len() - i,
    {
        let c = copy_line(&more[i]);
        let ghost before = ls@;
        ls.push(c);
        assert(ls@ =~= before.push(c));
        assert(lines_view(ls@) =~= lines_view(before).push(line_view(c)));
        i = i + 1;
        assert(lines_view(more@).take(i as int) =~= lines_view(more@).take((i - 1) as int).push(
            line_view(more@[i - 1]),
        ));
    }
    assert(lines_view(more@).take(more.len() as int) =~= lines_view(more@));
    assert(lines_view(ls@).len() == ls@.len());
}

/// The widest line of a block, saturating at `usize::MAX`.
pub fn block_w(ls: &[Line]) -> (r: usize)
    ensures
        r == sat(max_width(lines_view(ls@))),
{
    let ghost lv = lines_view(ls@);
    let mut m: usize = 0;
    let mut i: usize = 0;
    while i < ls.len()
        invariant
            i <= ls.len(),
            lv == lines_view(ls@),
            m == sat(max_width(lv.take(i as int))),
        decreases ls.len() - i,
    {
        let w = line_w(&ls[i]);
        assert(lv.take(i + 1).drop_last() =~= lv.take(i as int));
        assert(lv.take(i + 1).last() == line_view(ls@[i as int]));
        if w > m {
            m = w;
        }
        i = i + 1;
    }
    assert(lv.take(ls.len() as int) =~= lv);
    m
}

// ---------------------------------------------------------------------------
// Clipping and centering

/// The text of `line` cut or padded to exactly `w` characters.
pub open spec fn clipped(t: Seq<char>, w: nat) -> Seq<char> {
    if t.len() >= w {
        t.take(w as int)
    } else {
        padded(t, w)
    }
}

/// A line cut to exactly `w` characters, padded with spaces when shorter.
/// Colors stay with the characters they painted.
pub fn clip_pad(line: &Line, w: usize) -> (r: Line)
    ensures
        text_of(line_view(r)) == clipped(text_of(line_view(*line)), w as nat),
        width_of(line_view(r)) == w,
{
    let ghost lv = line_view(*line);
    let mut out: Line = Vec::new();
    let mut budget: usize = w;
    let mut i: usize = 0;
    while i < line.len() && budget > 0
        invariant
            i <= line.len(),
            lv == line_view(*line),
            budget <= w,
            text_of(line_view(out)).len() + budget == w,
            text_of(line_view(out)) == if text_of(lv.take(i as int)).len() <= w {
                text_of(lv.take(i as int))
            } else {
                text_of(lv.take(i as int)).take(w as int)
            },
            text_of(lv.take(i as int)).len() > w ==> budget == 0,
        decreases line.len() - i,
    {
        let ghost before = text_of(lv.take(i as int));
        let t = take_chars(line[i].0.as_str(), budget);
        let n = char_count(t.as_str());
        let fg = line[i].1;
        let bg = line[i].2;
        proof {
            lemma_push(line_view(out), (t@, fg, bg));
            assert(lv.take(i + 1) =~= lv.take(i as int).push(lv[i as int]));
            lemma_push(lv.take(i as int), lv[i as int]);
            assert(lv[i as int].0 == line@[i as int].0@);
        }
        push_seg(&mut out, (t, fg, bg));
        budget = budget - n;
        i = i + 1;
        proof {
            let s = lv[i - 1].0;
            let after = text_of(lv.take(i as int));
            assert(after == before + s);
            if s.len() <= budget + n {
                assert(after.len() <= w);
            } else {
                assert(after.take(w as int) =~= before + s.take((w - before.len()) as int));
            }
        }
    }
    proof {
        lemma_width_text(line_view(out));
        assert(lv.take(line.len() as int) =~= lv);
        if i < line.len() {
            // cut short: the text so far is a prefix of the whole
            assert(lv =~= lv.take(i as int) + lv.skip(i as int));
            lemma_concat(lv.take(i as int), lv.skip(i as int));
            lemma_width_text(lv);
            assert(text_of(line_view(out)).len() == w);
            assert(text_of(lv.take(i as int)).len() >= w);
            assert(text_of(lv).take(w as int) =~= text_of(lv.take(i as int)).take(w as int));
        }
    }
    if budget > 0 {
        let ghost t0 = text_of(line_view(out));
        proof {
            lemma_push(line_view(out), (repeat(' ', budget as nat), None, None));
        }
        push_seg(&mut out, seg(spaces(budget), None));
        proof {
            assert(text_of(line_view(out)) =~= padded(text_of(lv), w as nat));
        }
    }
    proof {
        lemma_width_text(line_view(out));
    }
    out
}

/// Text centered in `w` characters (cut when too wide).
pub open spec fn centered(t: Seq<char>, w: nat) -> Seq<char> {
    if t.len() >= w {
        t.take(w as int)
    } else {
        let lpad = ((w - t.len()) as nat / 2) as nat;
        repeat(' ', lpad) + t + repeat(' ', (w - t.len() - lpad) as nat)
    }
}

/// A line centered in exactly `w` characters, or cut to them.
pub fn center_in(line: &Line, w: usize) -> (r: Line)
    ensures
        text_of(line_view(r)) == centered(text_of(line_view(*line)), w as nat),
        width_of(line_view(r)) == w,
{
    let lw = line_w(line);
    proof {
        lemma_width_text(line_view(*line));
    }
    if lw >= w {
        return clip_pad(line, w);
    }
    let lpad = (w - lw) / 2;
    let mut out: Line = Vec::new();
    let ghost e = line_view(out);
    assert(e =~= Seq::<SegV>::empty());
    push_seg(&mut out, seg(spaces(lpad), None));
    let ghost a = line_view(out);
    extend_line(&mut out, line);
    let ghost b = line_view(out);
    push_seg(&mut out, seg(spaces(w - lw - lpad), None));
    proof {
        lemma_push(e, (repeat(' ', lpad as nat), None, None));
        assert(text_of(e) =~= Seq::<char>::empty());
        lemma_concat(a, line_view(*line));
        lemma_push(b, (repeat(' ', (w - lw - lpad) as nat), None, None));
        lemma_width_text(line_view(out));
        assert(text_of(line_view(out)) =~= centered(text_of(line_view(*line)), w as nat));
    }
    out
}

/// Every line padded with spaces to the width of the widest, so a block
/// keeps one left edge when its lines are centered one by one.
pub fn pad_block(lines: Vec<Line>) -> (r: Vec<Line>)
    ensures
        r.len() == lines.len(),
        forall|i: int|
            0 <= i < r.len() ==> width_of(#[trigger] lines_view(r@)[i]) >= width_of(
                lines_view(lines@)[i],
            ) && text_of(lines_view(r@)[i]) == padded(
                text_of(lines_view(lines@)[i]),
                width_of(lines_view(r@)[i]),
            ),
        max_width(lines_view(lines@)) <= usize::MAX ==> forall|i: int|
            0 <= i < r.len() ==> text_of(#[trigger] lines_view(r@)[i]) == padded(
                text_of(lines_view(lines@)[i]),
                max_width(lines_view(lines@)),
            ) && width_of(lines_view(r@)[i]) == max_width(lines_view(lines@)),
{
    let ghost lv = lines_view(lines@);
    let w = block_w(lines.as_slice());
    let mut out: Vec<Line> = Vec::new();
    let mut i: usize = 0;
    while i < lines.len()
        invariant
            i <= lines.len(),
            out.len() == i,
            lv == lines_view(lines@),
            w == sat(max_width(lv)),
            max_width(lv) <= usize::MAX ==> forall|j: int|
                0 <= j < i ==> text_of(#[trigger] lines_view(out@)[j]) == padded(
                    text_of(lv[j]),
                    max_width(lv),
                ) && width_of(lines_view(out@)[j]) == max_width(lv),
            forall|j: int|
                0 <= j < i ==> width_of(#[trigger] lines_view(out@)[j]) >= width_of(lv[j])
                    && text_of(lines_view(out@)[j]) == padded(
                    text_of(lv[j]),
                    width_of(lines_view(out@)[j]),
                ),
        decreases lines.len() - i,
    {
        let mut l = copy_line(&lines[i]);
        let lw = line_w(&l);
        let pad = w.saturating_sub(lw);
        let ghost l0 = line_view(l);
        if pad > 0 {
            push_seg(&mut l, seg(spaces(pad), None));
        }
        proof {
            assert(l0 == lv[i as int]);
            lemma_width_text(l0);
            lemma_push(l0, (repeat(' ', pad as nat), None, None));
            lemma_width_text(line_view(l));
            assert(text_of(line_view(l)) =~= padded(text_of(l0), width_of(line_view(l))));
            if max_width(lv) <= usize::MAX {
                lemma_max_width(lv, i as int);
                assert(text_of(line_view(l)) =~= padded(text_of(l0), max_width(lv)));
            }
        }
        let ghost before = out@;
        out.push(l);
        proof {
            assert(out@ =~= before.push(l));
            assert forall|j: int| 0 <= j < i + 1 implies lines_view(out@)[j] == if j < i {
                lines_view(before)[j]
            } else {
                line_view(l)
            } by {}
        }
        i = i + 1;
    }
    out
}

/// A row of a block, or nothing past its end.
pub open spec fn row_or_empty(ls: Seq<Seq<SegV>>, i: int) -> Seq<SegV> {
    if 0 <= i < ls.len() {
        ls[i]
    } else {
        Seq::empty()
    }
}

pub open spec fn max_nat(a: nat, b: nat) -> nat {
    if a >= b {
        a
    } else {
        b
    }
}

/// Two blocks side by side with `gap` columns between them. Every joined line
/// has the same width: the left block padded to its widest line plus the
/// gap, then the right block padded to its widest.
pub fn beside(left: &[Line], right: &[Line], gap: usize) -> (r: Vec<Line>)
    ensures
        r.len() == max_nat(left.len() as nat, right.len() as nat),
        ({
            let lw = max_width(lines_view(left@));
            let rw = max_width(lines_view(right@));
            lw + gap + rw <= usize::MAX ==> forall|i: int|
                0 <= i < r.len() ==> text_of(#[trigger] lines_view(r@)[i]) == padded(
                    text_of(row_or_empty(lines_view(left@), i)),
                    lw + gap as nat,
                ) + padded(text_of(row_or_empty(lines_view(right@), i)), rw) && width_of(
                    lines_view(r@)[i],
                ) == lw + gap + rw
        }),
{
    let ghost lv = lines_view(left@);
    let ghost rv = lines_view(right@);
    let lw = block_w(left);
    let rw = block_w(right);
    let n = if left.len() >= right.len() {
        left.len()
    } else {
        right.len()
    };
    let ghost fits = max_width(lv) + gap + max_width(rv) <= usize::MAX;
    let mut out: Vec<Line> = Vec::new();
    let mut i: usize = 0;
    while i < n
        invariant
            i <= n,
            n == max_nat(left.len() as nat, right.len() as nat),
            out.len() == i,
            lv == lines_view(left@),
            rv == lines_view(right@),
            lw == sat(max_width(lv)),
            rw == sat(max_width(rv)),
            fits == (max_width(lv) + gap + max_width(rv) <= usize::MAX),
            fits ==> forall|j: int|
                0 <= j < i ==> text_of(#[trigger] lines_view(out@)[j]) == padded(
                    text_of(row_or_empty(lv, j)),
                    max_width(lv) + gap as nat,
                ) + padded(text_of(row_or_empty(rv, j)), max_width(rv)) && width_of(
                    lines_view(out@)[j],
                ) == max_width(lv) + gap + max_width(rv),
        decreases n - i,
    {
        let mut l: Line = if i < left.len() {
            copy_line(&left[i])
        } else {
            Vec::new()
        };
        let ghost l0 = line_view(l);
        proof {
            assert(l0 =~= row_or_empty(lv, i as int));
        }
        let pad = lw.saturating_add(gap).saturating_sub(line_w(&l));
        push_seg(&mut l, seg(spaces(pad), None));
        let ghost l1 = line_view(l);
        if i < right.len() {
            extend_line(&mut l, &right[i]);
        }
        let ghost l2 = line_view(l);
        proof {
            if i < right.len() {
                assert(line_view(right@[i as int]) == row_or_empty(rv, i as int));
            } else {
                assert(l2 =~= l1 + row_or_empty(rv, i as int));
            }
        }
        let tail = lw.saturating_add(gap).saturating_add(rw).saturating_sub(line_w(&l));
        if tail > 0 {
            push_seg(&mut l, seg(spaces(tail), None));
        }
        proof {
            if fits {
                let tl = text_of(l0);
                let tr = text_of(row_or_empty(rv, i as int));
                lemma_width_text(l0);
                lemma_width_text(row_or_empty(rv, i as int));
                if i < left.len() {
                    lemma_max_width(lv, i as int);
                }
                if i < right.len() {
                    lemma_max_width(rv, i as int);
                }
                lemma_push(l0, (repeat(' ', pad as nat), None, None));
                lemma_concat(l1, row_or_empty(rv, i as int));
                lemma_width_text(l2);
                lemma_push(l2, (repeat(' ', tail as nat), None, None));
                lemma_width_text(line_view(l));
                assert(text_of(l1) =~= padded(tl, max_width(lv) + gap as nat));
                assert(text_of(line_view(l)) =~= padded(tl, max_width(lv) + gap as nat) + padded(
                    tr,
                    max_width(rv),
                ));
            }
        }
        let ghost before = out@;
        out.push(l);
        proof {
            assert(out@ =~= before.push(l));
            assert forall|j: int| 0 <= j < i + 1 implies lines_view(out@)[j] == if j < i {
                lines_view(before)[j]
            } else {
                line_view(l)
            } by {}
        }
        i = i + 1;
    }
    out
}

/// A line recolored dark grey on no background.
pub open spec fn dimmed(l: Seq<SegV>) -> Seq<SegV> {
    l.map_values(|s: SegV| (s.0, Some(Color::DarkGrey), None::<Color>))
}

pub proof fn lemma_dimmed_text(l: Seq<SegV>)
    ensures
        text_of(dimmed(l)) == text_of(l),
        width_of(dimmed(l)) == width_of(l),
    decreases l.len(),
{
    if l.len() > 0 {
        assert(dimmed(l).drop_last() =~= dimmed(l.drop_last()));
        lemma_dimmed_text(l.drop_last());
    }
}

/// The backdrop behind a modal: every line in dark grey.
pub fn dim(lines: &[Line]) -> (r: Vec<Line>)
    ensures
        lines_view(r@) == lines_view(lines@).map_values(|l: Seq<SegV>| dimmed(l)),
        r.len() == lines.len(),
        forall|i: int|
            0 <= i < r.len() ==> text_of(#[trigger] lines_view(r@)[i]) == text_of(lines_view(lines@)[i])
                && width_of(lines_view(r@)[i]) == width_of(lines_view(lines@)[i]),
{
    let mut out: Vec<Line> = Vec::new();
    let mut i: usize = 0;
    while i < lines.len()
        invariant
            i <= lines.len(),
            lines_view(out@) == lines_view(lines@).take(i as int).map_values(
                |l: Seq<SegV>| dimmed(l),
            ),
        decreases lines.len() - i,
    {
        let src = &lines[i];
        let mut l: Line = Vec::new();
        let mut k: usize = 0;
        while k < src.len()
            invariant
                k <= src.len(),
                line_view(l) == dimmed(line_view(*src).take(k as int)),
            decreases src.len() - k,
        {
            push_seg(&mut l, (src[k].0.clone(), Some(Color::DarkGrey), None));
            k = k + 1;
            assert(dimmed(line_view(*src).take(k as int)) =~= dimmed(
                line_view(*src).take((k - 1) as int),
            ).push((src@[k - 1].0@, Some(Color::DarkGrey), None::<Color>)));
        }
        assert(line_view(*src).take(src.len() as int) =~= line_view(*src));
        let ghost before = out@;
        out.push(l);
        i = i + 1;
        assert(out@ =~= before.push(l));
        assert(lines_view(out@) =~= lines_view(before).push(line_view(l)));
        assert(lines_view(lines@).take(i as int) =~= lines_view(lines@).take((i - 1) as int).push(
            line_view(lines@[i - 1]),
        ));
        assert(lines_view(lines@).take(i as int).map_values(|l: Seq<SegV>| dimmed(l))
            =~= lines_view(lines@).take((i - 1) as int).map_values(|l: Seq<SegV>| dimmed(l)).push(
            dimmed(line_view(lines@[i - 1])),
        ));
    }
    assert(lines_view(lines@).take(lines.len() as int) =~= lines_view(lines@));
    assert forall|i: int| 0 <= i < out.len() implies text_of(#[trigger] lines_view(out@)[i])
        == text_of(lines_view(lines@)[i]) && width_of(lines_view(out@)[i]) == width_of(
        lines_view(lines@)[i],
    ) by {
        lemma_dimmed_text(lines_view(lines@)[i]);
    }
    out
}

/// `w - 1`, or 0.
pub open spec fn less_one(w: nat) -> nat {
    if w == 0 {
        0
    } else {
        (w - 1) as nat
    }
}

/// A line cut to `w` characters with a visible `…` at the cut; lines that
/// fit come back unchanged.
pub fn ellipsize(line: Line, w: usize) -> (r: Line)
    ensures
        sat(width_of(line_view(line))) <= w ==> line_view(r) == line_view(line),
        sat(width_of(line_view(line))) > w ==> text_of(line_view(r)) == text_of(line_view(line)).take(
            less_one(w as nat) as int,
        ) + seq!['…'] && width_of(line_view(r)) == less_one(w as nat) + 1,
{
    if line_w(&line) <= w {
        return line;
    }
    let cut = clip_pad(&line, w.saturating_sub(1));
    let mut out = cut;
    let ghost c = line_view(out);
    let mut dots: Vec<char> = Vec::new();
    dots.push('…');
    push_seg(&mut out, seg(string_of(dots.as_slice()), Some(Color::DarkGrey)));
    proof {
        lemma_width_text(line_view(line));
        lemma_push(c, (seq!['…'], Some(Color::DarkGrey), None));
        lemma_width_text(c);
        lemma_width_text(line_view(out));
    }
    out
}

/// The characters of `t` from `start`, at most `len` of them.
pub open spec fn window(t: Seq<char>, start: nat, len: nat) -> Seq<char> {
    let a = if start <= t.len() {
        start
    } else {
        t.len()
    };
    let b = if start + len <= t.len() {
        start + len
    } else {
        t.len()
    };
    t.subrange(a as int, b as int)
}

/// A window of `len` characters starting at `start`, keeping each
/// character's colors.
pub fn line_slice(l: &Line, start: usize, len: usize) -> (r: Line)
    ensures
        width_of(line_view(*l)) <= usize::MAX ==> text_of(line_view(r)) == window(
            text_of(line_view(*l)),
            start as nat,
            len as nat,
        ),
{
    let ghost lv = line_view(*l);
    let ghost fits = width_of(lv) <= usize::MAX;
    let end = start.saturating_add(len);
    let mut out: Line = Vec::new();
    let mut pos: usize = 0;
    let mut i: usize = 0;
    proof {
        assert(text_of(lv.take(0)) =~= Seq::<char>::empty());
        assert(text_of(line_view(out)) =~= Seq::<char>::empty());
    }
    while i < l.len()
        invariant
            i <= l.len(),
            lv == line_view(*l),
            fits == (width_of(lv) <= usize::MAX),
            end == sat(start as nat + len as nat),
            fits ==> pos == text_of(lv.take(i as int)).len(),
            fits ==> text_of(line_view(out)) == window(
                text_of(lv.take(i as int)),
                start as nat,
                len as nat,
            ),
        decreases l.len() - i,
    {
        let seg_start = pos;
        let s = l[i].0.as_str();
        let n = char_count(s);
        pos = pos.saturating_add(n);
        let from = if start > seg_start {
            start
        } else {
            seg_start
        };
        let to = if end < pos {
            end
        } else {
            pos
        };
        let ghost o0 = line_view(out);
        if to > from {
            let tail = skip_chars(s, from - seg_start);
            let t = take_chars(tail.as_str(), to - from);
            push_seg(&mut out, (t, l[i].1, l[i].2));
        }
        proof {
            if fits {
                let tt = text_of(lv.take(i as int));
                let sv = lv[i as int].0;
                assert(lv.take(i + 1) =~= lv.take(i as int).push(lv[i as int]));
                lemma_push(lv.take(i as int), lv[i as int]);
                assert(lv =~= lv.take(i + 1) + lv.skip(i + 1));
                lemma_concat(lv.take(i + 1), lv.skip(i + 1));
                lemma_width_text(lv);
                assert(sv == l@[i as int].0@);
                let t2 = tt + sv;
                assert(text_of(lv.take(i + 1)) == t2);
                assert(pos == t2.len());
                if to > from {
                    lemma_push(o0, (sv.skip(from - seg_start).take(to - from), l@[i as int].1, l@[i as int].2));
                    assert(window(t2, start as nat, len as nat) =~= window(tt, start as nat, len as nat)
                        + sv.skip(from - seg_start).take(to - from));
                } else {
                    assert(window(t2, start as nat, len as nat) =~= window(tt, start as nat, len as nat));
                }
            }
        }
        i = i + 1;
    }
    assert(lv.take(l.len() as int) =~= lv);
    out
}

// ---------------------------------------------------------------------------
// Word wrapping

/// Scanning left to right: the words finished so far, and the word in
/// progress.
pub open spec fn scan_words(s: Seq<char>) -> (Seq<Seq<char>>, Seq<char>)
    decreases s.len(),
{
    if s.len() == 0 {
        (Seq::empty(), Seq::empty())
    } else {
        let prev = scan_words(s.drop_last());
        let c = s.last();
        if is_ws(c) {
            if prev.1.len() > 0 {
                (prev.0.push(prev.1), Seq::empty())
            } else {
                (prev.0, Seq::empty())
            }
        } else {
            (prev.0, prev.1.push(c))
        }
    }
}

/// The whitespace-separated words of `s`.
pub open spec fn words(s: Seq<char>) -> Seq<Seq<char>> {
    let sc = scan_words(s);
    if sc.1.len() > 0 {
        sc.0.push(sc.1)
    } else {
        sc.0
    }
}

/// Greedy wrapping: each word joins the current line after a space while the
/// line stays within `w`; otherwise it opens a new line. A word longer than
/// `w` gets a line of its own. There is always at least one line.
pub open spec fn wrap_words(ws: Seq<Seq<char>>, w: nat) -> Seq<Seq<char>>
    decreases ws.len(),
{
    if ws.len() == 0 {
        seq![Seq::<char>::empty()]
    } else {
        let prev = wrap_words(ws.drop_last(), w);
        let word = ws.last();
        let cur = prev.last();
        if cur.len() > 0 && cur.len() + 1 + word.len() > w {
            prev.push(word)
        } else if cur.len() > 0 {
            prev.update(prev.len() - 1, cur + seq![' '] + word)
        } else {
            prev.update(prev.len() - 1, word)
        }
    }
}

pub proof fn lemma_wrap_nonempty(ws: Seq<Seq<char>>, w: nat)
    ensures
        wrap_words(ws, w).len() >= 1,
    decreases ws.len(),
{
    if ws.len() > 0 {
        lemma_wrap_nonempty(ws.drop_last(), w);
    }
}

fn copy_chars(v: &Vec<char>) -> (r: Vec<char>)
    ensures
        r@ == v@,
{
    let r = slice_vec(v.as_slice(), 0, v.len());
    assert(v@.subrange(0, v@.len() as int) =~= v@);
    r
}

/// The words of `text`.
pub fn words_of(text: &str) -> (r: Vec<Vec<char>>)
    ensures
        views(r@) == words(text@),
{
    let t = chars_of(text);
    let mut ws: Vec<Vec<char>> = Vec::new();
    let mut cur: Vec<char> = Vec::new();
    let mut i: usize = 0;
    while i < t.len()
        invariant
            i <= t.len(),
            t@ == text@,
            views(ws@) == scan_words(t@.take(i as int)).0,
            cur@ == scan_words(t@.take(i as int)).1,
        decreases t.len() - i,
    {
        let c = t[i];
        assert(t@.take(i + 1).drop_last() =~= t@.take(i as int));
        if is_whitespace(c) {
            if cur.len() > 0 {
                let ghost before = ws@;
                let done = copy_chars(&cur);
                ws.push(done);
                assert(views(ws@) =~= views(before).push(cur@));
            }
            cur = Vec::new();
        } else {
            cur.push(c);
        }
        i = i + 1;
    }
    assert(t@.take(t.len() as int) =~= t@);
    if cur.len() > 0 {
        let ghost before = ws@;
        ws.push(cur);
        assert(views(ws@) =~= views(before).push(scan_words(text@).1));
    }
    ws
}

/// `text` broken into lines of at most `w` characters at whitespace (a word
/// longer than `w` stands alone on its line).
pub fn wrap(text: &str, w: usize) -> (r: Vec<String>)
    ensures
        string_views(r@) == wrap_words(words(text@), w as nat),
{
    let ws = words_of(text);
    let ghost wv = views(ws@);
    let mut lines: Vec<Vec<char>> = Vec::new();
    lines.push(Vec::new());
    proof {
        assert(views(lines@) =~= wrap_words(wv.take(0), w as nat));
    }
    let mut i: usize = 0;
    while i < ws.len()
        invariant
            i <= ws.len(),
            wv == views(ws@),
            views(lines@) == wrap_words(wv.take(i as int), w as nat),
            lines.len() >= 1,
        decreases ws.len() - i,
    {
        let word = &ws[i];
        let k = lines.len() - 1;
        let cur_len = lines[k].len();
        let ghost prev = views(lines@);
        proof {
            assert(wv.take(i + 1).drop_last() =~= wv.take(i as int));
            assert(wv.take(i + 1).last() == word@);
            assert(prev.last() == lines@[k as int]@);
        }
        let ghost next = wrap_words(wv.take(i + 1), w as nat);
        proof {
            assert(prev == wrap_words(wv.take(i as int), w as nat));
            assert(next == {
                let cur = prev.last();
                let wd = word@;
                if cur.len() > 0 && cur.len() + 1 + wd.len() > w {
                    prev.push(wd)
                } else if cur.len() > 0 {
                    prev.update(prev.len() - 1, cur + seq![' '] + wd)
                } else {
                    prev.update(prev.len() - 1, wd)
                }
            });
        }
        if cur_len > 0 && (cur_len as u128) + 1 + (word.len() as u128) > (w as u128) {
            let ghost before = lines@;
            let c = copy_chars(word);
            lines.push(c);
            assert(lines@ =~= before.push(c));
            assert(views(lines@) =~= prev.push(word@));
        } else if cur_len > 0 {
            let mut joined = copy_chars(&lines[k]);
            joined.push(' ');
            push_all(&mut joined, word.as_slice());
            let ghost jv = joined@;
            assert(jv =~= prev.last() + seq![' '] + word@);
            lines.set(k, joined);
            assert(views(lines@) =~= prev.update(k as int, jv));
        } else {
            let ghost wd = word@;
            lines.set(k, copy_chars(word));
            assert(views(lines@) =~= prev.update(k as int, wd));
        }
        assert(views(lines@) == next);
        i = i + 1;
    }
    assert(wv.take(ws.len() as int) =~= wv);
    let mut out: Vec<String> = Vec::new();
    let mut j: usize = 0;
    while j < lines.len()
        invariant
            j <= lines.len(),
            string_views(out@) == views(lines@).take(j as int),
        decreases lines.len() - j,
    {
        let ghost before = out@;
        let st = string_of(lines[j].as_slice());
        out.push(st);
        assert(out@ =~= before.push(st));
        assert(string_views(out@) =~= string_views(before).push(st@));
        j = j + 1;
        assert(views(lines@).take(j as int) =~= views(lines@).take((j - 1) as int).push(
            lines@[j - 1]@,
        ));
    }
    assert(views(lines@).take(lines.len() as int) =~= views(lines@));
    out
}

/// The first `n` characters of `s`, or all of it.
pub open spec fn prefix(s: Seq<char>, n: nat) -> Seq<char> {
    if n <= s.len() {
        s.take(n as int)
    } else {
        s
    }
}

/// The wrapped lines capped at `rows` (at least one); when lines were cut
/// off, the last shown line ends with `…`.
pub open spec fn wrapped_rows(t: Seq<char>, w: nat, rows: nat) -> Seq<Seq<char>> {
    let ls = wrap_words(words(t), w);
    let cap: nat = if rows == 0 {
        1
    } else {
        rows
    };
    if ls.len() > cap {
        let k = ls.take(cap as int);
        k.update(cap - 1, prefix(k[cap - 1], less_one(w)) + seq!['…'])
    } else {
        ls
    }
}

/// A plain (uncolored) one-segment line per text.
pub open spec fn plain_lines(ts: Seq<Seq<char>>) -> Seq<Seq<SegV>> {
    ts.map_values(|t: Seq<char>| seq![(t, None::<Color>, None::<Color>)])
}

/// `text` wrapped to `w` and capped at `rows` lines, as plain lines.
pub fn wrapped_text(text: &str, w: usize, rows: usize) -> (r: Vec<Line>)
    ensures
        lines_view(r@) == plain_lines(wrapped_rows(text@, w as nat, rows as nat)),
        1 <= r.len() <= if rows == 0 {
            1
        } else {
            rows
        },
{
    let wrapped = wrap(text, w);
    proof {
        lemma_wrap_nonempty(words(text@), w as nat);
    }
    let cap: usize = if rows == 0 {
        1
    } else {
        rows
    };
    let ghost ls = string_views(wrapped@);
    let n = if wrapped.len() > cap {
        cap
    } else {
        wrapped.len()
    };
    let mut out: Vec<Line> = Vec::new();
    let mut i: usize = 0;
    while i < n
        invariant
            i <= n,
            n <= wrapped.len(),
            ls == string_views(wrapped@),
            ls == wrap_words(words(text@), w as nat),
            n == if wrapped.len() > cap {
                cap
            } else {
                wrapped.len()
            },
            cap == if rows == 0 {
                1
            } else {
                rows
            },
            lines_view(out@) == plain_lines(wrapped_rows(text@, w as nat, rows as nat).take(
                i as int,
            )),
        decreases n - i,
    {
        let t: String = if wrapped.len() > cap && i + 1 == cap {
            let mut v = chars_of(take_chars(wrapped[i].as_str(), w.saturating_sub(1)).as_str());
            v.push('…');
            string_of(v.as_slice())
        } else {
            wrapped[i].clone()
        };
        proof {
            let wr = wrapped_rows(text@, w as nat, rows as nat);
            assert(ls == wrap_words(words(text@), w as nat));
            assert(ls.len() == wrapped.len());
            if ls.len() > cap {
                let k = ls.take(cap as int);
                assert(k.len() == cap);
                assert(wr == k.update(cap - 1, prefix(k[cap - 1], less_one(w as nat)) + seq!['…']));
            } else {
                assert(wr == ls);
            }
            assert(ls[i as int] == wrapped@[i as int]@);
            if wrapped.len() > cap {
                let k = ls.take(cap as int);
                assert(k[i as int] == ls[i as int]);
            }
            assert(wr.len() == n);
            assert(t@ =~= wr[i as int]);
        }
        let l = crate::line::plain(t);
        let ghost before = out@;
        out.push(l);
        i = i + 1;
        proof {
            let wr = wrapped_rows(text@, w as nat, rows as nat);
            assert(out@ =~= before.push(l));
            assert(lines_view(out@) =~= lines_view(before).push(line_view(l)));
            assert(plain_lines(wr.take(i as int)) =~= plain_lines(wr.take((i - 1) as int)).push(
                seq![(wr[i - 1], None::<Color>, None::<Color>)],
            ));
        }
    }
    proof {
        let wr = wrapped_rows(text@, w as nat, rows as nat);
        assert(wr.take(n as int) =~= wr);
    }
    out
}

// ---------------------------------------------------------------------------
// Building lines

pub fn empty_line() -> (r: Line)
    ensures
        line_view(r) == Seq::<SegV>::empty(),
        text_of(line_view(r)) == Seq::<char>::empty(),
        width_of(line_view(r)) == 0,
{
    let r: Line = Vec::new();
    assert(line_view(r) =~= Seq::<SegV>::empty());
    r
}

/// Appends a segment with no background.
pub fn add_seg(l: &mut Line, s: String, c: Option<Color>)
    ensures
        line_view(*final(l)) == line_view(*old(l)).push((s@, c, None::<Color>)),
        text_of(line_view(*final(l))) == text_of(line_view(*old(l))) + s@,
        width_of(line_view(*final(l))) == width_of(line_view(*old(l))) + s@.len(),
{
    let ghost sv = s@;
    push_seg(l, seg(s, c));
    proof {
        lemma_push(line_view(*old(l)), (sv, c, None));
    }
}

/// Appends copies of the segments of `r`.
pub fn add_line(l: &mut Line, r: &Line)
    ensures
        line_view(*final(l)) == line_view(*old(l)) + line_view(*r),
        text_of(line_view(*final(l))) == text_of(line_view(*old(l))) + text_of(line_view(*r)),
        width_of(line_view(*final(l))) == width_of(line_view(*old(l))) + width_of(line_view(*r)),
{
    extend_line(l, r);
    proof {
        lemma_concat(line_view(*old(l)), line_view(*r));
    }
}

/// A string of the given characters.
pub fn text(v: Vec<char>) -> (r: String)
    ensures
        r@ == v@,
{
    string_of(v.as_slice())
}

/// Appends the characters of `s`, then spaces up to `w` characters.
pub fn push_left(v: &mut Vec<char>, s: &str, w: usize)
    ensures
        final(v)@ == old(v)@ + crate::species::pad_to(s@, w as nat),
{
    crate::text::push_str(v, s);
    let n = char_count(s);
    if n < w {
        crate::species::push_spaces(v, w - n);
    }
    assert(final(v)@ =~= old(v)@ + crate::species::pad_to(s@, w as nat));
}

/// Appends `n` in decimal, right-aligned in `w` characters.
pub fn push_dec_right(v: &mut Vec<char>, n: u64, w: usize)
    ensures
        final(v)@ == old(v)@ + crate::species::right_align(crate::text::dec(n as nat), w as nat),
{
    let mut d: Vec<char> = Vec::new();
    crate::text::push_dec(&mut d, n);
    assert(d@ =~= crate::text::dec(n as nat));
    if d.len() < w {
        crate::species::push_spaces(v, w - d.len());
    }
    push_all(v, d.as_slice());
    assert(final(v)@ =~= old(v)@ + crate::species::right_align(crate::text::dec(n as nat), w as nat));
}

// ---------------------------------------------------------------------------
// Blocks of one width

/// Every row exactly `w` wide.
pub open spec fn all_width(ls: Seq<Seq<SegV>>, w: nat) -> bool {
    forall|i: int| 0 <= i < ls.len() ==> width_of(#[trigger] ls[i]) == w
}

pub proof fn lemma_all_width_max(ls: Seq<Seq<SegV>>, w: nat)
    requires
        all_width(ls, w),
        ls.len() >= 1,
    ensures
        max_width(ls) == w,
    decreases ls.len(),
{
    assert(ls.last() == ls[ls.len() - 1]);
    assert(width_of(ls[ls.len() - 1]) == w);
    if ls.len() > 1 {
        assert(all_width(ls.drop_last(), w)) by {
            assert forall|i: int| 0 <= i < ls.drop_last().len() implies width_of(
                #[trigger] ls.drop_last()[i],
            ) == w by {
                assert(ls.drop_last()[i] == ls[i]);
            }
        }
        lemma_all_width_max(ls.drop_last(), w);
    } else {
        assert(ls.drop_last().len() == 0);
        assert(max_width(ls.drop_last()) == 0);
    }
}

/// A padded block whose widest row fits has every row that wide.
pub proof fn lemma_pad_block_uniform(input: Seq<Seq<SegV>>, out: Seq<Seq<SegV>>)
    requires
        out.len() == input.len(),
        input.len() >= 1,
        forall|i: int| 0 <= i < out.len() ==> width_of(#[trigger] out[i]) >= width_of(input[i]),
        max_width(input) <= usize::MAX ==> all_width(out, max_width(input)),
    ensures
        max_width(out) <= usize::MAX ==> all_width(out, max_width(out)),
{
    if max_width(out) <= usize::MAX {
        let k = max_width_at(input);
        lemma_max_width(out, k);
        assert(max_width(input) <= usize::MAX);
        lemma_all_width_max(out, max_width(input));
    }
}

} // verus!
