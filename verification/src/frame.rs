//! The frame every screen is drawn into: the outer border, the content
//! centered inside it, and the footer row of key hints. The program paints
//! the rows this module lays out; nothing else reaches the terminal, and no
//! control character does (external text arrives here verbatim, and a newline
//! or a tab would move the cursor and shear the frame).

use vstd::prelude::*;
use crate::layout::{
    copy_line, char_count, copy_seg, lemma_push, lemma_width_text, lines_view, push_seg, spaces, text_of, SegV,
};
use crate::line::{chip, line_view, line_w, repeat, seg, width_of, Color, Line, Seg};
use crate::text::{chars_of, string_of};

verus! {

// ---------------------------------------------------------------------------
// Footer hints

/// Reading a hint string left to right: the text so far, and whether a
/// `[key]` is open.
pub open spec fn footer_scan(s: Seq<char>) -> (Seq<char>, bool)
    decreases s.len(),
{
    if s.len() == 0 {
        (Seq::empty(), false)
    } else {
        let p = footer_scan(s.drop_last());
        let c = s.last();
        if p.1 {
            if c == ']' {
                (p.0.push(' '), false)
            } else {
                (p.0.push(c), true)
            }
        } else if c == '[' {
            (p.0.push(' '), true)
        } else {
            (p.0.push(c), false)
        }
    }
}

/// What a hint string shows: every `[key]` becomes the key cap ` key `, the
/// rest reads as written.
pub open spec fn footer_text(s: Seq<char>) -> Seq<char> {
    let p = footer_scan(s);
    if p.1 {
        p.0.push(' ')
    } else {
        p.0
    }
}

/// "[f] comer  [p] brincar" as key caps between grey labels.
pub fn footer_line(s: &str) -> (r: Line)
    ensures
        text_of(line_view(r)) == footer_text(s@),
{
    let cs = chars_of(s);
    let mut out: Line = Vec::new();
    let mut text: Vec<char> = Vec::new();
    let mut key: Vec<char> = Vec::new();
    let mut in_key = false;
    let mut i: usize = 0;
    proof {
        assert(text_of(line_view(out)) =~= Seq::<char>::empty());
        assert(footer_scan(cs@.take(0)).0 =~= Seq::<char>::empty());
    }
    while i < cs.len()
        invariant
            i <= cs.len(),
            cs@ == s@,
            in_key == footer_scan(cs@.take(i as int)).1,
            in_key ==> text@.len() == 0,
            !in_key ==> key@.len() == 0,
            text_of(line_view(out)) + (if in_key {
                seq![' '] + key@
            } else {
                text@
            }) == footer_scan(cs@.take(i as int)).0,
        decreases cs.len() - i,
    {
        let c = cs[i];
        let ghost o0 = line_view(out);
        let ghost prev = footer_scan(cs@.take(i as int));
        assert(cs@.take(i + 1).drop_last() =~= cs@.take(i as int));
        if in_key {
            if c == ']' {
                let k = string_of(key.as_slice());
                let cap = chip(k.as_str());
                let ghost cv = (seq![' '] + key@ + seq![' '], Some(Color::Cyan), Some(Color::DarkGrey));
                push_seg(&mut out, cap);
                proof {
                    lemma_push(o0, cv);
                    assert(text_of(line_view(out)) + text@ =~= prev.0.push(' '));
                }
                key = Vec::new();
                in_key = false;
            } else {
                key.push(c);
                assert(text_of(line_view(out)) + (seq![' '] + key@) =~= prev.0.push(c));
            }
        } else if c == '[' {
            if text.len() > 0 {
                let t = string_of(text.as_slice());
                let ghost tv = t@;
                push_seg(&mut out, seg(t, Some(Color::DarkGrey)));
                proof {
                    lemma_push(o0, (tv, Some(Color::DarkGrey), None));
                }
                text = Vec::new();
            }
            in_key = true;
            assert(text_of(line_view(out)) + (seq![' '] + key@) =~= prev.0.push(' '));
        } else {
            text.push(c);
            assert(text_of(line_view(out)) + text@ =~= prev.0.push(c));
        }
        i = i + 1;
    }
    assert(cs@.take(cs.len() as int) =~= cs@);
    if in_key {
        let ghost o0 = line_view(out);
        let k = string_of(key.as_slice());
        let cap = chip(k.as_str());
        push_seg(&mut out, cap);
        proof {
            lemma_push(o0, (seq![' '] + key@ + seq![' '], Some(Color::Cyan), Some(Color::DarkGrey)));
            assert(text_of(line_view(out)) =~= footer_text(s@));
        }
    }
    if text.len() > 0 {
        let ghost o0 = line_view(out);
        let t = string_of(text.as_slice());
        let ghost tv = t@;
        push_seg(&mut out, seg(t, Some(Color::DarkGrey)));
        proof {
            lemma_push(o0, (tv, Some(Color::DarkGrey), None));
        }
    }
    proof {
        if !in_key && text@.len() == 0 {
            assert(text_of(line_view(out)) + text@ =~= text_of(line_view(out)));
        }
    }
    out
}

// ---------------------------------------------------------------------------
// Rows

/// The control characters (general category Cc), as `char::is_control`.
pub open spec fn is_control(c: char) -> bool {
    (c as u32) < 0x20 || (0x7f <= (c as u32) && (c as u32) < 0xa0)
}

/// Control characters shown as spaces, one for one.
pub open spec fn sanitized(t: Seq<char>) -> Seq<char> {
    t.map_values(|c: char| if is_control(c) {
        ' '
    } else {
        c
    })
}

fn is_control_char(c: char) -> (r: bool)
    ensures
        r == is_control(c),
{
    let u = c as u32;
    u < 0x20 || (0x7f <= u && u < 0xa0)
}

/// A line as painted in an inner width of `iw`: cut to fit, centered, control
/// characters blanked.
pub open spec fn painted(t: Seq<char>, iw: nat) -> Seq<char> {
    let total: nat = if t.len() <= iw {
        t.len()
    } else {
        iw
    };
    let lpad: nat = ((iw - total) as nat / 2) as nat;
    repeat(' ', lpad) + sanitized(t.take(total as int)) + repeat(' ', (iw - total - lpad) as nat)
}

/// The characters of `s` with control characters blanked, at most `n`.
fn sanitize_prefix(s: &str, n: usize) -> (r: String)
    ensures
        r@ == sanitized(crate::layout::prefix(s@, n as nat)),
{
    let cs = chars_of(s);
    let k = if n < cs.len() {
        n
    } else {
        cs.len()
    };
    let mut v: Vec<char> = Vec::new();
    let mut i: usize = 0;
    while i < k
        invariant
            i <= k,
            k <= cs.len(),
            cs@ == s@,
            v@ == sanitized(cs@.take(i as int)),
        decreases k - i,
    {
        let c = cs[i];
        v.push(if is_control_char(c) {
            ' '
        } else {
            c
        });
        i = i + 1;
        assert(v@ =~= sanitized(cs@.take(i as int)));
    }
    assert(cs@.take(k as int) =~= crate::layout::prefix(s@, n as nat));
    string_of(v.as_slice())
}

/// A content line laid into the inner width: centered, cut to fit, every
/// control character blanked. Always exactly `iw` wide.
pub fn paint_line(line: &Line, iw: usize) -> (r: Line)
    ensures
        text_of(line_view(r)) == painted(text_of(line_view(*line)), iw as nat),
        width_of(line_view(r)) == iw,
{
    let ghost lv = line_view(*line);
    let lw = line_w(line);
    proof {
        lemma_width_text(lv);
    }
    let total = if lw < iw {
        lw
    } else {
        iw
    };
    let lpad = (iw - total) / 2;
    let rpad = iw - total - lpad;
    let mut out: Line = Vec::new();
    let ghost e = line_view(out);
    assert(e =~= Seq::<SegV>::empty());
    assert(text_of(e) =~= Seq::<char>::empty());
    push_seg(&mut out, seg(spaces(lpad), None));
    proof {
        lemma_push(e, (repeat(' ', lpad as nat), None, None));
    }
    let ghost start = text_of(line_view(out));
    let mut budget = total;
    let mut i: usize = 0;
    while i < line.len() && budget > 0
        invariant
            i <= line.len(),
            lv == line_view(*line),
            budget <= total,
            total <= text_of(lv).len(),
            start == repeat(' ', lpad as nat),
            text_of(line_view(out)) == start + sanitized(text_of(lv).take(total - budget)),
            text_of(lv.take(i as int)).len() >= total - budget,
            budget > 0 ==> text_of(lv.take(i as int)).len() == total - budget,
        decreases line.len() - i,
    {
        let ghost o0 = line_view(out);
        let t = sanitize_prefix(line[i].0.as_str(), budget);
        let n = char_count(t.as_str());
        let fg = line[i].1;
        let bg = line[i].2;
        let ghost tv = t@;
        push_seg(&mut out, (t, fg, bg));
        proof {
            lemma_push(o0, (tv, fg, bg));
            let sv = lv[i as int].0;
            assert(sv == line@[i as int].0@);
            assert(lv.take(i + 1) =~= lv.take(i as int).push(lv[i as int]));
            crate::layout::lemma_push(lv.take(i as int), lv[i as int]);
            assert(lv =~= lv.take(i + 1) + lv.skip(i + 1));
            crate::layout::lemma_concat(lv.take(i + 1), lv.skip(i + 1));
            let done = (total - budget) as int;
            let tk = text_of(lv.take(i as int));
            assert(tk.len() == done);
            // the whole text starts with what was read so far
            assert(text_of(lv).take(done + n) =~= tk + crate::layout::prefix(sv, budget as nat));
            assert(sanitized(text_of(lv).take(done + n)) =~= sanitized(text_of(lv).take(done)) + tv);
        }
        budget = budget - n;
        i = i + 1;
    }
    proof {
        if budget > 0 {
            assert(lv.take(line.len() as int) =~= lv);
        }
        assert(budget == 0);
    }
    let ghost o1 = line_view(out);
    push_seg(&mut out, seg(spaces(rpad), None));
    proof {
        lemma_push(o1, (repeat(' ', rpad as nat), None, None));
        assert(text_of(line_view(out)) =~= painted(text_of(lv), iw as nat));
        lemma_width_text(line_view(out));
    }
    out
}

/// The first hint from index `k` on that fits in `iw` columns.
pub open spec fn first_fit_from(fs: Seq<Seq<char>>, iw: nat, k: nat) -> Option<nat>
    decreases fs.len() - k,
{
    if k >= fs.len() {
        None
    } else if fs[k as int].len() <= iw {
        Some(k)
    } else {
        first_fit_from(fs, iw, k + 1)
    }
}

pub open spec fn opt_nat(o: Option<usize>) -> Option<nat> {
    match o {
        Some(k) => Some(k as nat),
        None => None,
    }
}

pub open spec fn str_views(fs: Seq<&str>) -> Seq<Seq<char>> {
    fs.map_values(|f: &str| f@)
}

/// The footer shown: the first (widest) candidate that fits.
pub open spec fn chosen_footer(fs: Seq<Seq<char>>, iw: nat) -> Option<Seq<char>> {
    match first_fit_from(fs, iw, 0) {
        Some(k) => Some(fs[k as int]),
        None => None,
    }
}

/// Inner row `r` of a screen `ih` rows tall: the footer hints on the last
/// row when one fits, the content centered vertically in the rows above
/// (cut at the bottom when too tall), blank rows around it.
pub open spec fn inner_text(contents: Seq<Seq<char>>, footer: Option<Seq<char>>, ih: nat, r: int) -> Seq<
    char,
> {
    let avail: nat = if footer is Some {
        (ih - 1) as nat
    } else {
        ih
    };
    let shown: nat = if contents.len() <= avail {
        contents.len()
    } else {
        avail
    };
    let top = (avail - shown) / 2;
    if footer is Some && r == ih - 1 {
        footer_text(footer.unwrap())
    } else if top <= r < top + shown {
        contents[r - top]
    } else {
        Seq::empty()
    }
}

pub open spec fn frame_row(t: Seq<char>, iw: nat) -> Seq<char> {
    seq!['│'] + painted(t, iw) + seq!['│']
}

pub open spec fn no_control(t: Seq<char>) -> bool {
    forall|k: int| 0 <= k < t.len() ==> !is_control(#[trigger] t[k])
}

pub proof fn lemma_painted_clean(t: Seq<char>, iw: nat)
    ensures
        no_control(frame_row(t, iw)),
        frame_row(t, iw).len() == iw + 2,
{
    let total: nat = if t.len() <= iw {
        t.len()
    } else {
        iw
    };
    let lpad: nat = ((iw - total) as nat / 2) as nat;
    let p = painted(t, iw);
    assert(p == repeat(' ', lpad) + sanitized(t.take(total as int)) + repeat(
        ' ',
        (iw - total - lpad) as nat,
    ));
    assert forall|k: int| 0 <= k < frame_row(t, iw).len() implies !is_control(
        #[trigger] frame_row(t, iw)[k],
    ) by {
        let f = frame_row(t, iw);
        if k == 0 || k == f.len() - 1 {
        } else {
            let j = k - 1;
            assert(f[k] == p[j]);
            if j < lpad {
            } else if j < lpad + total {
                assert(p[j] == sanitized(t.take(total as int))[j - lpad]);
            } else {
            }
        }
    }
}

fn border_row(a: char, b: char, iw: usize) -> (r: Line)
    ensures
        text_of(line_view(r)) == seq![a] + repeat('─', iw as nat) + seq![b],
{
    let mut v: Vec<char> = Vec::new();
    v.push(a);
    let mid = chars_of(crate::line::repeat_string('─', iw).as_str());
    crate::text::push_all(&mut v, mid.as_slice());
    v.push(b);
    let s = string_of(v.as_slice());
    let ghost sv = s@;
    let mut l: Line = Vec::new();
    let ghost e = line_view(l);
    assert(e =~= Seq::<SegV>::empty());
    assert(text_of(e) =~= Seq::<char>::empty());
    push_seg(&mut l, seg(s, Some(Color::DarkGrey)));
    proof {
        lemma_push(e, (sv, Some(Color::DarkGrey), None));
        assert(text_of(line_view(l)) =~= seq![a] + repeat('─', iw as nat) + seq![b]);
    }
    l
}

fn pick_footer(footers: &[&str], iw: usize) -> (r: Option<usize>)
    ensures
        opt_nat(r) == first_fit_from(str_views(footers@), iw as nat, 0),
        r matches Some(k) ==> k < footers.len(),
{
    let ghost fs = str_views(footers@);
    let mut k: usize = 0;
    while k < footers.len()
        invariant
            k <= footers.len(),
            fs == str_views(footers@),
            first_fit_from(fs, iw as nat, 0) == first_fit_from(fs, iw as nat, k as nat),
        decreases footers.len() - k,
    {
        assert(fs[k as int] == footers@[k as int]@);
        if char_count(footers[k]) <= iw {
            return Some(k);
        }
        k = k + 1;
    }
    None
}

/// The whole screen, `rows` rows of exactly `cols` characters: the border,
/// the content centered in it, the widest footer hint that fits on the last
/// inner row. A terminal too small for a frame gets none.
pub fn frame_rows(content: &[Line], footers: &[&str], cols: u16, rows: u16) -> (r: Vec<Line>)
    ensures
        cols < 4 || rows < 3 ==> r.len() == 0,
        cols >= 4 && rows >= 3 ==> {
            let iw = (cols - 2) as nat;
            let ih = (rows - 2) as nat;
            let contents = lines_view(content@).map_values(|l: Seq<SegV>| text_of(l));
            let footer = chosen_footer(str_views(footers@), iw);
            &&& r.len() == rows
            &&& text_of(lines_view(r@)[0]) == seq!['┌'] + repeat('─', iw) + seq!['┐']
            &&& text_of(lines_view(r@)[rows - 1]) == seq!['└'] + repeat('─', iw) + seq!['┘']
            &&& forall|i: int|
                1 <= i < rows - 1 ==> text_of(#[trigger] lines_view(r@)[i]) == frame_row(
                    inner_text(contents, footer, ih, i - 1),
                    iw,
                )
            &&& forall|i: int| 0 <= i < rows ==> width_of(#[trigger] lines_view(r@)[i]) == cols
            &&& forall|i: int| 0 <= i < rows ==> no_control(text_of(#[trigger] lines_view(r@)[i]))
        },
{
    if cols < 4 || rows < 3 {
        return Vec::new();
    }
    let iw: usize = (cols - 2) as usize;
    let ih: usize = (rows - 2) as usize;
    let ghost contents = lines_view(content@).map_values(|l: Seq<SegV>| text_of(l));
    let picked = pick_footer(footers, iw);
    let ghost footer = chosen_footer(str_views(footers@), iw as nat);
    let avail = match picked {
        Some(_) => ih - 1,
        None => ih,
    };
    let shown = if content.len() <= avail {
        content.len()
    } else {
        avail
    };
    let top = (avail - shown) / 2;
    let mut out: Vec<Line> = Vec::new();
    let first = border_row('┌', '┐', iw);
    proof {
        lemma_width_text(line_view(first));
        assert forall|k: int| 0 <= k < text_of(line_view(first)).len() implies !is_control(
            #[trigger] text_of(line_view(first))[k],
        ) by {
            if 0 < k < iw + 1 {
                assert(text_of(line_view(first))[k] == '─');
            }
        }
    }
    out.push(first);
    let mut r: usize = 0;
    while r < ih
        invariant
            r <= ih,
            out.len() == r + 1,
            iw == cols - 2,
            ih == rows - 2,
            cols >= 4,
            rows >= 3,
            contents == lines_view(content@).map_values(|l: Seq<SegV>| text_of(l)),
            footer == chosen_footer(str_views(footers@), iw as nat),
            opt_nat(picked) == first_fit_from(str_views(footers@), iw as nat, 0),
            picked matches Some(k) ==> k < footers.len(),
            avail as nat == if picked is Some {
                (ih - 1) as nat
            } else {
                ih as nat
            },
            shown == if content.len() <= avail {
                content.len()
            } else {
                avail
            },
            top == (avail - shown) / 2,
            text_of(lines_view(out@)[0]) == seq!['┌'] + repeat('─', iw as nat) + seq!['┐'],
            forall|i: int|
                1 <= i < r + 1 ==> text_of(#[trigger] lines_view(out@)[i]) == frame_row(
                    inner_text(contents, footer, ih as nat, i - 1),
                    iw as nat,
                ),
            forall|i: int| 0 <= i < r + 1 ==> width_of(#[trigger] lines_view(out@)[i]) == cols,
            forall|i: int| 0 <= i < r + 1 ==> no_control(text_of(#[trigger] lines_view(out@)[i])),
        decreases ih - r,
    {
        let is_footer = picked.is_some() && r == ih - 1;
        let line: Line = if is_footer {
            let k = picked.unwrap();
            footer_line(footers[k])
        } else if top <= r && r < top + shown {
            copy_line(&content[r - top])
        } else {
            Vec::new()
        };
        proof {
            let want = inner_text(contents, footer, ih as nat, r as int);
            if is_footer {
                assert(footer == Some(str_views(footers@)[picked.unwrap() as int]));
                assert(str_views(footers@)[picked.unwrap() as int] == footers@[picked.unwrap() as int]@);
            } else if top <= r && r < top + shown {
                assert(contents[r - top] == text_of(line_view(content@[r - top])));
            } else {
                assert(text_of(line_view(line)) =~= Seq::<char>::empty());
            }
            assert(text_of(line_view(line)) == want);
        }
        let inner = paint_line(&line, iw);
        let mut row: Line = Vec::new();
        let ghost e = line_view(row);
        assert(e =~= Seq::<SegV>::empty());
        assert(text_of(e) =~= Seq::<char>::empty());
        let mut bar: Vec<char> = Vec::new();
        bar.push('│');
        let b1 = string_of(bar.as_slice());
        push_seg(&mut row, seg(b1, Some(Color::DarkGrey)));
        let ghost a = line_view(row);
        crate::layout::extend_line(&mut row, &inner);
        let ghost b = line_view(row);
        let b2 = string_of(bar.as_slice());
        push_seg(&mut row, seg(b2, Some(Color::DarkGrey)));
        proof {
            lemma_push(e, (seq!['│'], Some(Color::DarkGrey), None));
            crate::layout::lemma_concat(a, line_view(inner));
            lemma_push(b, (seq!['│'], Some(Color::DarkGrey), None));
            assert(text_of(line_view(row)) =~= frame_row(text_of(line_view(line)), iw as nat));
            lemma_painted_clean(text_of(line_view(line)), iw as nat);
            lemma_width_text(line_view(row));
        }
        let ghost before = out@;
        out.push(row);
        proof {
            assert(out@ =~= before.push(row));
            assert forall|j: int| 0 <= j < r + 2 implies lines_view(out@)[j] == if j < r + 1 {
                lines_view(before)[j]
            } else {
                line_view(row)
            } by {}
        }
        r = r + 1;
    }
    let last = border_row('└', '┘', iw);
    proof {
        lemma_width_text(line_view(last));
        assert forall|k: int| 0 <= k < text_of(line_view(last)).len() implies !is_control(
            #[trigger] text_of(line_view(last))[k],
        ) by {
            if 0 < k < iw + 1 {
                assert(text_of(line_view(last))[k] == '─');
            }
        }
    }
    let ghost before = out@;
    out.push(last);
    proof {
        assert(out@ =~= before.push(last));
        assert forall|j: int| 0 <= j < out.len() implies lines_view(out@)[j] == if j < out.len() - 1 {
            lines_view(before)[j]
        } else {
            line_view(last)
        } by {}
    }
    out
}

} // verus!
