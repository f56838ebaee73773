//! The big LCD clock digits, tty-clock style: give it "24:59" and it hands
//! back 5 rows of block art.

use vstd::prelude::*;
use crate::text::{chars_of, push_str, string_of};

verus! {

/// 3×5 pixel bitmaps of the digits; each row is 3 bits, the most
/// significant one on the left.
pub const DIGIT_BITS: [[u8; 5]; 10] = [
    [0b111, 0b101, 0b101, 0b101, 0b111],
    [0b010, 0b110, 0b010, 0b010, 0b111],
    [0b111, 0b001, 0b111, 0b100, 0b111],
    [0b111, 0b001, 0b111, 0b001, 0b111],
    [0b101, 0b101, 0b111, 0b001, 0b001],
    [0b111, 0b100, 0b111, 0b001, 0b111],
    [0b111, 0b100, 0b111, 0b101, 0b111],
    [0b111, 0b001, 0b001, 0b001, 0b001],
    [0b111, 0b101, 0b111, 0b101, 0b111],
    [0b111, 0b101, 0b111, 0b001, 0b111],
];

/// One pixel, drawn double-width so digits read square.
pub open spec fn pixel(bits: u8, c: u8) -> Seq<char> {
    if (bits >> c) & 1 == 1 {
        "██"@
    } else {
        "  "@
    }
}

/// Row `r` of one character's art: a digit is three pixels and a space, a
/// colon a block on rows 1 and 3, anything else nothing.
pub open spec fn glyph_row(ch: char, r: int) -> Seq<char> {
    if '0' <= ch && ch <= '9' {
        let bits = DIGIT_BITS[ch as int - '0' as int][r];
        pixel(bits, 2) + pixel(bits, 1) + pixel(bits, 0) + seq![' ']
    } else if ch == ':' {
        if r == 1 || r == 3 {
            "██ "@
        } else {
            "   "@
        }
    } else {
        Seq::empty()
    }
}

/// Row `r` of the whole text's art.
pub open spec fn time_row(text: Seq<char>, r: int) -> Seq<char>
    decreases text.len(),
{
    if text.len() == 0 {
        Seq::empty()
    } else {
        time_row(text.drop_last(), r) + glyph_row(text.last(), r)
    }
}

fn push_glyph_row(v: &mut Vec<char>, ch: char, r: usize)
    requires
        r < 5,
    ensures
        final(v)@ == old(v)@ + glyph_row(ch, r as int),
{
    if '0' <= ch && ch <= '9' {
        let d = ((ch as u32) - ('0' as u32)) as usize;
        let bits = DIGIT_BITS[d][r];
        let mut c: u8 = 3;
        let ghost start = v@;
        while c > 0
            invariant
                c <= 3,
                v@ == start + if c == 3 {
                    Seq::<char>::empty()
                } else if c == 2 {
                    pixel(bits, 2)
                } else if c == 1 {
                    pixel(bits, 2) + pixel(bits, 1)
                } else {
                    pixel(bits, 2) + pixel(bits, 1) + pixel(bits, 0)
                },
            decreases c,
        {
            c = c - 1;
            if (bits >> c) & 1 == 1 {
                push_str(v, "██");
            } else {
                push_str(v, "  ");
            }
            assert(v@ =~= start + if c == 2 {
                pixel(bits, 2)
            } else if c == 1 {
                pixel(bits, 2) + pixel(bits, 1)
            } else {
                pixel(bits, 2) + pixel(bits, 1) + pixel(bits, 0)
            });
        }
        v.push(' ');
        assert(v@ =~= old(v)@ + glyph_row(ch, r as int));
    } else if ch == ':' {
        if r == 1 || r == 3 {
            push_str(v, "██ ");
        } else {
            push_str(v, "   ");
        }
    } else {
        assert(v@ =~= old(v)@ + glyph_row(ch, r as int));
    }
}

/// The text's art, five rows; characters other than digits and `:` are
/// skipped.
pub fn big_time(text: &str) -> (rows: Vec<String>)
    ensures
        rows.len() == 5,
        forall|r: int| 0 <= r < 5 ==> (#[trigger] rows@[r])@ == time_row(text@, r),
{
    let tc = chars_of(text);
    let mut rows: Vec<String> = Vec::new();
    let mut r: usize = 0;
    while r < 5
        invariant
            r <= 5,
            rows.len() == r,
            tc@ == text@,
            forall|k: int| 0 <= k < r ==> (#[trigger] rows@[k])@ == time_row(text@, k),
        decreases 5 - r,
    {
        let mut v: Vec<char> = Vec::new();
        let mut i: usize = 0;
        while i < tc.len()
            invariant
                i <= tc.len(),
                r < 5,
                v@ == time_row(tc@.take(i as int), r as int),
            decreases tc.len() - i,
        {
            push_glyph_row(&mut v, tc[i], r);
            assert(tc@.take(i + 1).drop_last() =~= tc@.take(i as int));
            i = i + 1;
        }
        assert(tc@.take(tc.len() as int) =~= tc@);
        rows.push(string_of(v.as_slice()));
        r = r + 1;
    }
    rows
}

/// Width of one character's art: 7 for a digit, 3 for a colon, 0 else.
pub open spec fn glyph_width(ch: char) -> nat {
    if '0' <= ch && ch <= '9' {
        7
    } else if ch == ':' {
        3
    } else {
        0
    }
}

pub open spec fn text_width(text: Seq<char>) -> nat
    decreases text.len(),
{
    if text.len() == 0 {
        0
    } else {
        text_width(text.drop_last()) + glyph_width(text.last())
    }
}

proof fn lemma_glyph_row_width(ch: char, r: int)
    requires
        0 <= r < 5,
    ensures
        glyph_row(ch, r).len() == glyph_width(ch),
{
    reveal_strlit("██");
    reveal_strlit("  ");
    reveal_strlit("██ ");
    reveal_strlit("   ");
    if '0' <= ch && ch <= '9' {
        let bits = DIGIT_BITS[ch as int - '0' as int][r];
        assert(pixel(bits, 2).len() == 2);
        assert(pixel(bits, 1).len() == 2);
        assert(pixel(bits, 0).len() == 2);
    }
}

/// The clock never shears: all five rows are exactly as wide as the text's
/// digits and colons take (7 columns a digit, 3 a colon).
pub proof fn law_big_time_rows_uniform(text: Seq<char>, r: int)
    requires
        0 <= r < 5,
    ensures
        time_row(text, r).len() == text_width(text),
    decreases text.len(),
{
    if text.len() > 0 {
        law_big_time_rows_uniform(text.drop_last(), r);
        lemma_glyph_row_width(text.last(), r);
    }
}

} // verus!
