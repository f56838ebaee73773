//! Wall-clock time for the header, cached so the render loop does not ask
//! the system on every frame. Reading the clock is the program's job; this
//! keeps the reading, says when it is due again, and makes sense of it.

use vstd::prelude::*;
use crate::http::byte_len;
use crate::text::{chars_of, parse_max, parse_uint_max, string_of, trim, trim_chars};

verus! {

/// Seconds a reading stays good.
pub const CLOCK_TTL: u64 = 20;

pub struct Clock {
    /// `HH:MM`, or `--:--` when the time could not be read.
    pub text: String,
    pub hour: u8,
    /// When the reading was taken (seconds since the epoch).
    pub fetched: u64,
}

impl Clock {
    /// The first reading, taken at `now`: what `date +%H:%M` printed
    /// (`None` when it could not be run), read as `clock_reading` does.
    pub fn new(output: Option<String>, now: u64) -> (r: Clock)
        ensures
            (r.text@, r.hour) == clock_of(
                match output {
                    Some(o) => Some(o@),
                    None => None,
                },
            ),
            r.fetched == now,
    {
        let (text, hour) = clock_reading(output);
        Clock { text, hour, fetched: now }
    }

    /// The reading is older than `CLOCK_TTL` seconds.
    pub open spec fn is_stale(self, now: u64) -> bool {
        now > self.fetched + CLOCK_TTL
    }

    /// The reading is older than `CLOCK_TTL` seconds: the program should
    /// read the clock again before the next `get`.
    pub fn stale(&self, now: u64) -> (r: bool)
        ensures
            r == self.is_stale(now),
    {
        now > self.fetched && now - self.fetched > CLOCK_TTL
    }

    /// The time as shown and its hour at `now`. While the reading is fresh it
    /// is returned unchanged and `output` is not looked at; once stale,
    /// `output` (what `date +%H:%M` printed just now, `None` when it could
    /// not be run) is read, kept as taken at `now`, and returned.
    pub fn get(&mut self, now: u64, output: Option<String>) -> (r: (String, u8))
        ensures
            old(self).is_stale(now) ==> {
                let (t, h) = clock_of(
                    match output {
                        Some(o) => Some(o@),
                        None => None,
                    },
                );
                &&& r.0@ == t
                &&& r.1 == h
                &&& final(self).text@ == t
                &&& final(self).hour == h
                &&& final(self).fetched == now
            },
            !old(self).is_stale(now) ==> {
                &&& r.0@ == old(self).text@
                &&& r.1 == old(self).hour
                &&& *final(self) == *old(self)
            },
    {
        if self.stale(now) {
            let (text, hour) = clock_reading(output);
            self.text = text;
            self.hour = hour;
            self.fetched = now;
        }
        (self.text.as_str().to_owned(), self.hour)
    }
}

/// The hour in the first two characters of `HH:MM`; noon when they are not
/// a number.
pub open spec fn hour_of(s: Seq<char>) -> u8 {
    if s.len() >= 2 && (s[0] as u32) < 128 && (s[1] as u32) < 128 {
        match parse_max(s.take(2), 255) {
            Some(h) => h as u8,
            None => 12,
        }
    } else {
        12
    }
}

/// What the `date +%H:%M` output says: the trimmed text and its hour, or
/// `--:--` at noon when there is no output or it is too short.
pub open spec fn clock_of(out: Option<Seq<char>>) -> (Seq<char>, u8) {
    match out {
        None => ("--:--"@, 12),
        Some(o) => {
            let s = trim(o);
            if byte_len(s) >= 5 {
                (s, hour_of(s))
            } else {
                ("--:--"@, 12)
            }
        },
    }
}

pub fn clock_reading(output: Option<String>) -> (r: (String, u8))
    ensures
        (r.0@, r.1) == clock_of(
            match output {
                Some(o) => Some(o@),
                None => None,
            },
        ),
{
    let Some(o) = output else { return ("--:--".to_owned(), 12) };
    let oc = chars_of(o.as_str());
    let tc = trim_chars(oc.as_slice());
    let s = string_of(tc.as_slice());
    if s.as_str().len() < 5 {
        return ("--:--".to_owned(), 12);
    }
    let hour: u8 = if tc.len() >= 2 && (tc[0] as u32) < 128 && (tc[1] as u32) < 128 {
        let two = crate::text::slice_vec(tc.as_slice(), 0, 2);
        assert(two@ =~= tc@.take(2));
        match parse_uint_max(two.as_slice(), 255) {
            Some(h) => h as u8,
            None => 12,
        }
    } else {
        12
    };
    (s, hour)
}

} // verus!

verus! {

/// What `date +%H:%M` prints for a time of day — two digits, a colon, two
/// digits and a line break — reads back as those five characters and the
/// hour they start with.
pub proof fn law_clock_of_time(h1: char, h2: char, m1: char, m2: char)
    requires
        crate::text::is_digit(h1),
        crate::text::is_digit(h2),
        crate::text::is_digit(m1),
        crate::text::is_digit(m2),
        crate::text::digit_val(h1) * 10 + crate::text::digit_val(h2) < 24,
    ensures
        clock_of(Some(seq![h1, h2, ':', m1, m2, '\n'])) == (
            seq![h1, h2, ':', m1, m2],
            (crate::text::digit_val(h1) * 10 + crate::text::digit_val(h2)) as u8,
        ),
        clock_of(Some(seq![h1, h2, ':', m1, m2, '\n'])).0.len() == 5,
        clock_of(Some(seq![h1, h2, ':', m1, m2, '\n'])).1 < 24,
{
    let o = seq![h1, h2, ':', m1, m2, '\n'];
    let s = seq![h1, h2, ':', m1, m2];
    assert(!crate::text::is_ws(h1));
    assert(!crate::text::is_ws(m2));
    assert(crate::text::trim_start(o) == o);
    assert(o.drop_last() =~= s);
    assert(crate::text::is_ws(o.last()));
    assert(crate::text::trim_end(o) == crate::text::trim_end(s));
    assert(crate::text::trim_end(s) == s);
    assert(trim(o) == s);
    reveal_with_fuel(vstd::utf8::encode_utf8, 6);
    assert(s.drop_first() =~= seq![h2, ':', m1, m2]);
    assert(s.drop_first().drop_first() =~= seq![':', m1, m2]);
    assert(s.drop_first().drop_first().drop_first() =~= seq![m1, m2]);
    assert(s.drop_first().drop_first().drop_first().drop_first() =~= seq![m2]);
    assert(s.drop_first().drop_first().drop_first().drop_first().drop_first() =~= Seq::<char>::empty());
    assert(vstd::utf8::encode_utf8(s).len() == 5);
    assert(byte_len(s) == 5);
    let two = s.take(2);
    assert(two =~= seq![h1, h2]);
    assert(two.drop_last() =~= seq![h1]);
    assert(seq![h1].drop_last() =~= Seq::<char>::empty());
    assert(crate::text::all_digits(two));
    assert(crate::text::digits_val(Seq::<char>::empty()) == 0);
    assert(crate::text::digit_val(h1) >= 0 && crate::text::digit_val(h2) >= 0);
    assert(seq![h1].last() == h1);
    assert(crate::text::digits_val(seq![h1]) == crate::text::digit_val(h1));
    assert(crate::text::digits_val(two) == crate::text::digit_val(h1) * 10 + crate::text::digit_val(h2));
    assert(crate::text::parse_uint(two) == Some(crate::text::digits_val(two)));
    assert(hour_of(s) == (crate::text::digit_val(h1) * 10 + crate::text::digit_val(h2)) as u8);
}

} // verus!
