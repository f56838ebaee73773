//! Character-level helpers shared by the parsers and renderers. Text is
//! handled as sequences of `char`, which is what every contract speaks of:
//! splitting, line breaking, trimming, and decimal numbers.

use vstd::prelude::*;

verus! {

// ---------------------------------------------------------------------------
// Conversions between `str`/`String` and `Vec<char>`

/// The characters of a string slice, in order.
pub fn chars_of(s: &str) -> (v: Vec<char>)
    ensures
        v@ == s@,
{
    let mut v: Vec<char> = Vec::new();
    for c in it: s.chars()
        invariant
            v@ == it.seq().take(it.index() as int),
            it.seq() == s@,
    {
        v.push(c);
    }
    v
}

/// std `String::push`: appends one character.
#[verifier::external_body]
pub fn push_char(s: &mut String, c: char)
    ensures
        final(s)@ == old(s)@.push(c),
{
    s.push(c);
}

/// A `String` holding exactly the given characters.
pub fn string_of(v: &[char]) -> (s: String)
    ensures
        s@ == v@,
{
    let mut s = String::new();
    let mut i: usize = 0;
    while i < v.len()
        invariant
            i <= v.len(),
            s@ == v@.take(i as int),
        decreases v.len() - i,
    {
        push_char(&mut s, v[i]);
        i = i + 1;
        assert(v@.take(i as int) == v@.take((i - 1) as int).push(v@[i - 1]));
    }
    assert(v@.take(v.len() as int) == v@);
    s
}

/// Appends every character of `w` to `v`.
pub fn push_all(v: &mut Vec<char>, w: &[char])
    ensures
        final(v)@ == old(v)@ + w@,
{
    let mut i: usize = 0;
    while i < w.len()
        invariant
            i <= w.len(),
            v@ == old(v)@ + w@.take(i as int),
        decreases w.len() - i,
    {
        v.push(w[i]);
        i = i + 1;
        assert(w@.take(i as int) == w@.take((i - 1) as int).push(w@[i - 1]));
    }
    assert(w@.take(w.len() as int) == w@);
}

/// Appends every character of a string slice to `v`.
pub fn push_str(v: &mut Vec<char>, s: &str)
    ensures
        final(v)@ == old(v)@ + s@,
{
    let w = chars_of(s);
    push_all(v, w.as_slice());
}

/// Whether two character sequences are equal.
pub fn chars_eq(a: &[char], b: &[char]) -> (r: bool)
    ensures
        r == (a@ == b@),
{
    if a.len() != b.len() {
        return false;
    }
    let mut i: usize = 0;
    while i < a.len()
        invariant
            a.len() == b.len(),
            i <= a.len(),
            forall|k: int| 0 <= k < i ==> a@[k] == b@[k],
        decreases a.len() - i,
    {
        if a[i] != b[i] {
            return false;
        }
        i = i + 1;
    }
    assert(a@ =~= b@);
    true
}

/// Whether the characters spell the given string slice.
pub fn chars_eq_str(a: &[char], s: &str) -> (r: bool)
    ensures
        r == (a@ == s@),
{
    let b = chars_of(s);
    chars_eq(a, b.as_slice())
}

/// A copy of `v[lo..hi]`.
pub fn slice_vec(v: &[char], lo: usize, hi: usize) -> (r: Vec<char>)
    requires
        lo <= hi <= v.len(),
    ensures
        r@ == v@.subrange(lo as int, hi as int),
{
    let mut r: Vec<char> = Vec::new();
    let mut i = lo;
    while i < hi
        invariant
            lo <= i <= hi <= v.len(),
            r@ == v@.subrange(lo as int, i as int),
        decreases hi - i,
    {
        r.push(v[i]);
        i = i + 1;
        assert(v@.subrange(lo as int, i as int) == v@.subrange(lo as int, (i - 1) as int).push(
            v@[i - 1],
        ));
    }
    r
}

// ---------------------------------------------------------------------------
// Whitespace and trimming

/// The Unicode `White_Space` property, which is what `char::is_whitespace`
/// and `str::trim` test.
pub open spec fn is_ws(c: char) -> bool {
    ||| ('\u{9}' <= c && c <= '\u{d}')
    ||| c == ' '
    ||| c == '\u{85}'
    ||| c == '\u{a0}'
    ||| c == '\u{1680}'
    ||| ('\u{2000}' <= c && c <= '\u{200a}')
    ||| c == '\u{2028}'
    ||| c == '\u{2029}'
    ||| c == '\u{202f}'
    ||| c == '\u{205f}'
    ||| c == '\u{3000}'
}

pub fn is_whitespace(c: char) -> (r: bool)
    ensures
        r == is_ws(c),
{
    ('\u{9}' <= c && c <= '\u{d}') || c == ' ' || c == '\u{85}' || c == '\u{a0}' || c
        == '\u{1680}' || ('\u{2000}' <= c && c <= '\u{200a}') || c == '\u{2028}' || c
        == '\u{2029}' || c == '\u{202f}' || c == '\u{205f}' || c == '\u{3000}'
}

/// Leading whitespace removed.
pub open spec fn trim_start(s: Seq<char>) -> Seq<char>
    decreases s.len(),
{
    if s.len() > 0 && is_ws(s[0]) {
        trim_start(s.drop_first())
    } else {
        s
    }
}

/// Trailing whitespace removed.
pub open spec fn trim_end(s: Seq<char>) -> Seq<char>
    decreases s.len(),
{
    if s.len() > 0 && is_ws(s.last()) {
        trim_end(s.drop_last())
    } else {
        s
    }
}

/// Whitespace removed from both ends, as `str::trim` does.
pub open spec fn trim(s: Seq<char>) -> Seq<char> {
    trim_end(trim_start(s))
}

proof fn lemma_trim_start_skip(s: Seq<char>, i: int)
    requires
        0 <= i <= s.len(),
        forall|k: int| 0 <= k < i ==> is_ws(s[k]),
        i < s.len() ==> !is_ws(s[i]),
    ensures
        trim_start(s) == s.skip(i),
    decreases i,
{
    if i > 0 {
        lemma_trim_start_skip(s.drop_first(), i - 1);
        assert(s.drop_first().skip(i - 1) =~= s.skip(i));
    } else {
        assert(s.skip(0) =~= s);
    }
}

proof fn lemma_trim_end_take(s: Seq<char>, j: int)
    requires
        0 <= j <= s.len(),
        forall|k: int| j <= k < s.len() ==> is_ws(s[k]),
        j > 0 ==> !is_ws(s[j - 1]),
    ensures
        trim_end(s) == s.take(j),
    decreases s.len() - j,
{
    if j < s.len() {
        lemma_trim_end_take(s.drop_last(), j);
        assert(s.drop_last().take(j) =~= s.take(j));
    } else {
        assert(s.take(j) =~= s);
    }
}

/// `s` with surrounding whitespace removed.
pub fn trim_chars(s: &[char]) -> (r: Vec<char>)
    ensures
        r@ == trim(s@),
{
    let mut i: usize = 0;
    while i < s.len() && is_whitespace(s[i])
        invariant
            i <= s.len(),
            forall|k: int| 0 <= k < i ==> is_ws(s@[k]),
        decreases s.len() - i,
    {
        i = i + 1;
    }
    proof {
        lemma_trim_start_skip(s@, i as int);
    }
    let mut j: usize = s.len();
    while j > i && is_whitespace(s[j - 1])
        invariant
            i <= j <= s.len(),
            forall|k: int| j <= k < s.len() ==> is_ws(s@[k]),
        decreases j,
    {
        j = j - 1;
    }
    let ghost t = s@.skip(i as int);
    proof {
        assert forall|k: int| (j - i) <= k < t.len() implies is_ws(t[k]) by {
            assert(t[k] == s@[k + i]);
        }
        if j > i {
            assert(t[(j - i) - 1] == s@[j - 1]);
        }
        lemma_trim_end_take(t, (j - i) as int);
        assert(t.take((j - i) as int) =~= s@.subrange(i as int, j as int));
    }
    slice_vec(s, i, j)
}

/// `s` with leading whitespace removed.
pub fn trim_start_chars(s: &[char]) -> (r: Vec<char>)
    ensures
        r@ == trim_start(s@),
{
    let mut i: usize = 0;
    while i < s.len() && is_whitespace(s[i])
        invariant
            i <= s.len(),
            forall|k: int| 0 <= k < i ==> is_ws(s@[k]),
        decreases s.len() - i,
    {
        i = i + 1;
    }
    proof {
        lemma_trim_start_skip(s@, i as int);
    }
    let r = slice_vec(s, i, s.len());
    assert(r@ =~= s@.skip(i as int));
    r
}

/// `s` with trailing whitespace removed.
pub fn trim_end_chars(s: &[char]) -> (r: Vec<char>)
    ensures
        r@ == trim_end(s@),
{
    let mut j: usize = s.len();
    while j > 0 && is_whitespace(s[j - 1])
        invariant
            j <= s.len(),
            forall|k: int| j <= k < s.len() ==> is_ws(s@[k]),
        decreases j,
    {
        j = j - 1;
    }
    proof {
        lemma_trim_end_take(s@, j as int);
    }
    let r = slice_vec(s, 0, j);
    assert(r@ =~= s@.take(j as int));
    r
}

// ---------------------------------------------------------------------------
// Splitting

/// `s` cut at every `sep`: always at least one piece, separators dropped.
pub open spec fn split_on(s: Seq<char>, sep: char) -> Seq<Seq<char>>
    decreases s.len(),
{
    if s.len() == 0 {
        seq![Seq::<char>::empty()]
    } else {
        let p = split_on(s.drop_last(), sep);
        if s.last() == sep {
            p.push(Seq::<char>::empty())
        } else {
            p.update(p.len() - 1, p.last().push(s.last()))
        }
    }
}

pub proof fn lemma_split_on_nonempty(s: Seq<char>, sep: char)
    ensures
        split_on(s, sep).len() >= 1,
    decreases s.len(),
{
    if s.len() > 0 {
        lemma_split_on_nonempty(s.drop_last(), sep);
    }
}

/// The character sequences held by a vector of character vectors.
pub open spec fn views(v: Seq<Vec<char>>) -> Seq<Seq<char>> {
    v.map_values(|x: Vec<char>| x@)
}

/// A trailing carriage return removed.
pub open spec fn strip_cr(p: Seq<char>) -> Seq<char> {
    if p.len() > 0 && p.last() == '\r' {
        p.drop_last()
    } else {
        p
    }
}

/// The lines of `s` as `str::lines` yields them: cut at `\n`, a `\r`
/// right before the `\n` dropped, and a final line ending optional.
pub open spec fn lines(s: Seq<char>) -> Seq<Seq<char>> {
    let parts = split_on(s, '\n');
    let body = parts.drop_last().map_values(|p: Seq<char>| strip_cr(p));
    if parts.last().len() == 0 {
        body
    } else {
        body.push(parts.last())
    }
}

/// Splits `s` at every `sep`.
pub fn split_chars(s: &[char], sep: char) -> (r: Vec<Vec<char>>)
    ensures
        views(r@) == split_on(s@, sep),
{
    let mut done: Vec<Vec<char>> = Vec::new();
    let mut cur: Vec<char> = Vec::new();
    let mut i: usize = 0;
    assert(views(done@).push(cur@) =~= split_on(s@.take(0), sep));
    while i < s.len()
        invariant
            i <= s.len(),
            views(done@).push(cur@) == split_on(s@.take(i as int), sep),
        decreases s.len() - i,
    {
        let ghost prev = s@.take(i as int);
        let ghost before = views(done@);
        let c = s[i];
        assert(s@.take(i + 1).drop_last() =~= prev);
        assert(s@.take(i + 1).last() == c);
        proof {
            lemma_split_on_nonempty(prev, sep);
        }
        if c == sep {
            let finished = cur;
            done.push(finished);
            cur = Vec::new();
            assert(views(done@) =~= before.push(finished@));
            assert(views(done@).push(cur@) =~= split_on(prev, sep).push(Seq::<char>::empty()));
        } else {
            cur.push(c);
            assert(views(done@).push(cur@) =~= split_on(prev, sep).update(
                split_on(prev, sep).len() - 1,
                split_on(prev, sep).last().push(c),
            ));
        }
        i = i + 1;
    }
    assert(s@.take(s.len() as int) =~= s@);
    let ghost before = views(done@);
    done.push(cur);
    assert(views(done@) =~= before.push(cur@));
    done
}

/// The lines of `s`, as `str::lines` yields them.
pub fn lines_of(s: &[char]) -> (r: Vec<Vec<char>>)
    ensures
        views(r@) == lines(s@),
{
    let parts = split_chars(s, '\n');
    proof {
        lemma_split_on_nonempty(s@, '\n');
    }
    let n = parts.len();
    let mut out: Vec<Vec<char>> = Vec::new();
    let mut i: usize = 0;
    let ghost pv = views(parts@);
    assert(views(out@) =~= pv.take(0).map_values(|p: Seq<char>| strip_cr(p)));
    while i + 1 < n
        invariant
            n == parts.len(),
            n >= 1,
            i + 1 <= n,
            pv == views(parts@),
            pv.len() == n,
            views(out@) == pv.take(i as int).map_values(|p: Seq<char>| strip_cr(p)),
        decreases n - i,
    {
        let p = &parts[i];
        let q = if p.len() > 0 && p[p.len() - 1] == '\r' {
            slice_vec(p.as_slice(), 0, p.len() - 1)
        } else {
            slice_vec(p.as_slice(), 0, p.len())
        };
        assert(pv[i as int] == p@);
        assert(q@ == strip_cr(p@)) by {
            if p@.len() > 0 && p@.last() == '\r' {
                assert(q@ =~= p@.drop_last());
            } else {
                assert(q@ =~= p@);
            }
        }
        let ghost before = views(out@);
        out.push(q);
        i = i + 1;
        assert(views(out@) =~= before.push(q@));
        assert(pv.take(i as int).map_values(|p: Seq<char>| strip_cr(p)) =~= pv.take(
            (i - 1) as int,
        ).map_values(|p: Seq<char>| strip_cr(p)).push(strip_cr(pv[i - 1])));
    }
    assert(pv.take((n - 1) as int) =~= pv.drop_last());
    let last = &parts[n - 1];
    assert(pv.last() == last@);
    if last.len() > 0 {
        let ghost before = views(out@);
        let l = slice_vec(last.as_slice(), 0, last.len());
        assert(l@ =~= last@);
        out.push(l);
        assert(views(out@) =~= before.push(l@));
    }
    out
}

/// Index of the first `c` in `s`, if any.
pub open spec fn find(s: Seq<char>, c: char) -> Option<int>
    decreases s.len(),
{
    if s.len() == 0 {
        None
    } else if s[0] == c {
        Some(0)
    } else {
        match find(s.drop_first(), c) {
            Some(i) => Some(i + 1),
            None => None,
        }
    }
}

pub proof fn lemma_find_none(s: Seq<char>, c: char)
    ensures
        find(s, c) is None <==> !s.contains(c),
    decreases s.len(),
{
    if s.len() > 0 {
        lemma_find_none(s.drop_first(), c);
        if s[0] != c {
            assert(s.contains(c) ==> s.drop_first().contains(c)) by {
                if s.contains(c) {
                    let k = choose|k: int| 0 <= k < s.len() && s[k] == c;
                    assert(s.drop_first()[k - 1] == c);
                }
            }
            assert(s.drop_first().contains(c) ==> s.contains(c)) by {
                if s.drop_first().contains(c) {
                    let k = choose|k: int| 0 <= k < s.len() - 1 && s.drop_first()[k] == c;
                    assert(s[k + 1] == c);
                }
            }
        } else {
            assert(s[0] == c);
        }
    }
}

pub proof fn lemma_find_some(s: Seq<char>, c: char, i: int)
    requires
        0 <= i < s.len(),
        s[i] == c,
        forall|k: int| 0 <= k < i ==> s[k] != c,
    ensures
        find(s, c) == Some(i),
    decreases i,
{
    if i > 0 {
        lemma_find_some(s.drop_first(), c, i - 1);
    }
}

pub proof fn lemma_find_bounds(s: Seq<char>, c: char)
    ensures
        find(s, c) matches Some(i) ==> 0 <= i < s.len() && s[i] == c && forall|k: int|
            0 <= k < i ==> s[k] != c,
    decreases s.len(),
{
    if s.len() > 0 && s[0] != c {
        lemma_find_bounds(s.drop_first(), c);
        if let Some(i) = find(s, c) {
            assert forall|k: int| 0 <= k < i implies s[k] != c by {
                if k > 0 {
                    assert(s[k] == s.drop_first()[k - 1]);
                }
            }
        }
    }
}

/// `str::split_once` on one character: the text before and after the first
/// `c`, if there is one.
pub open spec fn split_once(s: Seq<char>, c: char) -> Option<(Seq<char>, Seq<char>)> {
    match find(s, c) {
        Some(i) => Some((s.take(i), s.skip(i + 1))),
        None => None,
    }
}

/// Index of the first `c` in `s`.
pub fn find_char(s: &[char], c: char) -> (r: Option<usize>)
    ensures
        r matches Some(i) ==> find(s@, c) == Some(i as int),
        r is None ==> find(s@, c) is None,
{
    let mut i: usize = 0;
    while i < s.len()
        invariant
            i <= s.len(),
            forall|k: int| 0 <= k < i ==> s@[k] != c,
        decreases s.len() - i,
    {
        if s[i] == c {
            proof {
                lemma_find_some(s@, c, i as int);
            }
            return Some(i);
        }
        i = i + 1;
    }
    proof {
        lemma_find_none(s@, c);
    }
    None
}

/// `split_once` on one character.
pub fn split_once_chars(s: &[char], c: char) -> (r: Option<(Vec<char>, Vec<char>)>)
    ensures
        match r {
            Some((a, b)) => split_once(s@, c) == Some((a@, b@)),
            None => split_once(s@, c) is None,
        },
{
    match find_char(s, c) {
        Some(i) => {
            proof {
                lemma_find_bounds(s@, c);
            }
            assert(i < s.len());
            let a = slice_vec(s, 0, i);
            let b = slice_vec(s, i + 1, s.len());
            assert(a@ =~= s@.take(i as int));
            assert(b@ =~= s@.skip(i + 1));
            Some((a, b))
        },
        None => None,
    }
}

// ---------------------------------------------------------------------------
// Decimal numbers

pub open spec fn is_digit(c: char) -> bool {
    '0' <= c && c <= '9'
}

pub open spec fn digit_val(c: char) -> int {
    c as int - '0' as int
}

pub open spec fn all_digits(s: Seq<char>) -> bool {
    forall|i: int| 0 <= i < s.len() ==> is_digit(#[trigger] s[i])
}

/// The value of a string of decimal digits.
pub open spec fn digits_val(s: Seq<char>) -> nat
    decreases s.len(),
{
    if s.len() == 0 {
        0
    } else {
        (digits_val(s.drop_last()) * 10 + digit_val(s.last())) as nat
    }
}

/// What `str::parse` gives for an unsigned integer, before the range check:
/// an optional `+`, then one or more decimal digits.
pub open spec fn parse_uint(s: Seq<char>) -> Option<nat> {
    let d = if s.len() > 0 && s[0] == '+' {
        s.drop_first()
    } else {
        s
    };
    if d.len() > 0 && all_digits(d) {
        Some(digits_val(d))
    } else {
        None
    }
}

/// `str::parse` into an unsigned type whose largest value is `max`.
pub open spec fn parse_max(s: Seq<char>, max: nat) -> Option<nat> {
    match parse_uint(s) {
        Some(v) => if v <= max {
            Some(v)
        } else {
            None
        },
        None => None,
    }
}

proof fn lemma_digits_val_grows(s: Seq<char>, i: int)
    requires
        0 <= i <= s.len(),
        all_digits(s),
    ensures
        digits_val(s.take(i)) <= digits_val(s),
    decreases s.len() - i,
{
    if i < s.len() {
        assert(s.drop_last().take(i) =~= s.take(i));
        assert forall|k: int| 0 <= k < s.drop_last().len() implies is_digit(
            #[trigger] s.drop_last()[k],
        ) by {
            assert(s.drop_last()[k] == s[k]);
        }
        lemma_digits_val_grows(s.drop_last(), i);
        assert(is_digit(s[s.len() - 1]));
    } else {
        assert(s.take(i) =~= s);
    }
}

/// Parses an unsigned decimal of at most `max`, as `str::parse` does.
pub fn parse_uint_max(s: &[char], max: u64) -> (r: Option<u64>)
    ensures
        match r {
            Some(v) => parse_max(s@, max as nat) == Some(v as nat),
            None => parse_max(s@, max as nat) is None,
        },
{
    let start: usize = if s.len() > 0 && s[0] == '+' {
        1
    } else {
        0
    };
    let ghost d = if s@.len() > 0 && s@[0] == '+' {
        s@.drop_first()
    } else {
        s@
    };
    assert(d =~= s@.skip(start as int));
    if start >= s.len() {
        return None;
    }
    let mut acc: u64 = 0;
    let mut i = start;
    while i < s.len()
        invariant
            start <= i <= s.len(),
            d =~= s@.skip(start as int),
            d == (if s@.len() > 0 && s@[0] == '+' {
                s@.drop_first()
            } else {
                s@
            }),
            forall|k: int| start <= k < i ==> is_digit(#[trigger] s@[k]),
            acc as nat == digits_val(s@.subrange(start as int, i as int)),
            acc <= max,
        decreases s.len() - i,
    {
        let c = s[i];
        if !('0' <= c && c <= '9') {
            assert(d[i - start] == c);
            assert(!is_digit(d[i - start]));
            return None;
        }
        let dv = (c as u32 - '0' as u32) as u64;
        assert(s@.subrange(start as int, i + 1).drop_last() =~= s@.subrange(
            start as int,
            i as int,
        ));
        let next = match acc.checked_mul(10) {
            Some(m) => m.checked_add(dv),
            None => None,
        };
        match next {
            Some(n) if n <= max => {
                acc = n;
                i = i + 1;
            },
            _ => {
                // the rest can only grow the value
                proof {
                    let full = s@.subrange(start as int, s.len() as int);
                    assert(full =~= d);
                    let pre = s@.subrange(start as int, i + 1);
                    assert(pre.last() == c);
                    assert(digit_val(c) == dv);
                    assert(digits_val(pre) == acc * 10 + dv);
                    assert(digits_val(pre) > max);
                    if all_digits(full) {
                        assert(full.take(i + 1 - start) =~= pre);
                        lemma_digits_val_grows(full, i + 1 - start);
                    }
                }
                return None;
            },
        }
    }
    assert(s@.subrange(start as int, s.len() as int) =~= d);
    assert(all_digits(d)) by {
        assert forall|k: int| 0 <= k < d.len() implies is_digit(#[trigger] d[k]) by {
            assert(d[k] == s@[k + start]);
        }
    }
    Some(acc)
}

/// The decimal digit for `n < 10`.
pub open spec fn digit_char(n: nat) -> char {
    if n == 0 {
        '0'
    } else if n == 1 {
        '1'
    } else if n == 2 {
        '2'
    } else if n == 3 {
        '3'
    } else if n == 4 {
        '4'
    } else if n == 5 {
        '5'
    } else if n == 6 {
        '6'
    } else if n == 7 {
        '7'
    } else if n == 8 {
        '8'
    } else {
        '9'
    }
}

/// The decimal rendering of `n`, without leading zeros.
pub open spec fn dec(n: nat) -> Seq<char>
    decreases n,
{
    if n < 10 {
        seq![digit_char(n)]
    } else {
        dec(n / 10).push(digit_char(n % 10))
    }
}

/// `n` zero-padded to at least two digits, as `{:02}` does.
pub open spec fn dec2(n: nat) -> Seq<char> {
    if n < 10 {
        seq!['0', digit_char(n)]
    } else {
        dec(n)
    }
}

fn digit(n: u64) -> (c: char)
    requires
        n < 10,
    ensures
        c == digit_char(n as nat),
{
    if n == 0 {
        '0'
    } else if n == 1 {
        '1'
    } else if n == 2 {
        '2'
    } else if n == 3 {
        '3'
    } else if n == 4 {
        '4'
    } else if n == 5 {
        '5'
    } else if n == 6 {
        '6'
    } else if n == 7 {
        '7'
    } else if n == 8 {
        '8'
    } else {
        '9'
    }
}

/// Appends the decimal rendering of `n`.
pub fn push_dec(v: &mut Vec<char>, n: u64)
    ensures
        final(v)@ == old(v)@ + dec(n as nat),
    decreases n,
{
    if n < 10 {
        v.push(digit(n));
        assert(old(v)@.push(digit_char(n as nat)) =~= old(v)@ + dec(n as nat));
    } else {
        push_dec(v, n / 10);
        v.push(digit(n % 10));
        assert(old(v)@ + dec(n as nat) =~= old(v)@ + dec((n / 10) as nat) + seq![
            digit_char((n % 10) as nat),
        ]);
    }
}

/// Appends `n` zero-padded to two digits.
pub fn push_dec2(v: &mut Vec<char>, n: u64)
    ensures
        final(v)@ == old(v)@ + dec2(n as nat),
{
    if n < 10 {
        v.push('0');
        v.push(digit(n));
        assert(old(v)@.push('0').push(digit_char(n as nat)) =~= old(v)@ + dec2(n as nat));
    } else {
        push_dec(v, n);
    }
}

pub proof fn lemma_dec_digits(n: nat)
    ensures
        dec(n).len() >= 1,
        all_digits(dec(n)),
        digits_val(dec(n)) == n,
    decreases n,
{
    if n >= 10 {
        lemma_dec_digits(n / 10);
        let d = dec(n);
        assert(d.drop_last() =~= dec(n / 10));
        assert forall|i: int| 0 <= i < d.len() implies is_digit(#[trigger] d[i]) by {
            if i < d.len() - 1 {
                assert(d[i] == dec(n / 10)[i]);
            }
        }
        assert(n == (n / 10) * 10 + n % 10) by (nonlinear_arith);
        let k = n % 10;
        assert(digit_val(digit_char(k)) == k);
        assert(d.last() == digit_char(k));
        assert(digits_val(d) == digits_val(d.drop_last()) * 10 + digit_val(d.last()));
        assert(digits_val(d) == (n / 10) * 10 + k);
    } else {
        assert(digit_val(digit_char(n)) == n);
        assert(dec(n).drop_last() =~= Seq::<char>::empty());
        assert(digits_val(dec(n)) == digits_val(dec(n).drop_last()) * 10 + digit_val(dec(n).last()));
    }
}

/// Decimal rendering followed by parsing gives the number back.
pub proof fn lemma_parse_dec(n: nat)
    ensures
        parse_uint(dec(n)) == Some(n),
{
    lemma_dec_digits(n);
    assert(dec(n)[0] != '+');
}

} // verus!

verus! {

/// Lines joined with a `\n` after each.
pub open spec fn joined(ls: Seq<Seq<char>>) -> Seq<char>
    decreases ls.len(),
{
    if ls.len() == 0 {
        Seq::empty()
    } else {
        joined(ls.drop_last()) + ls.last() + seq!['\n']
    }
}

pub proof fn lemma_split_append(x: Seq<char>, l: Seq<char>, sep: char)
    requires
        !l.contains(sep),
    ensures
        split_on(x + l, sep) == split_on(x, sep).update(
            split_on(x, sep).len() - 1,
            split_on(x, sep).last() + l,
        ),
    decreases l.len(),
{
    lemma_split_on_nonempty(x, sep);
    if l.len() == 0 {
        assert(x + l =~= x);
        assert(split_on(x, sep).last() + l =~= split_on(x, sep).last());
        assert(split_on(x, sep).update(split_on(x, sep).len() - 1, split_on(x, sep).last())
            =~= split_on(x, sep));
    } else {
        let l0 = l.drop_last();
        assert(!l0.contains(sep)) by {
            if l0.contains(sep) {
                let k = choose|k: int| 0 <= k < l0.len() && l0[k] == sep;
                assert(l[k] == sep);
            }
        }
        lemma_split_append(x, l0, sep);
        assert((x + l).drop_last() =~= x + l0);
        assert((x + l).last() == l.last());
        assert(l.last() != sep) by {
            assert(l[l.len() - 1] == l.last());
        }
        assert((split_on(x, sep).last() + l0).push(l.last()) =~= split_on(x, sep).last() + l);
        lemma_split_on_nonempty(x + l0, sep);
        assert(split_on(x + l, sep) =~= split_on(x, sep).update(
            split_on(x, sep).len() - 1,
            split_on(x, sep).last() + l,
        ));
    }
}

proof fn lemma_split_joined(ls: Seq<Seq<char>>)
    requires
        forall|i: int| 0 <= i < ls.len() ==> !(#[trigger] ls[i]).contains('\n'),
    ensures
        split_on(joined(ls), '\n') == ls.push(Seq::<char>::empty()),
    decreases ls.len(),
{
    if ls.len() == 0 {
        assert(joined(ls) =~= Seq::<char>::empty());
        assert(seq![Seq::<char>::empty()] =~= ls.push(Seq::<char>::empty()));
    } else {
        let init = ls.drop_last();
        assert forall|i: int| 0 <= i < init.len() implies !(#[trigger] init[i]).contains('\n') by {
            assert(init[i] == ls[i]);
        }
        lemma_split_joined(init);
        let l = ls.last();
        assert(!l.contains('\n')) by {
            assert(ls[ls.len() - 1] == l);
        }
        lemma_split_append(joined(init), l, '\n');
        let y = joined(init) + l;
        assert(joined(ls) =~= y.push('\n'));
        assert(y.push('\n').drop_last() =~= y);
        assert(Seq::<char>::empty() + l =~= l);
        assert(init.push(Seq::<char>::empty()).update(init.len() as int, l) =~= ls);
    }
}

/// Lines without line breaks, each written with its `\n`, read back as the
/// same lines — unless a line ends with a carriage return.
pub proof fn lemma_lines_joined(ls: Seq<Seq<char>>)
    requires
        forall|i: int| 0 <= i < ls.len() ==> !(#[trigger] ls[i]).contains('\n'),
        forall|i: int| 0 <= i < ls.len() ==> strip_cr(#[trigger] ls[i]) == ls[i],
    ensures
        lines(joined(ls)) == ls,
{
    lemma_split_joined(ls);
    let parts = ls.push(Seq::<char>::empty());
    assert(parts.drop_last() =~= ls);
    assert(parts.last().len() == 0);
    assert(ls.map_values(|p: Seq<char>| strip_cr(p)) =~= ls);
}

/// `key` followed by `=` and `val` splits back at that `=`.
pub proof fn lemma_split_once_key(key: Seq<char>, val: Seq<char>)
    requires
        !key.contains('='),
    ensures
        split_once(key + seq!['='] + val, '=') == Some((key, val)),
{
    let s = key + seq!['='] + val;
    assert(s[key.len() as int] == '=');
    assert forall|k: int| 0 <= k < key.len() implies s[k] != '=' by {
        assert(s[k] == key[k]);
        if key[k] == '=' {
            assert(key.contains('='));
        }
    }
    lemma_find_some(s, '=', key.len() as int);
    assert(s.take(key.len() as int) =~= key);
    assert(s.skip(key.len() as int + 1) =~= val);
}

/// The decimal digits hold no separator.
pub proof fn lemma_dec_plain(n: nat)
    ensures
        !dec(n).contains('\n'),
        !dec(n).contains('\r'),
        !dec(n).contains(','),
        !dec(n).contains(' '),
        !dec(n).contains('='),
        dec(n).len() > 0,
{
    lemma_dec_digits(n);
    assert forall|c: char| !is_digit(c) implies !dec(n).contains(c) by {
        if dec(n).contains(c) {
            let k = choose|k: int| 0 <= k < dec(n).len() && dec(n)[k] == c;
            assert(is_digit(dec(n)[k]));
        }
    }
}

} // verus!

verus! {

/// Cutting a concatenation: the pieces of the first part, its last piece
/// joined with the second part's first, then the second part's other pieces.
pub proof fn lemma_split_concat(p: Seq<char>, q: Seq<char>, sep: char)
    ensures
        split_on(p + q, sep) == split_on(p, sep).drop_last() + seq![
            split_on(p, sep).last() + split_on(q, sep)[0],
        ] + split_on(q, sep).drop_first(),
    decreases q.len(),
{
    lemma_split_on_nonempty(p, sep);
    let sp = split_on(p, sep);
    if q.len() == 0 {
        assert(p + q =~= p);
        assert(split_on(q, sep) == seq![Seq::<char>::empty()]);
        assert(sp.last() + Seq::<char>::empty() =~= sp.last());
        assert(sp.drop_last() + seq![sp.last()] + seq![Seq::<char>::empty()].drop_first() =~= sp);
    } else {
        let q0 = q.drop_last();
        let c = q.last();
        lemma_split_concat(p, q0, sep);
        lemma_split_on_nonempty(q0, sep);
        let sq0 = split_on(q0, sep);
        assert((p + q).drop_last() =~= p + q0);
        assert((p + q).last() == c);
        let whole0 = split_on(p + q0, sep);
        if c == sep {
            assert(split_on(q, sep) == sq0.push(Seq::<char>::empty()));
            assert(split_on(p + q, sep) == whole0.push(Seq::<char>::empty()));
            assert(sq0.push(Seq::<char>::empty())[0] == sq0[0]);
            assert(sq0.push(Seq::<char>::empty()).drop_first() =~= sq0.drop_first().push(Seq::<char>::empty()));
            assert(split_on(p + q, sep) =~= sp.drop_last() + seq![sp.last() + split_on(q, sep)[0]]
                + split_on(q, sep).drop_first());
        } else {
            let sq = sq0.update(sq0.len() - 1, sq0.last().push(c));
            assert(split_on(q, sep) == sq);
            assert(split_on(p + q, sep) == whole0.update(whole0.len() - 1, whole0.last().push(c)));
            if sq0.len() == 1 {
                assert(sq[0] == sq0[0].push(c));
                assert((sp.last() + sq0[0]).push(c) =~= sp.last() + sq0[0].push(c));
                assert(sq.drop_first() =~= Seq::<Seq<char>>::empty());
                assert(sq0.drop_first() =~= Seq::<Seq<char>>::empty());
            } else {
                assert(sq[0] == sq0[0]);
                assert(sq.drop_first() =~= sq0.drop_first().update(
                    sq0.len() - 2,
                    sq0.drop_first().last().push(c),
                ));
            }
            assert(split_on(p + q, sep) =~= sp.drop_last() + seq![sp.last() + split_on(q, sep)[0]]
                + split_on(q, sep).drop_first());
        }
    }
}

/// A piece with no separator is cut into itself alone.
pub proof fn lemma_split_alone(l: Seq<char>, sep: char)
    requires
        !l.contains(sep),
    ensures
        split_on(l, sep) == seq![l],
{
    let e = Seq::<char>::empty();
    lemma_split_append(e, l, sep);
    assert(e + l =~= l);
    assert(split_on(e, sep) == seq![e]);
    assert(seq![e].update(0, e + l) =~= seq![l]);
}

} // verus!
