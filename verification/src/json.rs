//! Flat-JSON parsing for the wire protocol: one object per line, from the
//! input pipe or an HTTP POST. Quote-aware and escape-aware, but deliberately
//! shallow — nested objects are not part of the contract.
//!
//! The reading is specified as a character scanner (`scan`) followed by a
//! pairing of the resulting tokens (`pair_up`).

use vstd::prelude::*;
use crate::text::{chars_eq, chars_eq_str, chars_of, is_whitespace, is_ws, slice_vec, trim, trim_chars, trim_end, trim_start, views};

verus! {

/// Where the scanner stands after some prefix of the object's body.
pub struct ScanState {
    pub token: Seq<char>,
    /// Finished tokens, each flagged with whether it came from a string.
    pub tokens: Seq<(Seq<char>, bool)>,
    pub in_str: bool,
    pub in_arr: bool,
    pub was_str: bool,
    pub esc: bool,
}

pub open spec fn scan_init() -> ScanState {
    ScanState {
        token: Seq::empty(),
        tokens: Seq::empty(),
        in_str: false,
        in_arr: false,
        was_str: false,
        esc: false,
    }
}

/// The character an escape sequence stands for.
pub open spec fn unescape(c: char) -> char {
    if c == 'n' {
        '\n'
    } else if c == 't' {
        '\t'
    } else if c == 'r' {
        '\r'
    } else {
        c
    }
}

/// One character of the scanner. Inside a string every character is text
/// (escapes decoded); inside an array the strings fold into one token joined
/// by `\n`; outside, `:` and `,` close the current token and stand as tokens
/// of their own, and whitespace is dropped.
pub open spec fn scan_step(st: ScanState, c: char) -> ScanState {
    if st.in_str {
        if st.esc {
            ScanState { token: st.token.push(unescape(c)), esc: false, ..st }
        } else if c == '\\' {
            ScanState { esc: true, ..st }
        } else if c == '"' {
            ScanState { in_str: false, was_str: true, ..st }
        } else {
            ScanState { token: st.token.push(c), ..st }
        }
    } else if st.in_arr {
        if c == '"' {
            ScanState { in_str: true, ..st }
        } else if c == ',' {
            ScanState { token: st.token.push('\n'), ..st }
        } else if c == ']' {
            ScanState { in_arr: false, was_str: true, ..st }
        } else if is_ws(c) {
            st
        } else {
            ScanState { token: st.token.push(c), ..st }
        }
    } else {
        if c == '"' {
            ScanState { in_str: true, ..st }
        } else if c == '[' {
            ScanState { in_arr: true, ..st }
        } else if c == ':' || c == ',' {
            ScanState {
                token: Seq::empty(),
                tokens: st.tokens.push((st.token, st.was_str)).push((seq![c], false)),
                was_str: false,
                ..st
            }
        } else if is_ws(c) {
            st
        } else {
            ScanState { token: st.token.push(c), ..st }
        }
    }
}

/// The scanner run over `s`.
pub open spec fn scan(s: Seq<char>) -> ScanState
    decreases s.len(),
{
    if s.len() == 0 {
        scan_init()
    } else {
        scan_step(scan(s.drop_last()), s.last())
    }
}

/// The tokens that matter: every string (even empty) and every non-empty bare
/// token.
pub open spec fn keep(toks: Seq<(Seq<char>, bool)>) -> Seq<Seq<char>>
    decreases toks.len(),
{
    if toks.len() == 0 {
        Seq::empty()
    } else {
        let r = keep(toks.drop_last());
        if toks.last().1 || toks.last().0.len() > 0 {
            r.push(toks.last().0)
        } else {
            r
        }
    }
}

/// Reads `key : value` triples, skipping separating commas.
pub open spec fn pair_up(t: Seq<Seq<char>>) -> Option<Seq<(Seq<char>, Seq<char>)>>
    decreases t.len(),
{
    if t.len() == 0 {
        Some(Seq::empty())
    } else if t[0] == seq![','] {
        pair_up(t.drop_first())
    } else if t.len() < 3 || t[1] != seq![':'] || t[2] == seq![','] || t[2] == seq![':'] {
        None
    } else {
        match pair_up(t.skip(3)) {
            Some(r) => Some(seq![(t[0], t[2])] + r),
            None => None,
        }
    }
}

/// The body between the braces of a trimmed line, if it is braced.
pub open spec fn braced(line: Seq<char>) -> Option<Seq<char>> {
    let t = trim(line);
    if t.len() >= 2 && t[0] == '{' && t.last() == '}' {
        Some(t.subrange(1, t.len() - 1))
    } else {
        None
    }
}

/// The (key, value) pairs of a flat JSON object line, or `None` when the
/// line is not one.
pub open spec fn fields_of(line: Seq<char>) -> Option<Seq<(Seq<char>, Seq<char>)>> {
    match braced(line) {
        None => None,
        Some(inner) => {
            let st = scan(inner);
            if st.in_str || st.in_arr {
                None
            } else {
                pair_up(keep(st.tokens.push((st.token, st.was_str))))
            }
        },
    }
}

/// The first value stored under `k`.
pub open spec fn get_field(fields: Seq<(Seq<char>, Seq<char>)>, k: Seq<char>) -> Option<
    Seq<char>,
>
    decreases fields.len(),
{
    if fields.len() == 0 {
        None
    } else if fields[0].0 == k {
        Some(fields[0].1)
    } else {
        get_field(fields.drop_first(), k)
    }
}

// ---------------------------------------------------------------------------
// Executable scanner

pub open spec fn tok_views(v: Seq<(Vec<char>, bool)>) -> Seq<(Seq<char>, bool)> {
    v.map_values(|t: (Vec<char>, bool)| (t.0@, t.1))
}

pub open spec fn pair_views(v: Seq<(Vec<char>, Vec<char>)>) -> Seq<(Seq<char>, Seq<char>)> {
    v.map_values(|t: (Vec<char>, Vec<char>)| (t.0@, t.1@))
}

struct Scanner {
    token: Vec<char>,
    tokens: Vec<(Vec<char>, bool)>,
    in_str: bool,
    in_arr: bool,
    was_str: bool,
    esc: bool,
}

impl Scanner {
    spec fn view_state(&self) -> ScanState {
        ScanState {
            token: self.token@,
            tokens: tok_views(self.tokens@),
            in_str: self.in_str,
            in_arr: self.in_arr,
            was_str: self.was_str,
            esc: self.esc,
        }
    }

    fn step(&mut self, c: char)
        ensures
            final(self).view_state() == scan_step(old(self).view_state(), c),
    {
        let ghost before = self.view_state();
        if self.in_str {
            if self.esc {
                let d = if c == 'n' {
                    '\n'
                } else if c == 't' {
                    '\t'
                } else if c == 'r' {
                    '\r'
                } else {
                    c
                };
                self.token.push(d);
                self.esc = false;
            } else if c == '\\' {
                self.esc = true;
            } else if c == '"' {
                self.in_str = false;
                self.was_str = true;
            } else {
                self.token.push(c);
            }
        } else if self.in_arr {
            if c == '"' {
                self.in_str = true;
            } else if c == ',' {
                self.token.push('\n');
            } else if c == ']' {
                self.in_arr = false;
                self.was_str = true;
            } else if is_whitespace(c) {
            } else {
                self.token.push(c);
            }
        } else {
            if c == '"' {
                self.in_str = true;
            } else if c == '[' {
                self.in_arr = true;
            } else if c == ':' || c == ',' {
                let mut finished: Vec<char> = Vec::new();
                std::mem::swap(&mut finished, &mut self.token);
                self.tokens.push((finished, self.was_str));
                let mut sep: Vec<char> = Vec::new();
                sep.push(c);
                self.tokens.push((sep, false));
                self.was_str = false;
                assert(tok_views(self.tokens@) =~= before.tokens.push((before.token, before.was_str)).push(
                    (seq![c], false),
                ));
            } else if is_whitespace(c) {
            } else {
                self.token.push(c);
            }
        }
    }
}

/// The pairs of a flat JSON object, as character vectors.
pub fn fields_chars(line: &[char]) -> (r: Option<Vec<(Vec<char>, Vec<char>)>>)
    ensures
        match r {
            Some(v) => fields_of(line@) == Some(pair_views(v@)),
            None => fields_of(line@) is None,
        },
{
    let t = trim_chars(line);
    if !(t.len() >= 2 && t[0] == '{' && t[t.len() - 1] == '}') {
        return None;
    }
    let inner = slice_vec(t.as_slice(), 1, t.len() - 1);
    let mut sc = Scanner {
        token: Vec::new(),
        tokens: Vec::new(),
        in_str: false,
        in_arr: false,
        was_str: false,
        esc: false,
    };
    assert(tok_views(sc.tokens@) =~= Seq::<(Seq<char>, bool)>::empty());
    assert(sc.token@ =~= Seq::<char>::empty());
    assert(inner@.take(0) =~= Seq::<char>::empty());
    assert(sc.view_state() == scan(inner@.take(0)));
    let mut i: usize = 0;
    while i < inner.len()
        invariant
            i <= inner.len(),
            sc.view_state() == scan(inner@.take(i as int)),
        decreases inner.len() - i,
    {
        sc.step(inner[i]);
        i = i + 1;
        assert(inner@.take(i as int).drop_last() =~= inner@.take((i - 1) as int));
    }
    assert(inner@.take(inner.len() as int) =~= inner@);
    if sc.in_str || sc.in_arr {
        return None;
    }
    let Scanner { token, mut tokens, was_str, .. } = sc;
    let ghost before = tok_views(tokens@);
    tokens.push((token, was_str));
    let ghost all = tok_views(tokens@);
    assert(all =~= before.push((token@, was_str)));
    // keep the tokens that matter
    let mut kept: Vec<Vec<char>> = Vec::new();
    let mut k: usize = 0;
    assert(views(kept@) =~= keep(all.take(0)));
    while k < tokens.len()
        invariant
            k <= tokens.len(),
            all == tok_views(tokens@),
            views(kept@) == keep(all.take(k as int)),
        decreases tokens.len() - k,
    {
        let ghost kb = views(kept@);
        assert(all.take(k + 1).drop_last() =~= all.take(k as int));
        assert(all[k as int] == (tokens@[k as int].0@, tokens@[k as int].1));
        if tokens[k].1 || tokens[k].0.len() > 0 {
            let tk = slice_vec(tokens[k].0.as_slice(), 0, tokens[k].0.len());
            assert(tk@ =~= tokens@[k as int].0@);
            kept.push(tk);
            assert(views(kept@) =~= kb.push(tk@));
        }
        k = k + 1;
    }
    assert(all.take(tokens.len() as int) =~= all);
    pair_tokens(&kept)
}

fn pair_tokens(t: &Vec<Vec<char>>) -> (r: Option<Vec<(Vec<char>, Vec<char>)>>)
    ensures
        match r {
            Some(v) => pair_up(views(t@)) == Some(pair_views(v@)),
            None => pair_up(views(t@)) is None,
        },
{
    let ghost tv = views(t@);
    let mut out: Vec<(Vec<char>, Vec<char>)> = Vec::new();
    let mut i: usize = 0;
    assert(tv.skip(0) =~= tv);
    assert(pair_views(out@) =~= Seq::<(Seq<char>, Seq<char>)>::empty());
    assert(pair_up(tv) == match pair_up(tv.skip(0)) {
        Some(x) => Some(pair_views(out@) + x),
        None => None,
    }) by {
        if let Some(x) = pair_up(tv) {
            assert(pair_views(out@) + x =~= x);
        }
    }
    while i < t.len()
        invariant
            i <= t.len(),
            tv == views(t@),
            pair_up(tv) == match pair_up(tv.skip(i as int)) {
                Some(x) => Some(pair_views(out@) + x),
                None => None,
            },
        decreases t.len() - i,
    {
        let ghost rest = tv.skip(i as int);
        assert(tv.len() == t.len());
        assert(rest.len() > 0);
        assert(rest[0] == t@[i as int]@);
        proof {
            reveal_strlit(",");
            reveal_strlit(":");
            assert(","@ =~= seq![',']);
            assert(":"@ =~= seq![':']);
        }
        if chars_eq_str(t[i].as_slice(), ",") {
            proof {
                reveal_strlit(",");
                assert(rest[0] == seq![',']);
                assert(rest.drop_first() =~= tv.skip(i + 1));
                assert(pair_up(rest) == pair_up(rest.drop_first()));
            }
            i = i + 1;
        } else {
            proof {
                reveal_strlit(",");
                reveal_strlit(":");
            }
            if t.len() - i < 3 {
                assert(rest.len() < 3);
                return None;
            }
            assert(rest[1] == t@[i + 1]@);
            assert(rest[2] == t@[i + 2]@);
            if !chars_eq_str(t[i + 1].as_slice(), ":") || chars_eq_str(t[i + 2].as_slice(), ",")
                || chars_eq_str(t[i + 2].as_slice(), ":") {
                return None;
            }
            let key = slice_vec(t[i].as_slice(), 0, t[i].len());
            let val = slice_vec(t[i + 2].as_slice(), 0, t[i + 2].len());
            let ghost ob = pair_views(out@);
            assert(key@ =~= rest[0]);
            assert(val@ =~= rest[2]);
            out.push((key, val));
            assert(pair_views(out@) =~= ob.push((rest[0], rest[2])));
            assert(rest.skip(3) =~= tv.skip(i + 3));
            assert(pair_up(rest) == match pair_up(rest.skip(3)) {
                Some(x) => Some(seq![(rest[0], rest[2])] + x),
                None => None,
            });
            proof {
                if let Some(x) = pair_up(tv.skip(i + 3)) {
                    assert(ob + (seq![(rest[0], rest[2])] + x) =~= ob.push((rest[0], rest[2])) + x);
                }
            }
            i = i + 3;
        }
    }
    assert(tv.skip(i as int) =~= Seq::<Seq<char>>::empty());
    assert(pair_views(out@) + Seq::<(Seq<char>, Seq<char>)>::empty() =~= pair_views(out@));
    Some(out)
}

/// The first value stored under `k`.
pub fn get_chars(fields: &Vec<(Vec<char>, Vec<char>)>, k: &str) -> (r: Option<Vec<char>>)
    ensures
        match r {
            Some(v) => get_field(pair_views(fields@), k@) == Some(v@),
            None => get_field(pair_views(fields@), k@) is None,
        },
{
    let ghost fv = pair_views(fields@);
    let key = chars_of(k);
    let mut i: usize = 0;
    assert(fv.skip(0) =~= fv);
    while i < fields.len()
        invariant
            i <= fields.len(),
            fv == pair_views(fields@),
            key@ == k@,
            get_field(fv, k@) == get_field(fv.skip(i as int), k@),
        decreases fields.len() - i,
    {
        let ghost rest = fv.skip(i as int);
        assert(rest[0] == (fields@[i as int].0@, fields@[i as int].1@));
        if chars_eq(fields[i].0.as_slice(), key.as_slice()) {
            return Some(slice_vec(fields[i].1.as_slice(), 0, fields[i].1.len()));
        }
        assert(rest.drop_first() =~= fv.skip(i + 1));
        i = i + 1;
    }
    assert(fv.skip(i as int).len() == 0);
    None
}

} // verus!

verus! {

// ---------------------------------------------------------------------------
// Escaping, and what it guarantees to the reader

/// How one character is written inside a JSON string.
pub open spec fn esc_char(c: char) -> Seq<char> {
    if c == '\\' {
        seq!['\\', '\\']
    } else if c == '"' {
        seq!['\\', '"']
    } else if c == '\n' {
        seq!['\\', 'n']
    } else if c == '\t' {
        seq!['\\', 't']
    } else if c == '\r' {
        seq!['\\', 'r']
    } else {
        seq![c]
    }
}

/// Text made safe to sit between JSON quotes: backslash, quote, and the
/// newline, tab and carriage return become escape sequences.
pub open spec fn escape(s: Seq<char>) -> Seq<char>
    decreases s.len(),
{
    if s.len() == 0 {
        Seq::empty()
    } else {
        escape(s.drop_last()) + esc_char(s.last())
    }
}

/// Appends the escaped form of `s`.
pub fn push_escaped(v: &mut Vec<char>, s: &[char])
    ensures
        final(v)@ == old(v)@ + escape(s@),
{
    let mut i: usize = 0;
    assert(s@.take(0) =~= Seq::<char>::empty());
    assert(old(v)@ + escape(s@.take(0)) =~= old(v)@);
    while i < s.len()
        invariant
            i <= s.len(),
            v@ == old(v)@ + escape(s@.take(i as int)),
        decreases s.len() - i,
    {
        let c = s[i];
        let ghost before = v@;
        if c == '\\' {
            v.push('\\');
            v.push('\\');
        } else if c == '"' {
            v.push('\\');
            v.push('"');
        } else if c == '\n' {
            v.push('\\');
            v.push('n');
        } else if c == '\t' {
            v.push('\\');
            v.push('t');
        } else if c == '\r' {
            v.push('\\');
            v.push('r');
        } else {
            v.push(c);
        }
        assert(v@ =~= before + esc_char(c));
        assert(s@.take(i + 1).drop_last() =~= s@.take(i as int));
        i = i + 1;
        assert(old(v)@ + escape(s@.take(i as int)) =~= old(v)@ + escape(s@.take((i - 1) as int))
            + esc_char(c));
    }
    assert(s@.take(s.len() as int) =~= s@);
}

/// Text without backslash, quote, newline, tab or carriage return.
pub open spec fn plain_text(s: Seq<char>) -> bool {
    forall|i: int|
        0 <= i < s.len() ==> #[trigger] s[i] != '\\' && s[i] != '"' && s[i] != '\n' && s[i]
            != '\t' && s[i] != '\r'
}

/// Plain text escapes to itself.
pub proof fn lemma_escape_plain(s: Seq<char>)
    requires
        plain_text(s),
    ensures
        escape(s) == s,
    decreases s.len(),
{
    if s.len() > 0 {
        assert(plain_text(s.drop_last())) by {
            assert forall|i: int| 0 <= i < s.drop_last().len() implies #[trigger] s.drop_last()[i]
                != '\\' && s.drop_last()[i] != '"' && s.drop_last()[i] != '\n'
                && s.drop_last()[i] != '\t' && s.drop_last()[i] != '\r' by {
                assert(s.drop_last()[i] == s[i]);
            }
        }
        lemma_escape_plain(s.drop_last());
        assert(s[s.len() - 1] == s.last());
        assert(s.drop_last() + seq![s.last()] =~= s);
    } else {
        assert(s =~= Seq::<char>::empty());
    }
}

/// The scanner run over `s` from state `st`.
pub open spec fn scan_from(st: ScanState, s: Seq<char>) -> ScanState
    decreases s.len(),
{
    if s.len() == 0 {
        st
    } else {
        scan_step(scan_from(st, s.drop_last()), s.last())
    }
}

proof fn lemma_scan_is_scan_from(s: Seq<char>)
    ensures
        scan(s) == scan_from(scan_init(), s),
    decreases s.len(),
{
    if s.len() > 0 {
        lemma_scan_is_scan_from(s.drop_last());
    }
}

proof fn lemma_scan_concat(st: ScanState, a: Seq<char>, b: Seq<char>)
    ensures
        scan_from(st, a + b) == scan_from(scan_from(st, a), b),
    decreases b.len(),
{
    if b.len() == 0 {
        assert(a + b =~= a);
    } else {
        assert((a + b).drop_last() =~= a + b.drop_last());
        assert((a + b).last() == b.last());
        lemma_scan_concat(st, a, b.drop_last());
    }
}

proof fn lemma_scan_esc_char(st: ScanState, c: char)
    requires
        st.in_str,
        !st.esc,
    ensures
        scan_from(st, esc_char(c)) == (ScanState { token: st.token.push(c), ..st }),
{
    reveal_with_fuel(scan_from, 3);
    let e = esc_char(c);
    if e.len() == 2 {
        assert(e.drop_last().drop_last() =~= Seq::<char>::empty());
        assert(e.drop_last().last() == '\\');
    } else {
        assert(e.drop_last() =~= Seq::<char>::empty());
    }
}

/// Scanning escaped text inside a string appends exactly that text.
proof fn lemma_scan_escape(st: ScanState, s: Seq<char>)
    requires
        st.in_str,
        !st.esc,
    ensures
        scan_from(st, escape(s)) == (ScanState { token: st.token + s, ..st }),
    decreases s.len(),
{
    if s.len() == 0 {
        assert(st.token + s =~= st.token);
    } else {
        lemma_scan_escape(st, s.drop_last());
        lemma_scan_concat(st, escape(s.drop_last()), esc_char(s.last()));
        let mid = ScanState { token: st.token + s.drop_last(), ..st };
        lemma_scan_esc_char(mid, s.last());
        assert(mid.token.push(s.last()) =~= st.token + s);
    }
}

/// One `"key":"value"` member, both sides escaped.
pub open spec fn member_text(k: Seq<char>, v: Seq<char>) -> Seq<char> {
    seq!['"'] + escape(k) + seq!['"', ':', '"'] + escape(v) + seq!['"']
}

/// The members of an object, comma-separated.
pub open spec fn members_text(ps: Seq<(Seq<char>, Seq<char>)>) -> Seq<char>
    decreases ps.len(),
{
    if ps.len() == 0 {
        Seq::empty()
    } else if ps.len() == 1 {
        member_text(ps[0].0, ps[0].1)
    } else {
        member_text(ps[0].0, ps[0].1) + seq![','] + members_text(ps.drop_first())
    }
}

/// A flat JSON object of string members, as the wire carries it.
pub open spec fn object_text(ps: Seq<(Seq<char>, Seq<char>)>) -> Seq<char> {
    seq!['{'] + members_text(ps) + seq!['}']
}

/// Members the reader gets back unchanged: a key is never a lone comma, and
/// a value is never a lone comma or colon (those read as separators).
pub open spec fn readable_members(ps: Seq<(Seq<char>, Seq<char>)>) -> bool {
    forall|i: int|
        0 <= i < ps.len() ==> #[trigger] ps[i].0 != seq![','] && ps[i].1 != seq![','] && ps[i].1
            != seq![':']
}

/// Tokens the scanner produces for the members, before the last value.
pub open spec fn member_toks(ps: Seq<(Seq<char>, Seq<char>)>) -> Seq<(Seq<char>, bool)>
    decreases ps.len(),
{
    if ps.len() <= 1 {
        seq![(ps[0].0, true), (seq![':'], false)]
    } else {
        seq![(ps[0].0, true), (seq![':'], false), (ps[0].1, true), (seq![','], false)]
            + member_toks(ps.drop_first())
    }
}

/// The kept tokens for the members.
pub open spec fn member_kept(ps: Seq<(Seq<char>, Seq<char>)>) -> Seq<Seq<char>>
    decreases ps.len(),
{
    if ps.len() <= 1 {
        seq![ps[0].0, seq![':'], ps[0].1]
    } else {
        seq![ps[0].0, seq![':'], ps[0].1, seq![',']] + member_kept(ps.drop_first())
    }
}

pub open spec fn between(st: ScanState) -> bool {
    !st.in_str && !st.in_arr && !st.esc && st.token.len() == 0 && !st.was_str
}

proof fn lemma_scan_member(st: ScanState, k: Seq<char>, v: Seq<char>)
    requires
        between(st),
    ensures
        scan_from(st, member_text(k, v)) == (ScanState {
            token: v,
            tokens: st.tokens.push((k, true)).push((seq![':'], false)),
            in_str: false,
            in_arr: false,
            was_str: true,
            esc: false,
        }),
{
    reveal_with_fuel(scan_from, 4);
    let q = seq!['"'];
    let mid = seq!['"', ':', '"'];
    let s1 = scan_from(st, q);
    assert(q.drop_last() =~= Seq::<char>::empty());
    assert(s1 == ScanState { in_str: true, ..st });
    lemma_scan_concat(st, q, escape(k));
    lemma_scan_escape(s1, k);
    let s2 = scan_from(st, q + escape(k));
    assert(st.token + k =~= k);
    assert(s2 == ScanState { token: k, in_str: true, ..st });
    lemma_scan_concat(st, q + escape(k), mid);
    let s3 = scan_from(s2, mid);
    assert(mid.drop_last().drop_last() =~= seq!['"']);
    assert(mid.drop_last().drop_last().drop_last() =~= Seq::<char>::empty());
    assert(mid.drop_last() =~= seq!['"', ':']);
    assert(s3 == ScanState {
        token: Seq::empty(),
        tokens: st.tokens.push((k, true)).push((seq![':'], false)),
        in_str: true,
        was_str: false,
        ..st
    });
    lemma_scan_concat(st, q + escape(k) + mid, escape(v));
    lemma_scan_escape(s3, v);
    let s4 = scan_from(s3, escape(v));
    assert(Seq::<char>::empty() + v =~= v);
    lemma_scan_concat(st, q + escape(k) + mid + escape(v), q);
    assert(member_text(k, v) =~= q + escape(k) + mid + escape(v) + q);
}

proof fn lemma_scan_members(st: ScanState, ps: Seq<(Seq<char>, Seq<char>)>)
    requires
        between(st),
        ps.len() >= 1,
    ensures
        scan_from(st, members_text(ps)) == (ScanState {
            token: ps.last().1,
            tokens: st.tokens + member_toks(ps),
            in_str: false,
            in_arr: false,
            was_str: true,
            esc: false,
        }),
    decreases ps.len(),
{
    reveal_with_fuel(scan_from, 2);
    lemma_scan_member(st, ps[0].0, ps[0].1);
    let s1 = scan_from(st, member_text(ps[0].0, ps[0].1));
    if ps.len() == 1 {
        assert(st.tokens.push((ps[0].0, true)).push((seq![':'], false)) =~= st.tokens
            + member_toks(ps));
    } else {
        let comma = seq![','];
        lemma_scan_concat(st, member_text(ps[0].0, ps[0].1), comma);
        assert(comma.drop_last() =~= Seq::<char>::empty());
        let s2 = scan_from(s1, comma);
        assert(s2 == ScanState {
            token: Seq::empty(),
            tokens: s1.tokens.push((ps[0].1, true)).push((seq![','], false)),
            was_str: false,
            ..s1
        });
        assert(between(s2));
        lemma_scan_members(s2, ps.drop_first());
        lemma_scan_concat(st, member_text(ps[0].0, ps[0].1) + comma, members_text(ps.drop_first()));
        assert(member_text(ps[0].0, ps[0].1) + comma + members_text(ps.drop_first())
            =~= members_text(ps));
        assert(s2.tokens + member_toks(ps.drop_first()) =~= st.tokens + member_toks(ps));
    }
}

proof fn lemma_keep_concat(a: Seq<(Seq<char>, bool)>, b: Seq<(Seq<char>, bool)>)
    ensures
        keep(a + b) == keep(a) + keep(b),
    decreases b.len(),
{
    if b.len() == 0 {
        assert(a + b =~= a);
        assert(keep(a) + keep(b) =~= keep(a));
    } else {
        assert((a + b).drop_last() =~= a + b.drop_last());
        lemma_keep_concat(a, b.drop_last());
        if b.last().1 || b.last().0.len() > 0 {
            assert(keep(a) + keep(b.drop_last()).push(b.last().0) =~= (keep(a) + keep(
                b.drop_last(),
            )).push(b.last().0));
        }
    }
}

proof fn lemma_keep_small(t: Seq<(Seq<char>, bool)>)
    requires
        forall|i: int| 0 <= i < t.len() ==> (#[trigger] t[i]).1 || t[i].0.len() > 0,
    ensures
        keep(t) == t.map_values(|x: (Seq<char>, bool)| x.0),
    decreases t.len(),
{
    if t.len() > 0 {
        lemma_keep_small(t.drop_last());
        assert(t.map_values(|x: (Seq<char>, bool)| x.0) =~= t.drop_last().map_values(
            |x: (Seq<char>, bool)| x.0,
        ).push(t.last().0));
    } else {
        assert(t.map_values(|x: (Seq<char>, bool)| x.0) =~= Seq::<Seq<char>>::empty());
    }
}

proof fn lemma_keep_members(ps: Seq<(Seq<char>, Seq<char>)>)
    requires
        ps.len() >= 1,
    ensures
        keep(member_toks(ps).push((ps.last().1, true))) == member_kept(ps),
    decreases ps.len(),
{
    let t = member_toks(ps).push((ps.last().1, true));
    if ps.len() == 1 {
        assert(t =~= seq![(ps[0].0, true), (seq![':'], false), (ps[0].1, true)]);
        lemma_keep_small(t);
        assert(t.map_values(|x: (Seq<char>, bool)| x.0) =~= member_kept(ps));
    } else {
        let head = seq![(ps[0].0, true), (seq![':'], false), (ps[0].1, true), (seq![','], false)];
        let rest = ps.drop_first();
        lemma_keep_members(rest);
        assert(rest.last() == ps.last());
        assert(t =~= head + member_toks(rest).push((rest.last().1, true)));
        lemma_keep_concat(head, member_toks(rest).push((rest.last().1, true)));
        lemma_keep_small(head);
        assert(head.map_values(|x: (Seq<char>, bool)| x.0) =~= seq![
            ps[0].0,
            seq![':'],
            ps[0].1,
            seq![','],
        ]);
    }
}

proof fn lemma_pair_members(ps: Seq<(Seq<char>, Seq<char>)>)
    requires
        ps.len() >= 1,
        readable_members(ps),
    ensures
        pair_up(member_kept(ps)) == Some(ps),
    decreases ps.len(),
{
    reveal_with_fuel(pair_up, 3);
    let t = member_kept(ps);
    assert(ps[0].0 != seq![','] && ps[0].1 != seq![','] && ps[0].1 != seq![':']);
    if ps.len() == 1 {
        assert(t.skip(3) =~= Seq::<Seq<char>>::empty());
        assert(seq![(ps[0].0, ps[0].1)] + Seq::<(Seq<char>, Seq<char>)>::empty() =~= ps);
    } else {
        let rest = ps.drop_first();
        assert forall|i: int| 0 <= i < rest.len() implies #[trigger] rest[i].0 != seq![',']
            && rest[i].1 != seq![','] && rest[i].1 != seq![':'] by {
            assert(rest[i] == ps[i + 1]);
        }
        lemma_pair_members(rest);
        assert(t.skip(3) =~= seq![seq![',']] + member_kept(rest));
        assert((seq![seq![',']] + member_kept(rest)).drop_first() =~= member_kept(rest));
        assert(seq![(ps[0].0, ps[0].1)] + rest =~= ps);
    }
}

/// What the reader makes of a written object: exactly its members, in
/// order — for every object of string members whose keys and values do not
/// read as separators.
pub proof fn lemma_read_written_object(ps: Seq<(Seq<char>, Seq<char>)>)
    requires
        ps.len() >= 1,
        readable_members(ps),
    ensures
        fields_of(object_text(ps)) == Some(ps),
{
    let line = object_text(ps);
    let body = members_text(ps);
    // the line is its own trim: it starts with `{` and ends with `}`
    assert(line[0] == '{');
    assert(line.last() == '}');
    lemma_trim_is_identity(line);
    assert(line.subrange(1, line.len() - 1) =~= body);
    lemma_scan_is_scan_from(body);
    let st0 = scan_init();
    assert(st0.tokens + member_toks(ps) =~= member_toks(ps));
    lemma_scan_members(st0, ps);
    lemma_keep_members(ps);
    lemma_pair_members(ps);
}

proof fn lemma_trim_is_identity(s: Seq<char>)
    requires
        s.len() > 0,
        !is_ws(s[0]),
        !is_ws(s.last()),
    ensures
        trim(s) == s,
{
    assert(trim_start(s) == s);
    assert(trim_end(s) == s);
}

} // verus!
