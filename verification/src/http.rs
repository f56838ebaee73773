//! HTTP ingestion: any project on the LAN POSTs one flat JSON object (same
//! schema as the pipe) and it lands where the pipe's lines land. An ask
//! long-polls until the user answers. Here: reading a request from its
//! bytes, writing responses, and deciding what each request gets; the
//! sockets, threads and waiting belong to the program.

use vstd::prelude::*;
use vstd::utf8::{decode_utf8, valid_utf8};
use crate::assistant::{json_escape, msgs_of, parse_msgs, MsgV};
use crate::i18n::{t, table, Lang};
use crate::json::{escape, get_field};
use crate::text::{
    chars_of, dec, find, is_ws, parse_max, parse_uint_max, push_dec, push_str, split_once,
    split_once_chars, string_of, trim, trim_chars, trim_end,
};

verus! {

/// Largest body accepted.
pub const BODY_CAP: usize = 65536;

/// Where the server listens unless told otherwise (8262 spells TAMA on a
/// phone keypad).
pub const DEFAULT_ADDR: &'static str = "0.0.0.0:8262";

/// An ask without `expires` is given this many seconds, so a waiting
/// connection never hangs on forever.
pub const ASK_DEFAULT_TTL: u64 = 300;

#[derive(Debug)]
pub struct Request {
    pub method: String,
    pub path: String,
    pub auth: Option<String>,
    pub body: String,
}

pub struct RequestV {
    pub method: Seq<char>,
    pub path: Seq<char>,
    pub auth: Option<Seq<char>>,
    pub body: Seq<char>,
}

impl View for Request {
    type V = RequestV;

    open spec fn view(&self) -> RequestV {
        RequestV {
            method: self.method@,
            path: self.path@,
            auth: match self.auth {
                Some(a) => Some(a@),
                None => None,
            },
            body: self.body@,
        }
    }
}

// ---------------------------------------------------------------------------
// Bytes

/// Index of the first `b` in `s`.
pub open spec fn find_byte(s: Seq<u8>, b: u8) -> Option<int>
    decreases s.len(),
{
    if s.len() == 0 {
        None
    } else if s[0] == b {
        Some(0)
    } else {
        match find_byte(s.drop_first(), b) {
            Some(i) => Some(i + 1),
            None => None,
        }
    }
}

pub proof fn lemma_find_byte(s: Seq<u8>, b: u8)
    ensures
        find_byte(s, b) matches Some(i) ==> 0 <= i < s.len() && s[i] == b && forall|k: int|
            0 <= k < i ==> s[k] != b,
        find_byte(s, b) is None ==> forall|k: int| 0 <= k < s.len() ==> s[k] != b,
    decreases s.len(),
{
    if s.len() > 0 {
        lemma_find_byte(s.drop_first(), b);
        if s[0] != b {
            assert forall|k: int| 0 < k < s.len() implies s[k] == s.drop_first()[k - 1] by {}
        }
    }
}

proof fn lemma_find_byte_at(s: Seq<u8>, b: u8, i: int)
    requires
        0 <= i <= s.len(),
        i < s.len() ==> s[i] == b,
        forall|k: int| 0 <= k < i ==> s[k] != b,
    ensures
        find_byte(s, b) == if i < s.len() {
            Some(i)
        } else {
            None::<int>
        },
    decreases i,
{
    if i > 0 {
        lemma_find_byte_at(s.drop_first(), b, i - 1);
    }
}

/// Where the line starting at `pos` ends: just past its `\n`, or at the end
/// of the input (how `read_line` reads).
pub open spec fn line_end(raw: Seq<u8>, pos: int) -> int {
    match find_byte(raw.skip(pos), 10u8) {
        Some(i) => pos + i + 1,
        None => raw.len() as int,
    }
}

pub proof fn lemma_line_end(raw: Seq<u8>, pos: int)
    requires
        0 <= pos <= raw.len(),
    ensures
        pos <= line_end(raw, pos) <= raw.len(),
        pos < raw.len() ==> pos < line_end(raw, pos),
{
    lemma_find_byte(raw.skip(pos), 10u8);
}

fn line_end_exec(raw: &[u8], pos: usize) -> (r: usize)
    requires
        pos <= raw.len(),
    ensures
        r == line_end(raw@, pos as int),
        pos <= r <= raw.len(),
{
    let mut i: usize = pos;
    while i < raw.len()
        invariant
            pos <= i <= raw.len(),
            forall|k: int| pos <= k < i ==> raw@[k] != 10u8,
        decreases raw.len() - i,
    {
        if raw[i] == 10u8 {
            proof {
                lemma_find_byte_at(raw@.skip(pos as int), 10u8, i - pos);
            }
            return i + 1;
        }
        i = i + 1;
    }
    proof {
        lemma_find_byte_at(raw@.skip(pos as int), 10u8, raw.len() - pos);
    }
    raw.len()
}

fn byte_range(raw: &[u8], lo: usize, hi: usize) -> (r: Vec<u8>)
    requires
        lo <= hi <= raw.len(),
    ensures
        r@ == raw@.subrange(lo as int, hi as int),
{
    let mut r: Vec<u8> = Vec::new();
    let mut i: usize = lo;
    while i < hi
        invariant
            lo <= i <= hi <= raw.len(),
            r@ == raw@.subrange(lo as int, i as int),
        decreases hi - i,
    {
        r.push(raw[i]);
        i = i + 1;
        assert(r@ =~= raw@.subrange(lo as int, i as int));
    }
    r
}

/// `std::str::from_utf8`: the text the bytes encode when they are valid
/// UTF-8, as an owned string.
#[verifier::external_body]
fn utf8_text(bytes: &[u8]) -> (r: Option<String>)
    ensures
        r is Some <==> valid_utf8(bytes@),
        r matches Some(s) ==> s@ == decode_utf8(bytes@),
{
    std::str::from_utf8(bytes).ok().map(|s| s.to_owned())
}

// ---------------------------------------------------------------------------
// Words and header names

/// How many characters of `s` come before its first whitespace.
pub open spec fn word_len(s: Seq<char>) -> nat
    decreases s.len(),
{
    if s.len() == 0 || is_ws(s[0]) {
        0
    } else {
        1 + word_len(s.drop_first())
    }
}

/// The first whitespace-separated word of `s` and what follows it.
pub open spec fn first_word(s: Seq<char>) -> Option<(Seq<char>, Seq<char>)> {
    let u = crate::text::trim_start(s);
    if u.len() == 0 {
        None
    } else {
        Some((u.take(word_len(u) as int), u.skip(word_len(u) as int)))
    }
}

proof fn lemma_word_len(s: Seq<char>)
    ensures
        word_len(s) <= s.len(),
        forall|k: int| 0 <= k < word_len(s) ==> !is_ws(#[trigger] s[k]),
        word_len(s) < s.len() ==> is_ws(s[word_len(s) as int]),
    decreases s.len(),
{
    if s.len() > 0 && !is_ws(s[0]) {
        lemma_word_len(s.drop_first());
        assert forall|k: int| 0 <= k < word_len(s) implies !is_ws(#[trigger] s[k]) by {
            if k > 0 {
                assert(s[k] == s.drop_first()[k - 1]);
            }
        }
    }
}

fn first_word_exec(s: &[char]) -> (r: Option<(Vec<char>, Vec<char>)>)
    ensures
        match r {
            Some((w, rest)) => first_word(s@) == Some((w@, rest@)),
            None => first_word(s@) is None,
        },
{
    let u = crate::text::trim_start_chars(s);
    if u.len() == 0 {
        return None;
    }
    let mut n: usize = 0;
    proof {
        lemma_word_len(u@);
    }
    while n < u.len() && !crate::text::is_whitespace(u[n])
        invariant
            n <= u.len(),
            n <= word_len(u@),
            word_len(u@) <= u@.len(),
            forall|k: int| 0 <= k < word_len(u@) ==> !is_ws(#[trigger] u@[k]),
            word_len(u@) < u@.len() ==> is_ws(u@[word_len(u@) as int]),
        decreases u.len() - n,
    {
        n = n + 1;
    }
    assert(n == word_len(u@));
    let w = crate::text::slice_vec(u.as_slice(), 0, n);
    let rest = crate::text::slice_vec(u.as_slice(), n, u.len());
    assert(rest@ =~= u@.skip(n as int));
    assert(w@ =~= u@.take(n as int));
    Some((w, rest))
}

/// `c` in lower case when it is an ASCII capital.
pub open spec fn ascii_lower(c: char) -> char {
    if 'A' <= c && c <= 'Z' {
        ((c as u32) + 32) as char
    } else {
        c
    }
}

fn ascii_lower_exec(c: char) -> (r: char)
    ensures
        r == ascii_lower(c),
{
    if 'A' <= c && c <= 'Z' {
        ((c as u8) + 32) as char
    } else {
        c
    }
}

/// Whether `k`, lower-cased, is `name`.
fn lower_is(k: &[char], name: &str) -> (r: bool)
    ensures
        r == (k@.map_values(|c: char| ascii_lower(c)) == name@),
{
    let n = chars_of(name);
    if k.len() != n.len() {
        assert(k@.map_values(|c: char| ascii_lower(c)).len() != name@.len());
        return false;
    }
    let mut i: usize = 0;
    while i < k.len()
        invariant
            i <= k.len(),
            k.len() == n.len(),
            n@ == name@,
            forall|j: int| 0 <= j < i ==> ascii_lower(#[trigger] k@[j]) == n@[j],
        decreases k.len() - i,
    {
        if ascii_lower_exec(k[i]) != n[i] {
            assert(k@.map_values(|c: char| ascii_lower(c))[i as int] != name@[i as int]);
            return false;
        }
        i = i + 1;
    }
    assert(k@.map_values(|c: char| ascii_lower(c)) =~= name@);
    true
}

} // verus!

verus! {

// ---------------------------------------------------------------------------
// Requests

/// What the headers say: the body's length and the credentials.
pub struct Head {
    pub len: usize,
    pub auth: Option<Seq<char>>,
    /// Where the body starts.
    pub body_start: int,
}

/// The header lines from `pos` on, read up to the blank line that ends
/// them: `Content-Length` and `Authorization` are recognised whatever their
/// case (the last one of each counts), other lines and lines without a
/// colon are skipped. `None` when the input ends first, a line is not
/// UTF-8, or a length is not a number.
pub open spec fn head_from(raw: Seq<u8>, pos: int, len: usize, auth: Option<Seq<char>>) -> Option<
    Head,
>
    decreases raw.len() - pos,
{
    if pos < 0 || pos >= raw.len() {
        None
    } else {
        let end = line_end(raw, pos);
        proof {
            lemma_line_end(raw, pos);
        }
        let bytes = raw.subrange(pos, end);
        if !valid_utf8(bytes) {
            None
        } else {
            let h = trim_end(decode_utf8(bytes));
            if h.len() == 0 {
                Some(Head { len, auth, body_start: end })
            } else {
                match split_once(h, ':') {
                    None => head_from(raw, end, len, auth),
                    Some((k, v)) => {
                        let key = k.map_values(|c: char| ascii_lower(c));
                        if key == "content-length"@ {
                            match parse_max(trim(v), usize::MAX as nat) {
                                Some(n) => head_from(raw, end, n as usize, auth),
                                None => None,
                            }
                        } else if key == "authorization"@ {
                            head_from(raw, end, len, Some(trim(v)))
                        } else {
                            head_from(raw, end, len, auth)
                        }
                    },
                }
            }
        }
    }
}

/// A request read from its bytes: the request line (method and path), the
/// headers, then exactly `Content-Length` bytes of UTF-8 body, at most
/// `BODY_CAP` of them. `None` on anything malformed, cut short or too big.
pub open spec fn request_of(raw: Seq<u8>) -> Option<RequestV> {
    let end = line_end(raw, 0);
    let first = raw.subrange(0, end);
    if !valid_utf8(first) {
        None
    } else {
        match first_word(decode_utf8(first)) {
            None => None,
            Some((method, after)) => match first_word(after) {
                None => None,
                Some((path, _)) => match head_from(raw, end, 0, None) {
                    None => None,
                    Some(h) => {
                        if h.len > BODY_CAP || h.body_start + h.len > raw.len() {
                            None
                        } else {
                            let b = raw.subrange(h.body_start, h.body_start + h.len);
                            if valid_utf8(b) {
                                Some(RequestV { method, path, auth: h.auth, body: decode_utf8(b) })
                            } else {
                                None
                            }
                        }
                    },
                },
            },
        }
    }
}

/// The headers from `pos` on.
fn read_head(raw: &[u8], pos: usize) -> (r: Option<(usize, Option<String>, usize)>)
    requires
        pos <= raw.len(),
    ensures
        match r {
            Some((len, auth, start)) => head_from(raw@, pos as int, 0, None) == Some(
                Head {
                    len,
                    auth: match auth {
                        Some(a) => Some(a@),
                        None => None,
                    },
                    body_start: start as int,
                },
            ),
            None => head_from(raw@, pos as int, 0, None) is None,
        },
        r matches Some((_, _, start)) ==> start <= raw.len(),
{
    let mut len: usize = 0;
    let mut auth: Option<String> = None;
    let mut p: usize = pos;
    loop
        invariant
            pos <= p <= raw.len(),
            head_from(raw@, pos as int, 0, None) == head_from(
                raw@,
                p as int,
                len,
                match auth {
                    Some(a) => Some(a@),
                    None => None,
                },
            ),
        decreases raw.len() - p,
    {
        if p >= raw.len() {
            return None;
        }
        let end = line_end_exec(raw, p);
        proof {
            lemma_line_end(raw@, p as int);
        }
        let bytes = byte_range(raw, p, end);
        let Some(line) = utf8_text(bytes.as_slice()) else { return None };
        let lc = chars_of(line.as_str());
        let h = crate::text::trim_end_chars(lc.as_slice());
        if h.len() == 0 {
            return Some((len, auth, end));
        }
        match split_once_chars(h.as_slice(), ':') {
            None => {},
            Some((k, v)) => {
                if lower_is(k.as_slice(), "content-length") {
                    let tv = trim_chars(v.as_slice());
                    match parse_uint_max(tv.as_slice(), usize::MAX as u64) {
                        Some(n) => {
                            len = n as usize;
                        },
                        None => {
                            return None;
                        },
                    }
                } else if lower_is(k.as_slice(), "authorization") {
                    let tv = trim_chars(v.as_slice());
                    auth = Some(string_of(tv.as_slice()));
                }
            },
        }
        p = end;
    }
}

/// Reads a request from its bytes.
pub fn parse_request(raw: &[u8]) -> (r: Option<Request>)
    ensures
        match r {
            Some(req) => request_of(raw@) == Some(req@),
            None => request_of(raw@) is None,
        },
{
    let end = line_end_exec(raw, 0);
    let first = byte_range(raw, 0, end);
    let line = utf8_text(first.as_slice())?;
    let lc = chars_of(line.as_str());
    let (method, after) = first_word_exec(lc.as_slice())?;
    let (path, _) = first_word_exec(after.as_slice())?;
    let (len, auth, start) = read_head(raw, end)?;
    if len > BODY_CAP || len > raw.len() - start {
        return None;
    }
    let b = byte_range(raw, start, start + len);
    let body = utf8_text(b.as_slice())?;
    Some(
        Request {
            method: string_of(method.as_slice()),
            path: string_of(path.as_slice()),
            auth,
            body,
        },
    )
}

/// Reading a request can stop: the bytes hold a whole request, or they have
/// grown past any size the app accepts (the body cap and as much again for
/// the head).
pub fn read_done(raw: &[u8]) -> (r: bool)
    ensures
        r == (request_of(raw@) is Some || raw@.len() > BODY_CAP + 65536),
{
    parse_request(raw).is_some() || raw.len() > BODY_CAP + 65536
}

} // verus!

verus! {

// ---------------------------------------------------------------------------
// Responses

/// The length of `body` in UTF-8 bytes, as `str::len` gives it.
pub open spec fn byte_len(body: Seq<char>) -> nat {
    (vstd::utf8::encode_utf8(body).len() as usize) as nat
}

/// A complete response: status line, JSON content type, the body's length
/// in bytes, `Connection: close`, then the body.
pub open spec fn response_text(status: Seq<char>, body: Seq<char>) -> Seq<char> {
    "HTTP/1.1 "@ + status + "\r\nContent-Type: application/json\r\nContent-Length: "@ + dec(
        byte_len(body),
    ) + "\r\nConnection: close\r\n\r\n"@ + body
}

pub fn response(status: &str, body: &str) -> (r: String)
    ensures
        r@ == response_text(status@, body@),
{
    let n = body.len();
    let mut v: Vec<char> = Vec::new();
    push_str(&mut v, "HTTP/1.1 ");
    push_str(&mut v, status);
    push_str(&mut v, "\r\nContent-Type: application/json\r\nContent-Length: ");
    push_dec(&mut v, n as u64);
    push_str(&mut v, "\r\nConnection: close\r\n\r\n");
    push_str(&mut v, body);
    assert(v@ =~= response_text(status@, body@));
    string_of(v.as_slice())
}

/// `{"error":"..."}`.
pub open spec fn error_body(text: Seq<char>) -> Seq<char> {
    crate::json::object_text(seq![("error"@, text)])
}

pub fn json_err(text: &str) -> (r: String)
    ensures
        r@ == error_body(text@),
{
    let mut v: Vec<char> = Vec::new();
    push_str(&mut v, "{\"error\":\"");
    let tc = chars_of(text);
    crate::json::push_escaped(&mut v, tc.as_slice());
    push_str(&mut v, "\"}");
    proof {
        reveal_strlit("{\"error\":\"");
        reveal_strlit("\"}");
        reveal_strlit("error");
        assert(crate::json::plain_text("error"@));
        crate::json::lemma_escape_plain("error"@);
    }
    assert(v@ =~= error_body(text@));
    string_of(v.as_slice())
}

/// `line` with `,"key":raw` spliced in before its closing brace; a line
/// that does not end in `}` (trailing whitespace aside) is left as it is.
pub open spec fn inject_text(line: Seq<char>, key: Seq<char>, raw: Seq<char>) -> Seq<char> {
    let tl = trim_end(line);
    if tl.len() > 0 && tl.last() == '}' {
        tl.drop_last() + ",\""@ + key + "\":"@ + raw + seq!['}']
    } else {
        line
    }
}

pub fn inject(line: &str, key: &str, raw: &str) -> (r: String)
    ensures
        r@ == inject_text(line@, key@, raw@),
{
    let lc = chars_of(line);
    let tl = crate::text::trim_end_chars(lc.as_slice());
    if tl.len() > 0 && tl[tl.len() - 1] == '}' {
        let mut v = crate::text::slice_vec(tl.as_slice(), 0, tl.len() - 1);
        assert(v@ =~= tl@.drop_last());
        push_str(&mut v, ",\"");
        push_str(&mut v, key);
        push_str(&mut v, "\":");
        push_str(&mut v, raw);
        v.push('}');
        assert(v@ =~= inject_text(line@, key@, raw@));
        string_of(v.as_slice())
    } else {
        line.to_owned()
    }
}

// ---------------------------------------------------------------------------
// Deciding what a request gets

/// What a POST needs done.
pub enum PostStep {
    /// Answer right away.
    Reply(String),
    /// Forward the body to the app unchanged, then answer by `forward_reply`.
    Forward(String),
    /// Forward this ask line, then wait for the answer to `id` until
    /// `expires` and answer by `ask_reply`.
    Ask { line: String, id: String, expires: u64 },
}

pub enum PostStepV {
    Reply(Seq<char>),
    Forward(Seq<char>),
    Ask { line: Seq<char>, id: Seq<char>, expires: u64 },
}

impl View for PostStep {
    type V = PostStepV;

    open spec fn view(&self) -> PostStepV {
        match self {
            PostStep::Reply(r) => PostStepV::Reply(r@),
            PostStep::Forward(b) => PostStepV::Forward(b@),
            PostStep::Ask { line, id, expires } => PostStepV::Ask {
                line: line@,
                id: id@,
                expires: *expires,
            },
        }
    }
}

pub open spec fn has_ask(ms: Seq<MsgV>) -> bool {
    exists|i: int| 0 <= i < ms.len() && #[trigger] ms[i] is Ask
}

/// The id an ask gets over HTTP when its sender chose none: the clock and a
/// sequence number, so two asks in one second still differ.
pub open spec fn http_id(now: u64, seq: u64) -> Seq<char> {
    "http-"@ + dec(now as nat) + seq!['-'] + dec(seq as nat)
}

/// A POST body received at `now`: garbage gets a 400; anything but an ask is
/// forwarded as it is; an ask is forwarded with an id and an expiry spliced
/// in when it has none (the `seq`-th such id), and waited for.
pub open spec fn post_of(lang: crate::i18n::Lang, body: Seq<char>, now: u64, seq: u64) -> PostStepV {
    let ms = msgs_of(lang, body, now);
    if ms.len() == 0 {
        PostStepV::Reply(response_text("400 Bad Request"@, error_body(table(lang).http_err_bad@)))
    } else if !has_ask(ms) {
        PostStepV::Forward(body)
    } else {
        let f = match crate::json::fields_of(body) {
            Some(f) => f,
            None => Seq::empty(),
        };
        let id = match get_field(f, "id"@) {
            Some(v) => v,
            None => http_id(now, seq),
        };
        let l1 = match get_field(f, "id"@) {
            Some(_) => body,
            None => inject_text(body, "id"@, seq!['"'] + escape(id) + seq!['"']),
        };
        let parsed = match get_field(f, "expires"@) {
            Some(v) => parse_max(v, u64::MAX as nat),
            None => None,
        };
        match parsed {
            Some(e) => PostStepV::Ask { line: l1, id, expires: e as u64 },
            None => {
                let e = (now + ASK_DEFAULT_TTL) as u64;
                PostStepV::Ask {
                    line: if get_field(f, "expires"@) is Some {
                        l1
                    } else {
                        inject_text(l1, "expires"@, dec(e as nat))
                    },
                    id,
                    expires: e,
                }
            },
        }
    }
}

pub fn post_step(lang: crate::i18n::Lang, body: &str, now: u64, seq: u64) -> (r: PostStep)
    requires
        now + ASK_DEFAULT_TTL <= u64::MAX,
    ensures
        r@ == post_of(lang, body@, now, seq),
{
    let ms = parse_msgs(lang, body, now);
    let ghost mv = crate::assistant::msg_views(ms@);
    if ms.len() == 0 {
        let strings = t(lang);
        let e = json_err(strings.http_err_bad);
        return PostStep::Reply(response("400 Bad Request", e.as_str()));
    }
    let mut any = false;
    let mut i: usize = 0;
    while i < ms.len()
        invariant
            i <= ms.len(),
            mv == crate::assistant::msg_views(ms@),
            any <==> exists|k: int| 0 <= k < i && #[trigger] mv[k] is Ask,
        decreases ms.len() - i,
    {
        assert(mv[i as int] == ms@[i as int]@);
        if let crate::assistant::Msg::Ask { .. } = &ms[i] {
            any = true;
        }
        i = i + 1;
    }
    if !any {
        return PostStep::Forward(body.to_owned());
    }
    let bc = chars_of(body);
    let f = match crate::json::fields_chars(bc.as_slice()) {
        Some(f) => f,
        None => Vec::new(),
    };
    let ghost fv = crate::json::pair_views(f@);
    assert(fv == match crate::json::fields_of(body@) {
        Some(f) => f,
        None => Seq::<(Seq<char>, Seq<char>)>::empty(),
    }) by {
        if crate::json::fields_of(body@) is None {
            assert(fv =~= Seq::<(Seq<char>, Seq<char>)>::empty());
        }
    }
    let given = crate::json::get_chars(&f, "id");
    let (id, l1) = match given {
        Some(v) => (string_of(v.as_slice()), body.to_owned()),
        None => {
            let mut iv: Vec<char> = Vec::new();
            push_str(&mut iv, "http-");
            push_dec(&mut iv, now);
            iv.push('-');
            push_dec(&mut iv, seq);
            assert(iv@ =~= http_id(now, seq));
            let mut q: Vec<char> = Vec::new();
            q.push('"');
            crate::json::push_escaped(&mut q, iv.as_slice());
            q.push('"');
            let id = string_of(iv.as_slice());
            let quoted = string_of(q.as_slice());
            assert(quoted@ =~= seq!['"'] + escape(id@) + seq!['"']);
            let l = inject(body, "id", quoted.as_str());
            (id, l)
        },
    };
    let ev = crate::json::get_chars(&f, "expires");
    let parsed = match &ev {
        Some(v) => parse_uint_max(v.as_slice(), u64::MAX),
        None => None,
    };
    match parsed {
        Some(e) => PostStep::Ask { line: l1, id, expires: e },
        None => {
            let e = now + ASK_DEFAULT_TTL;
            let line = if ev.is_some() {
                l1
            } else {
                let mut dv: Vec<char> = Vec::new();
                push_dec(&mut dv, e);
                let ds = string_of(dv.as_slice());
                inject(l1.as_str(), "expires", ds.as_str())
            };
            PostStep::Ask { line, id, expires: e }
        },
    }
}

/// The answer to a forwarded say or command: 200 `{"ok":true}`, or 500
/// when the app could not take it.
pub fn forward_reply(lang: crate::i18n::Lang, sent: bool) -> (r: String)
    ensures
        r@ == if sent {
            response_text("200 OK"@, "{\"ok\":true}"@)
        } else {
            response_text("500 Internal Server Error"@, error_body(table(lang).http_err_bad@))
        },
{
    if sent {
        response("200 OK", "{\"ok\":true}")
    } else {
        let e = json_err(t(lang).http_err_bad);
        response("500 Internal Server Error", e.as_str())
    }
}

/// The answer to an ask: 200 with the user's answer, or 408 with a null
/// answer when it expired first.
pub fn ask_reply(answer: Option<String>) -> (r: String)
    ensures
        r@ == match answer {
            Some(a) => response_text(
                "200 OK"@,
                crate::json::object_text(seq![("answer"@, a@)]),
            ),
            None => response_text("408 Request Timeout"@, "{\"answer\":null}"@),
        },
{
    match answer {
        Some(a) => {
            let mut v: Vec<char> = Vec::new();
            push_str(&mut v, "{\"answer\":\"");
            let ac = chars_of(a.as_str());
            crate::json::push_escaped(&mut v, ac.as_slice());
            push_str(&mut v, "\"}");
            proof {
                reveal_strlit("{\"answer\":\"");
                reveal_strlit("\"}");
                reveal_strlit("answer");
                assert(crate::json::plain_text("answer"@));
                crate::json::lemma_escape_plain("answer"@);
            }
            assert(v@ =~= crate::json::object_text(seq![("answer"@, a@)]));
            let b = string_of(v.as_slice());
            response("200 OK", b.as_str())
        },
        None => response("408 Request Timeout", "{\"answer\":null}"),
    }
}

} // verus!

verus! {

/// Where a request goes.
pub enum Route {
    /// Answer right away.
    Reply(String),
    /// `GET /`: report that the app is up, with the pet's name.
    Status,
    /// `POST /`: the body goes through `post_step`.
    Post(String),
}

pub enum RouteV {
    Reply(Seq<char>),
    Status,
    Post(Seq<char>),
}

impl View for Route {
    type V = RouteV;

    open spec fn view(&self) -> RouteV {
        match self {
            Route::Reply(r) => RouteV::Reply(r@),
            Route::Status => RouteV::Status,
            Route::Post(b) => RouteV::Post(b@),
        }
    }
}

/// A request that could not be read gets a 400; with a token set, one
/// without `Authorization: Bearer <token>` gets a 401 (without one the
/// endpoint is open); `GET /` and `POST /` are served; anything else is a
/// 404.
pub open spec fn route_of(lang: crate::i18n::Lang, req: Option<RequestV>, token: Option<Seq<char>>) -> RouteV {
    match req {
        None => RouteV::Reply(response_text("400 Bad Request"@, error_body(table(lang).http_err_bad@))),
        Some(r) => {
            let authorized = match token {
                Some(tk) => r.auth == Some("Bearer "@ + tk),
                None => true,
            };
            if !authorized {
                RouteV::Reply(
                    response_text("401 Unauthorized"@, error_body(table(lang).http_err_token@)),
                )
            } else if r.method == "GET"@ && r.path == "/"@ {
                RouteV::Status
            } else if r.method == "POST"@ && r.path == "/"@ {
                RouteV::Post(r.body)
            } else {
                RouteV::Reply(
                    response_text("404 Not Found"@, error_body(table(lang).http_err_not_found@)),
                )
            }
        },
    }
}

fn str_is(a: &String, b: &str) -> (r: bool)
    ensures
        r == (a@ == b@),
{
    crate::cli::str_eq(a.as_str(), b)
}

pub fn route(lang: crate::i18n::Lang, req: Option<Request>, token: Option<String>) -> (r: Route)
    ensures
        r@ == route_of(lang, 
            match req {
                Some(q) => Some(q@),
                None => None,
            },
            match token {
                Some(tk) => Some(tk@),
                None => None,
            },
        ),
{
    let strings = t(lang);
    let Some(req) = req else {
        let e = json_err(strings.http_err_bad);
        return Route::Reply(response("400 Bad Request", e.as_str()));
    };
    let authorized = match &token {
        Some(tk) => match &req.auth {
            Some(a) => {
                let mut v: Vec<char> = Vec::new();
                push_str(&mut v, "Bearer ");
                push_str(&mut v, tk.as_str());
                let expected = string_of(v.as_slice());
                str_is(a, expected.as_str())
            },
            None => false,
        },
        None => true,
    };
    if !authorized {
        let e = json_err(strings.http_err_token);
        return Route::Reply(response("401 Unauthorized", e.as_str()));
    }
    if str_is(&req.method, "GET") && str_is(&req.path, "/") {
        Route::Status
    } else if str_is(&req.method, "POST") && str_is(&req.path, "/") {
        Route::Post(req.body)
    } else {
        let e = json_err(strings.http_err_not_found);
        Route::Reply(response("404 Not Found", e.as_str()))
    }
}

/// The answer to `GET /`: `{"ok":true,"pet":"<name>"}`.
pub fn status_reply(pet_name: &str) -> (r: String)
    ensures
        r@ == response_text("200 OK"@, "{\"ok\":true,\"pet\":\""@ + escape(pet_name@) + "\"}"@),
{
    let mut v: Vec<char> = Vec::new();
    push_str(&mut v, "{\"ok\":true,\"pet\":\"");
    let nc = chars_of(pet_name);
    crate::json::push_escaped(&mut v, nc.as_slice());
    push_str(&mut v, "\"}");
    let b = string_of(v.as_slice());
    assert(b@ =~= "{\"ok\":true,\"pet\":\""@ + escape(pet_name@) + "\"}"@);
    response("200 OK", b.as_str())
}

/// Where to listen: `TAMA_HTTP` when set, `DEFAULT_ADDR` otherwise; `off`
/// turns the server off.
pub fn listen_addr(setting: Option<String>) -> (r: Option<String>)
    ensures
        match setting {
            None => r matches Some(a) && a@ == DEFAULT_ADDR@,
            Some(s) => if s@ == "off"@ {
                r is None
            } else {
                r matches Some(a) && a@ == s@
            },
        },
{
    match setting {
        None => Some(DEFAULT_ADDR.to_owned()),
        Some(s) => if str_is(&s, "off") {
            None
        } else {
            Some(s)
        },
    }
}

} // verus!

verus! {

proof fn lemma_members_push(ps: Seq<(Seq<char>, Seq<char>)>, k: Seq<char>, v: Seq<char>)
    requires
        ps.len() >= 1,
    ensures
        crate::json::members_text(ps.push((k, v))) == crate::json::members_text(ps) + seq![',']
            + crate::json::member_text(k, v),
    decreases ps.len(),
{
    let q = ps.push((k, v));
    assert(q[0] == ps[0]);
    assert(crate::json::members_text(q) == crate::json::member_text(q[0].0, q[0].1) + seq![',']
        + crate::json::members_text(q.drop_first()));
    if ps.len() == 1 {
        assert(q.drop_first() =~= seq![(k, v)]);
        assert(crate::json::members_text(q.drop_first()) == crate::json::member_text(k, v));
        assert(crate::json::members_text(ps) == crate::json::member_text(ps[0].0, ps[0].1));
        assert(crate::json::members_text(q) =~= crate::json::members_text(ps) + seq![',']
            + crate::json::member_text(k, v));
    } else {
        assert(q.drop_first() =~= ps.drop_first().push((k, v)));
        lemma_members_push(ps.drop_first(), k, v);
        assert(crate::json::members_text(ps) == crate::json::member_text(ps[0].0, ps[0].1) + seq![
            ',',
        ] + crate::json::members_text(ps.drop_first()));
        assert(crate::json::members_text(q) =~= crate::json::members_text(ps) + seq![',']
            + crate::json::member_text(k, v));
    }
}

proof fn lemma_readable_push(ps: Seq<(Seq<char>, Seq<char>)>, k: Seq<char>, v: Seq<char>)
    requires
        crate::json::readable_members(ps),
        k != seq![','],
        v != seq![','],
        v != seq![':'],
    ensures
        crate::json::readable_members(ps.push((k, v))),
{
    let q = ps.push((k, v));
    assert forall|i: int| 0 <= i < q.len() implies #[trigger] q[i].0 != seq![','] && q[i].1 != seq![
        ',',
    ] && q[i].1 != seq![':'] by {
        if i < ps.len() {
            assert(q[i] == ps[i]);
        } else {
            assert(q[i] == (k, v));
        }
    }
}

/// What `inject` splices in, the reader finds: a member whose key needs no
/// escaping and whose value is given quoted and escaped, spliced into a
/// written object, reads back after the object's own members — for members
/// that do not read as separators.
pub proof fn law_inject_read_back(ps: Seq<(Seq<char>, Seq<char>)>, k: Seq<char>, v: Seq<char>)
    requires
        ps.len() >= 1,
        crate::json::readable_members(ps),
        crate::json::plain_text(k),
        k != seq![','],
        v != seq![','],
        v != seq![':'],
    ensures
        crate::json::fields_of(
            inject_text(crate::json::object_text(ps), k, seq!['"'] + escape(v) + seq!['"']),
        ) == Some(ps.push((k, v))),
{
    let obj = crate::json::object_text(ps);
    let q = ps.push((k, v));
    assert(obj.last() == '}');
    assert(trim_end(obj) == obj);
    crate::json::lemma_escape_plain(k);
    lemma_members_push(ps, k, v);
    reveal_strlit(",\"");
    reveal_strlit("\":");
    assert(inject_text(obj, k, seq!['"'] + escape(v) + seq!['"']) =~= crate::json::object_text(q));
    lemma_readable_push(ps, k, v);
    crate::json::lemma_read_written_object(q);
}

} // verus!
