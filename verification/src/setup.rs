//! The first-run flows: picking a species from a grid and typing the pet's
//! name. The program runs their loops (drawing, reading keys, ticking the
//! animation); what each key does and what each frame shows is here.

use vstd::prelude::*;
use crate::i18n::{t, table, Lang};
use crate::layout::{add_seg, char_count, empty_line, line_texts, lines_view, spaces, text, text_of};
use crate::line::{line_view, plain, tinted, Color, Line};
use crate::pet::Mood;
use crate::screen::{as_enter, enter_key, grid_next, grid_step, Key};
use crate::species::{render_art, render_tiny, ArtSize, Species, SPECIES};
use crate::text::{is_ws, push_dec, push_str, trim};

verus! {

/// Width of one cell of the species grid.
pub const CELL: usize = 15;

/// Longest name the prompt takes.
pub const NAME_MAX: usize = 12;

/// Grid columns for an inner width: as many cells as fit, one to five.
pub open spec fn picker_cols_of(iw: nat) -> nat {
    let c = iw / 15;
    if c < 1 {
        1
    } else if c > 5 {
        5
    } else {
        c
    }
}

pub fn picker_cols(iw: usize) -> (r: usize)
    ensures
        r == picker_cols_of(iw as nat),
        1 <= r <= 5,
{
    let c = iw / CELL;
    if c < 1 {
        1
    } else if c > 5 {
        5
    } else {
        c
    }
}

/// What a key does in the species picker.
pub enum PickStep {
    /// Keep picking, with this cell highlighted.
    Move(usize),
    /// The highlighted species is chosen.
    Chosen(Species),
    /// Leave without changing the species.
    Cancelled,
}

/// Enter or space chooses, Esc cancels, the arrows and `hjkl` move through
/// the grid.
pub fn picker_key(idx: usize, cols: usize, k: Key) -> (r: PickStep)
    requires
        idx < 10,
        1 <= cols <= 5,
    ensures
        (enter_key(k) == Key::Enter || k == Key::Char(' ')) ==> r == PickStep::Chosen(SPECIES@[idx as int]),
        k == Key::Esc ==> r == PickStep::Cancelled,
        !(enter_key(k) == Key::Enter || k == Key::Char(' ') || k == Key::Esc) ==> r == PickStep::Move(
            grid_next(idx as int, 10, cols as int, k) as usize,
        ),
        r matches PickStep::Move(j) ==> j < 10,
{
    if as_enter(k) == Key::Enter || k == Key::Char(' ') {
        PickStep::Chosen(SPECIES[idx])
    } else if k == Key::Esc {
        PickStep::Cancelled
    } else {
        proof {
            crate::screen::law_grid_stays_inside(idx as int, 10, cols as int, k);
        }
        PickStep::Move(grid_step(idx, 10, cols, k))
    }
}

/// The picker's starting cell: the current species.
pub fn species_cell(s: Species) -> (r: usize)
    ensures
        r < 10,
        SPECIES@[r as int] == s,
{
    let mut i: usize = 0;
    while i < 10
        invariant
            i <= 10,
            forall|j: int| 0 <= j < i ==> SPECIES@[j] != s,
        decreases 10 - i,
    {
        if SPECIES[i] == s {
            return i;
        }
        i = i + 1;
    }
    assert(SPECIES@[0] == Species::Cat);
    assert(SPECIES@[3] == Species::Dragon);
    match s {
        Species::Cat => assert(SPECIES@[0] == s),
        Species::Dog => assert(SPECIES@[1] == s),
        Species::Bunny => assert(SPECIES@[2] == s),
        Species::Dragon => assert(SPECIES@[3] == s),
        Species::Phantom => assert(SPECIES@[4] == s),
        Species::Frog => assert(SPECIES@[5] == s),
        Species::Owl => assert(SPECIES@[6] == s),
        Species::Fox => assert(SPECIES@[7] == s),
        Species::Penguin => assert(SPECIES@[8] == s),
        Species::Octopus => assert(SPECIES@[9] == s),
    }
    0
}

/// Text centered in a cell of `w` characters, the odd space on the right;
/// wider text is left whole.
pub open spec fn centered_cell(s: Seq<char>, w: nat) -> Seq<char> {
    if s.len() >= w {
        s
    } else {
        let l = ((w - s.len()) as nat / 2) as nat;
        crate::species::spaces(l) + s + crate::species::spaces((w - s.len() - l) as nat)
    }
}

fn cell_text(s: &str, w: usize) -> (r: String)
    ensures
        r@ == centered_cell(s@, w as nat),
{
    let n = char_count(s);
    let mut v: Vec<char> = Vec::new();
    if n >= w {
        push_str(&mut v, s);
    } else {
        let l = (w - n) / 2;
        crate::species::push_spaces(&mut v, l);
        push_str(&mut v, s);
        crate::species::push_spaces(&mut v, w - n - l);
    }
    assert(v@ =~= centered_cell(s@, w as nat));
    text(v)
}


/// The face in cell `i` of the picker grid: happy, and animated only when
/// highlighted.
pub open spec fn cell_face(i: int, idx: int, frame: usize) -> Seq<char> {
    let fr: usize = if i == idx {
        frame
    } else {
        0
    };
    crate::species::put_face(
        crate::species::tiny_text(SPECIES@[i]),
        crate::pet::face_of(Mood::Happy, fr % 4 == 3).0,
        crate::pet::face_of(Mood::Happy, fr % 4 == 3).1,
    )
}

/// The faces of cells `start..end`, each centered in its cell.
pub open spec fn faces_text(start: int, end: int, idx: int, frame: usize) -> Seq<char>
    decreases end - start,
{
    if end <= start {
        Seq::empty()
    } else {
        faces_text(start, end - 1, idx, frame) + centered_cell(
            cell_face(end - 1, idx, frame),
            CELL as nat,
        )
    }
}

/// The names of cells `start..end`, each centered in its cell.
pub open spec fn names_text(lang: crate::i18n::Lang, start: int, end: int) -> Seq<char>
    decreases end - start,
{
    if end <= start {
        Seq::empty()
    } else {
        names_text(lang, start, end - 1) + centered_cell(
            table(lang).species_names[crate::i18n::species_ix(SPECIES@[end - 1])]@,
            CELL as nat,
        )
    }
}

/// Row group `g` of the grid (`cols` cells wide): faces, names, a blank.
pub open spec fn grid_group(lang: crate::i18n::Lang, g: int, cols: int, idx: int, frame: usize) -> Seq<Seq<char>> {
    let start = g * cols;
    let end = if start + cols < 10 {
        start + cols
    } else {
        10
    };
    seq![faces_text(start, end, idx, frame), names_text(lang, start, end), Seq::<char>::empty()]
}

/// The first `k` row groups of the grid.
pub open spec fn grid_rows(lang: crate::i18n::Lang, k: nat, cols: int, idx: int, frame: usize) -> Seq<Seq<char>>
    decreases k,
{
    if k == 0 {
        Seq::empty()
    } else {
        grid_rows(lang, (k - 1) as nat, cols, idx, frame) + grid_group(lang, k - 1, cols, idx, frame)
    }
}

/// The picker's title row: the prompt, the highlighted species' name and
/// its position.
pub open spec fn picker_title_text(lang: crate::i18n::Lang, idx: int) -> Seq<char> {
    table(lang).picker_title@ + seq![' ', ' '] + table(lang).species_names[crate::i18n::species_ix(
        SPECIES@[idx],
    )]@ + seq![' ', '('] + crate::text::dec((idx + 1) as nat) + seq!['/'] + crate::text::dec(10)
        + seq![')']
}

/// The picker screen's rows: the title, a blank, the grid, and the
/// highlighted sprite when the terminal has room for it.
pub open spec fn picker_texts(lang: crate::i18n::Lang, idx: int, frame: usize, iw: nat, ih: nat) -> Seq<Seq<char>> {
    let cols = picker_cols_of(iw) as int;
    let groups = ((10 + cols - 1) / cols) as nat;
    let body = seq![picker_title_text(lang, idx), Seq::<char>::empty()] + grid_rows(lang, 
        groups,
        cols,
        idx,
        frame,
    );
    let prev = crate::species::art_of(SPECIES@[idx], Mood::Happy, frame, ArtSize::Small);
    let pw = if prev.len() > 0 {
        prev[0].len()
    } else {
        0
    };
    if ih > body.len() && ih - body.len() > prev.len() && iw >= pw {
        body + prev
    } else {
        body
    }
}

/// The picker screen: title with the highlighted species and its position,
/// the grid of faces and names (the highlighted one animated, in cyan), and
/// the highlighted sprite below when the terminal has room.
pub fn picker_content(lang: crate::i18n::Lang, idx: usize, frame: usize, iw: usize, ih: usize) -> (r: Vec<Line>)
    requires
        idx < 10,
    ensures
        line_texts(lines_view(r@)) == picker_texts(lang, idx as int, frame, iw as nat, ih as nat),
{
    let strings = t(lang);
    let cols = picker_cols(iw);
    let species = SPECIES[idx];
    let mut title = empty_line();
    add_seg(&mut title, strings.picker_title.to_string(), Some(Color::Magenta));
    let mut where_: Vec<char> = Vec::new();
    where_.push(' ');
    where_.push(' ');
    push_str(&mut where_, crate::i18n::species_name(lang, species));
    where_.push(' ');
    where_.push('(');
    push_dec(&mut where_, (idx + 1) as u64);
    where_.push('/');
    push_dec(&mut where_, 10);
    where_.push(')');
    add_seg(&mut title, text(where_), Some(Color::DarkGrey));
    proof {
        assert(text_of(line_view(title)) =~= picker_title_text(lang, idx as int));
    }
    let mut content: Vec<Line> = Vec::new();
    content.push(title);
    content.push(empty_line());
    let ghost head = seq![picker_title_text(lang, idx as int), Seq::<char>::empty()];
    assert(line_texts(lines_view(content@)) =~= head);
    let mut row_start: usize = 0;
    let ghost mut g: nat = 0;
    while row_start < 10
        invariant
            1 <= cols <= 5,
            cols == picker_cols_of(iw as nat),
            idx < 10,
            row_start == g * cols,
            row_start <= 15,
            g <= 10,
            row_start < 10 ==> g < 10,
            g == 0 || (g - 1) * cols < 10,
            line_texts(lines_view(content@)) == head + grid_rows(lang, g, cols as int, idx as int, frame),
        decreases 15 - row_start,
    {
        let mut faces = empty_line();
        let mut names = empty_line();
        let end = if row_start + cols < 10 {
            row_start + cols
        } else {
            10
        };
        let mut i = row_start;
        while i < end
            invariant
                row_start <= i <= end <= 10,
                idx < 10,
                text_of(line_view(faces)) == faces_text(row_start as int, i as int, idx as int, frame),
                text_of(line_view(names)) == names_text(lang, row_start as int, i as int),
            decreases end - i,
        {
            let sp = SPECIES[i];
            let selected = i == idx;
            let face = render_tiny(
                sp,
                Mood::Happy,
                if selected {
                    frame
                } else {
                    0
                },
            );
            add_seg(
                &mut faces,
                cell_text(face.as_str(), CELL),
                Some(
                    if selected {
                        Color::Cyan
                    } else {
                        Color::Green
                    },
                ),
            );
            add_seg(
                &mut names,
                cell_text(crate::i18n::species_name(lang, sp), CELL),
                Some(
                    if selected {
                        Color::Cyan
                    } else {
                        Color::DarkGrey
                    },
                ),
            );
            i = i + 1;
        }
        let ghost before = line_texts(lines_view(content@));
        content.push(faces);
        content.push(names);
        content.push(empty_line());
        proof {
            assert(line_texts(lines_view(content@)) =~= before + grid_group(lang, 
                g as int,
                cols as int,
                idx as int,
                frame,
            ));
            assert(grid_rows(lang, g + 1, cols as int, idx as int, frame) == grid_rows(lang, 
                g,
                cols as int,
                idx as int,
                frame,
            ) + grid_group(lang, g as int, cols as int, idx as int, frame));
            assert(head + grid_rows(lang, g + 1, cols as int, idx as int, frame) =~= before + grid_group(lang, 
                g as int,
                cols as int,
                idx as int,
                frame,
            ));
        }
        row_start = row_start + cols;
        proof {
            g = g + 1;
            assert(row_start == g * cols) by (nonlinear_arith)
                requires
                    row_start == (g - 1) * cols + cols,
            ;
            if row_start < 10 {
                assert(g < 10) by (nonlinear_arith)
                    requires
                        row_start == g * cols,
                        row_start < 10,
                        cols >= 1,
                ;
            }
        }
    }
    proof {
        let c = cols as int;
        assert(g == (10 + c - 1) / c) by (nonlinear_arith)
            requires
                g * c >= 10,
                g == 0 || (g - 1) * c < 10,
                1 <= c <= 5,
        ;
    }
    let preview = render_art(species, Mood::Happy, frame, ArtSize::Small);
    let ghost pv = crate::assistant::string_views(preview@);
    let pw = if preview.len() > 0 {
        char_count(preview[0].as_str())
    } else {
        0
    };
    proof {
        if preview.len() > 0 {
            assert(pv[0] == preview@[0]@);
        }
    }
    if ih > content.len() && ih - content.len() > preview.len() && iw >= pw {
        let ghost body = line_texts(lines_view(content@));
        let mut k: usize = 0;
        while k < preview.len()
            invariant
                k <= preview.len(),
                pv == crate::assistant::string_views(preview@),
                line_texts(lines_view(content@)) == body + pv.take(k as int),
            decreases preview.len() - k,
        {
            let ghost before = line_texts(lines_view(content@));
            content.push(plain(preview[k].clone()));
            proof {
                assert(pv[k as int] == preview@[k as int]@);
                crate::layout::lemma_single(seq![(preview@[k as int]@, None::<Color>, None::<Color>)]);
                assert(line_texts(lines_view(content@)) =~= before.push(pv[k as int]));
                assert(pv.take(k + 1) =~= pv.take(k as int).push(pv[k as int]));
            }
            k = k + 1;
        }
        assert(pv.take(preview.len() as int) =~= pv);
    }
    content
}

// ---------------------------------------------------------------------------
// The name prompt

/// `char::is_alphanumeric`: the Unicode Alphabetic or Numeric property.
pub uninterp spec fn alnum(c: char) -> bool;

/// ASCII letters and digits.
pub open spec fn ascii_alnum(c: char) -> bool {
    ('a' <= c && c <= 'z') || ('A' <= c && c <= 'Z') || ('0' <= c && c <= '9')
}

/// std `char::is_alphanumeric`. Its result is named `alnum`; for ASCII
/// characters the documentation is plain: letters and digits, nothing else.
#[verifier::external_body]
fn is_alphanumeric(c: char) -> (r: bool)
    ensures
        r == alnum(c),
        (c as u32) < 0x80 ==> (r == ascii_alnum(c)),
{
    c.is_alphanumeric()
}

/// What the name may hold: letters, digits (for ASCII: `a-z`, `A-Z`,
/// `0-9`), spaces and `-`, which keeps the `key=value` state file
/// unambiguous.
pub open spec fn name_char(c: char) -> bool {
    c == ' ' || c == '-' || (alnum(c) && ((c as u32) < 0x80 ==> ascii_alnum(c)))
}

pub open spec fn name_chars_ok(name: Seq<char>) -> bool {
    forall|i: int| 0 <= i < name.len() ==> name_char(#[trigger] name[i])
}

/// The name as entered: trimmed, or the default name when blank.
pub open spec fn entered_name(lang: crate::i18n::Lang, buf: Seq<char>) -> Seq<char> {
    if trim(buf).len() == 0 {
        table(lang).default_name@
    } else {
        trim(buf)
    }
}

pub proof fn lemma_name_chars_savable(name: Seq<char>)
    requires
        name_chars_ok(name),
    ensures
        crate::state::savable_name(name),
{
    assert forall|i: int| 0 <= i < name.len() implies name[i] != '\n' && name[i] != '\r' by {
        assert(name_char(name[i]));
    }
    assert(!name.contains('\n'));
    if name.len() > 0 {
        assert(name.last() == name[name.len() - 1]);
    }
}

proof fn lemma_trim_start_ok(s: Seq<char>)
    requires
        name_chars_ok(s),
    ensures
        name_chars_ok(crate::text::trim_start(s)),
    decreases s.len(),
{
    if s.len() > 0 && is_ws(s[0]) {
        assert forall|i: int| 0 <= i < s.drop_first().len() implies name_char(
            #[trigger] s.drop_first()[i],
        ) by {
            assert(s.drop_first()[i] == s[i + 1]);
        }
        lemma_trim_start_ok(s.drop_first());
    }
}

proof fn lemma_trim_end_ok(s: Seq<char>)
    requires
        name_chars_ok(s),
    ensures
        name_chars_ok(crate::text::trim_end(s)),
    decreases s.len(),
{
    if s.len() > 0 && is_ws(s.last()) {
        assert forall|i: int| 0 <= i < s.drop_last().len() implies name_char(
            #[trigger] s.drop_last()[i],
        ) by {
            assert(s.drop_last()[i] == s[i]);
        }
        lemma_trim_end_ok(s.drop_last());
    }
}

/// What a key does at the name prompt: Enter finishes with the entered
/// name; Backspace deletes the last character; a letter, digit, space or
/// `-` is typed while the name is shorter than `NAME_MAX`; other keys do
/// nothing. A name typed this way is always one the state file keeps
/// intact.
pub fn name_key(lang: crate::i18n::Lang, buf: &mut Vec<char>, k: Key) -> (done: Option<String>)
    ensures
        enter_key(k) == Key::Enter ==> (done matches Some(n) && n@ == entered_name(lang, old(buf)@)) && final(buf)@
            == old(buf)@,
        k == Key::Backspace ==> done is None && final(buf)@ == if old(buf)@.len() > 0 {
            old(buf)@.drop_last()
        } else {
            old(buf)@
        },
        k is Char ==> done is None && final(buf)@ == if name_char(k->0) && old(buf)@.len()
            < NAME_MAX {
            old(buf)@.push(k->0)
        } else {
            old(buf)@
        },
        !(enter_key(k) == Key::Enter || k == Key::Backspace || k is Char) ==> done is None && final(buf)@
            == old(buf)@,
        name_chars_ok(old(buf)@) ==> name_chars_ok(final(buf)@),
        name_chars_ok(old(buf)@) && done is Some ==> crate::state::savable_name(done.unwrap()@),
{
    match as_enter(k) {
        Key::Enter => {
            let trimmed = crate::text::trim_chars(buf.as_slice());
            let name = if trimmed.len() == 0 {
                t(lang).default_name.to_string()
            } else {
                text(trimmed)
            };
            proof {
                if trim(old(buf)@).len() == 0 {
                    reveal_strlit("tama");
                    assert(table(lang).default_name@ =~= seq!['t', 'a', 'm', 'a']);
                    assert(!table(lang).default_name@.contains('\n'));
                } else if name_chars_ok(old(buf)@) {
                    lemma_trim_start_ok(old(buf)@);
                    lemma_trim_end_ok(crate::text::trim_start(old(buf)@));
                    lemma_name_chars_savable(trim(old(buf)@));
                }
            }
            Some(name)
        },
        Key::Backspace => {
            if buf.len() > 0 {
                buf.pop();
            }
            None
        },
        Key::Char(c) => {
            if (is_alphanumeric(c) || c == ' ' || c == '-') && buf.len() < NAME_MAX {
                buf.push(c);
            }
            None
        },
        _ => None,
    }
}

/// The name prompt: the question, the chosen species' sprite, and the name
/// typed so far with its caret.
pub fn name_content(lang: crate::i18n::Lang, species: Species, buf: &Vec<char>, frame: usize) -> (r: Vec<Line>)
    ensures
        line_texts(lines_view(r@)) == seq![table(lang).name_prompt@, Seq::<char>::empty()]
            + crate::species::art_of(species, Mood::Happy, frame, ArtSize::Small) + seq![
            Seq::<char>::empty(),
            seq!['>', ' '] + buf@ + seq!['_'],
        ],
        r.len() >= 4,
        text_of(line_view(r@[r.len() - 1])) == seq!['>', ' '] + buf@ + seq!['_'],
{
    let strings = t(lang);
    let mut content: Vec<Line> = Vec::new();
    let first = tinted(strings.name_prompt.to_string(), Color::Magenta);
    proof {
        crate::layout::lemma_single(line_view(first));
    }
    content.push(first);
    content.push(empty_line());
    let ghost head = seq![table(lang).name_prompt@, Seq::<char>::empty()];
    assert(line_texts(lines_view(content@)) =~= head);
    let art = render_art(species, Mood::Happy, frame, ArtSize::Small);
    let ghost av = crate::assistant::string_views(art@);
    let mut k: usize = 0;
    while k < art.len()
        invariant
            k <= art.len(),
            content.len() == 2 + k,
            av == crate::assistant::string_views(art@),
            line_texts(lines_view(content@)) == head + av.take(k as int),
        decreases art.len() - k,
    {
        let ghost before = line_texts(lines_view(content@));
        let l = plain(art[k].clone());
        proof {
            crate::layout::lemma_single(line_view(l));
            assert(av[k as int] == art@[k as int]@);
        }
        content.push(l);
        proof {
            assert(line_texts(lines_view(content@)) =~= before.push(av[k as int]));
            assert(av.take(k + 1) =~= av.take(k as int).push(av[k as int]));
        }
        k = k + 1;
    }
    proof {
        assert(av.take(art.len() as int) =~= av);
    }
    let ghost mid = line_texts(lines_view(content@));
    content.push(empty_line());
    let mut v: Vec<char> = Vec::new();
    v.push('>');
    v.push(' ');
    crate::text::push_all(&mut v, buf.as_slice());
    v.push('_');
    let ghost vv = v@;
    let last = tinted(text(v), Color::Cyan);
    proof {
        crate::layout::lemma_single(line_view(last));
        assert(vv =~= seq!['>', ' '] + buf@ + seq!['_']);
    }
    content.push(last);
    proof {
        assert(line_texts(lines_view(content@)) =~= mid.push(Seq::<char>::empty()).push(vv));
    }
    content
}

/// The sprite gallery: for every species its name, the large sprite, the
/// small one and the one-line face, as the lines to print.
pub fn gallery_lines(lang: crate::i18n::Lang) -> (r: Vec<String>)
    ensures
        crate::assistant::string_views(r@) == gallery_text(lang, 10),
{
    let strings = t(lang);
    let mut out: Vec<String> = Vec::new();
    let mut i: usize = 0;
    assert(crate::assistant::string_views(out@) =~= gallery_text(lang, 0));
    while i < 10
        invariant
            i <= 10,
            strings == table(lang),
            crate::assistant::string_views(out@) == gallery_text(lang, i as nat),
        decreases 10 - i,
    {
        let s = SPECIES[i];
        let ghost base = crate::assistant::string_views(out@);
        let name = crate::i18n::species_name(lang, s);
        out.push(String::new());
        let mut h: Vec<char> = Vec::new();
        push_str(&mut h, "== ");
        push_str(&mut h, name);
        push_str(&mut h, " ==");
        out.push(text(h));
        let ghost head = seq![Seq::<char>::empty(), "== "@ + name@ + " =="@];
        assert(crate::assistant::string_views(out@) =~= base + head);
        let large = render_art(s, Mood::Happy, 0, ArtSize::Large);
        let ghost lv = crate::assistant::string_views(large@);
        let mut k: usize = 0;
        while k < large.len()
            invariant
                k <= large.len(),
                lv == crate::assistant::string_views(large@),
                crate::assistant::string_views(out@) == base + head + indented(lv.take(k as int)),
            decreases large.len() - k,
        {
            let ghost before = crate::assistant::string_views(out@);
            let mut l: Vec<char> = Vec::new();
            push_str(&mut l, "  ");
            push_str(&mut l, large[k].as_str());
            out.push(text(l));
            proof {
                assert(lv[k as int] == large@[k as int]@);
                assert(indented(lv.take(k + 1)) =~= indented(lv.take(k as int)).push(
                    "  "@ + lv[k as int],
                ));
                assert(crate::assistant::string_views(out@) =~= before.push("  "@ + lv[k as int]));
            }
            k = k + 1;
        }
        assert(lv.take(large.len() as int) =~= lv);
        out.push(String::new());
        let mut g: Vec<char> = Vec::new();
        push_str(&mut g, "  ");
        push_str(&mut g, strings.gallery_small);
        out.push(text(g));
        let ghost mid = base + head + indented(lv) + seq![
            Seq::<char>::empty(),
            "  "@ + table(lang).gallery_small@,
        ];
        assert(crate::assistant::string_views(out@) =~= mid);
        let small = render_art(s, Mood::Happy, 0, ArtSize::Small);
        let ghost sv = crate::assistant::string_views(small@);
        let mut k: usize = 0;
        while k < small.len()
            invariant
                k <= small.len(),
                sv == crate::assistant::string_views(small@),
                crate::assistant::string_views(out@) == mid + indented(sv.take(k as int)),
            decreases small.len() - k,
        {
            let ghost before = crate::assistant::string_views(out@);
            let mut l: Vec<char> = Vec::new();
            push_str(&mut l, "  ");
            push_str(&mut l, small[k].as_str());
            out.push(text(l));
            proof {
                assert(sv[k as int] == small@[k as int]@);
                assert(indented(sv.take(k + 1)) =~= indented(sv.take(k as int)).push(
                    "  "@ + sv[k as int],
                ));
                assert(crate::assistant::string_views(out@) =~= before.push("  "@ + sv[k as int]));
            }
            k = k + 1;
        }
        assert(sv.take(small.len() as int) =~= sv);
        out.push(String::new());
        let mut m: Vec<char> = Vec::new();
        push_str(&mut m, "  ");
        push_str(&mut m, strings.gallery_mini);
        m.push(' ');
        let tiny = render_tiny(s, Mood::Happy, 0);
        push_str(&mut m, tiny.as_str());
        out.push(text(m));
        proof {
            assert(0usize % 4 != 3);
            let last = "  "@ + table(lang).gallery_mini@ + seq![' '] + crate::species::put_face(
                crate::species::tiny_text(s),
                crate::pet::face_of(Mood::Happy, false).0,
                crate::pet::face_of(Mood::Happy, false).1,
            );
            assert(m@ =~= last);
            assert(crate::assistant::string_views(out@) =~= mid + indented(sv) + seq![
                Seq::<char>::empty(),
                last,
            ]);
            assert(lv == crate::species::art_of(s, Mood::Happy, 0, ArtSize::Large));
            assert(sv == crate::species::art_of(s, Mood::Happy, 0, ArtSize::Small));
            assert(name@ == table(lang).species_names[crate::i18n::species_ix(s)]@);
            assert(SPECIES@[i as int] == s);
            assert(crate::assistant::string_views(out@) =~= base + gallery_block(lang, s));
        }
        i = i + 1;
    }
    out
}

/// Lines indented by two spaces.
pub open spec fn indented(ls: Seq<Seq<char>>) -> Seq<Seq<char>> {
    ls.map_values(|l: Seq<char>| "  "@ + l)
}

/// The gallery's block for one species: a blank line, its name as a
/// heading, the large sprite, then the compact one and the one-row face,
/// each under its label.
pub open spec fn gallery_block(lang: crate::i18n::Lang, s: Species) -> Seq<Seq<char>> {
    seq![
        Seq::<char>::empty(),
        "== "@ + table(lang).species_names[crate::i18n::species_ix(s)]@ + " =="@,
    ] + indented(crate::species::art_of(s, Mood::Happy, 0, ArtSize::Large)) + seq![
        Seq::<char>::empty(),
        "  "@ + table(lang).gallery_small@,
    ] + indented(crate::species::art_of(s, Mood::Happy, 0, ArtSize::Small)) + seq![
        Seq::<char>::empty(),
        "  "@ + table(lang).gallery_mini@ + seq![' '] + crate::species::put_face(
            crate::species::tiny_text(s),
            crate::pet::face_of(Mood::Happy, false).0,
            crate::pet::face_of(Mood::Happy, false).1,
        ),
    ]
}

/// The gallery of the first `n` species, in order.
pub open spec fn gallery_text(lang: crate::i18n::Lang, n: nat) -> Seq<Seq<char>>
    decreases n,
{
    if n == 0 {
        Seq::empty()
    } else {
        gallery_text(lang, (n - 1) as nat) + gallery_block(lang, SPECIES@[n - 1])
    }
}

} // verus!
