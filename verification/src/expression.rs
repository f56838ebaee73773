//! How the pet looks while it talks: the face per message kind and the
//! per-kind animations. The animations keep the art's footprint: success hops
//! into a reserved top row, error shakes inside a reserved side column, so an
//! animating pet never reflows the screen around it.

use vstd::prelude::*;
use crate::assistant::{string_views, Kind};
use crate::species::{push_spaces, spaces};
use crate::text::{chars_of, string_of};

verus! {

/// The face for a kind of message: info is calm, success happy, warn
/// wide-eyed (and never blinks), error sad. Eyes blink one frame in four.
pub open spec fn kind_face_of(kind: Kind, frame: int) -> (char, char) {
    let eye = if frame % 4 == 3 {
        '▄'
    } else {
        '█'
    };
    match kind {
        Kind::Info => (eye, '.'),
        Kind::Success => (eye, 'w'),
        Kind::Warn => ('O', 'o'),
        Kind::Error => (';', '~'),
    }
}

pub fn kind_face(kind: Kind, frame: usize) -> (r: (char, char))
    ensures
        r == kind_face_of(kind, frame as int),
{
    let eye = if frame % 4 == 3 {
        '▄'
    } else {
        '█'
    };
    match kind {
        Kind::Info => (eye, '.'),
        Kind::Success => (eye, 'w'),
        Kind::Warn => ('O', 'o'),
        Kind::Error => (';', '~'),
    }
}

/// The art as it shows on `frame`: on odd frames success drops its top row
/// and adds a blank one below (the hop); error shifts right on even frames
/// and left on odd ones, inside one extra column (the shake).
pub open spec fn animated(art: Seq<Seq<char>>, kind: Kind, frame: int) -> Seq<Seq<char>> {
    match kind {
        Kind::Success => if frame % 2 == 1 {
            let rest = art.drop_first();
            rest.push(
                spaces(
                    if rest.len() > 0 {
                        rest.last().len()
                    } else {
                        0
                    },
                ),
            )
        } else {
            art
        },
        Kind::Error => if frame % 2 == 0 {
            art.map_values(|l: Seq<char>| seq![' '] + l)
        } else {
            art.map_values(|l: Seq<char>| l.push(' '))
        },
        _ => art,
    }
}

pub fn animate_art(art: Vec<String>, kind: Kind, frame: usize) -> (r: Vec<String>)
    requires
        kind == Kind::Success && frame % 2 == 1 ==> art.len() > 0,
    ensures
        string_views(r@) == animated(string_views(art@), kind, frame as int),
{
    let ghost a = string_views(art@);
    match kind {
        Kind::Success => {
            if frame % 2 == 1 {
                let mut out: Vec<String> = Vec::new();
                let mut i: usize = 1;
                while i < art.len()
                    invariant
                        1 <= i <= art.len(),
                        a == string_views(art@),
                        string_views(out@) == a.subrange(1, i as int),
                    decreases art.len() - i,
                {
                    let ghost ov = string_views(out@);
                    out.push(art[i].as_str().to_owned());
                    assert(string_views(out@) =~= ov.push(a[i as int]));
                    assert(a.subrange(1, i + 1) =~= a.subrange(1, i as int).push(a[i as int]));
                    i = i + 1;
                }
                assert(a.subrange(1, art.len() as int) =~= a.drop_first());
                let w = if out.len() > 0 {
                    let last = chars_of(out[out.len() - 1].as_str());
                    last.len()
                } else {
                    0
                };
                let mut blank: Vec<char> = Vec::new();
                push_spaces(&mut blank, w);
                let ghost ov = string_views(out@);
                out.push(string_of(blank.as_slice()));
                assert(blank@ =~= spaces(w as nat));
                assert(string_views(out@) =~= ov.push(spaces(w as nat)));
                out
            } else {
                art
            }
        },
        Kind::Error => {
            let left = frame % 2 == 0;
            let mut out: Vec<String> = Vec::new();
            let mut i: usize = 0;
            while i < art.len()
                invariant
                    i <= art.len(),
                    a == string_views(art@),
                    left == (frame % 2 == 0),
                    string_views(out@) == animated(a.take(i as int), Kind::Error, frame as int),
                decreases art.len() - i,
            {
                let mut v: Vec<char> = Vec::new();
                if left {
                    v.push(' ');
                    crate::text::push_str(&mut v, art[i].as_str());
                } else {
                    crate::text::push_str(&mut v, art[i].as_str());
                    v.push(' ');
                }
                let ghost ov = string_views(out@);
                out.push(string_of(v.as_slice()));
                assert(string_views(out@) =~= ov.push(v@));
                if left {
                    assert(v@ =~= seq![' '] + a[i as int]);
                    assert(a.take(i + 1).map_values(|l: Seq<char>| seq![' '] + l) =~= a.take(
                        i as int,
                    ).map_values(|l: Seq<char>| seq![' '] + l).push(v@));
                } else {
                    assert(v@ =~= a[i as int].push(' '));
                    assert(a.take(i + 1).map_values(|l: Seq<char>| l.push(' ')) =~= a.take(
                        i as int,
                    ).map_values(|l: Seq<char>| l.push(' ')).push(v@));
                }
                assert(string_views(out@) =~= animated(a.take(i + 1), Kind::Error, frame as int));
                i = i + 1;
            }
            assert(a.take(art.len() as int) =~= a);
            out
        },
        _ => art,
    }
}

/// The one-line face as it shows on `frame`: error shakes inside one extra
/// column, the rest stay still.
pub open spec fn animated_tiny(face: Seq<char>, kind: Kind, frame: int) -> Seq<char> {
    if kind == Kind::Error {
        if frame % 2 == 0 {
            seq![' '] + face
        } else {
            face.push(' ')
        }
    } else {
        face
    }
}

pub fn animate_tiny(face: String, kind: Kind, frame: usize) -> (r: String)
    ensures
        r@ == animated_tiny(face@, kind, frame as int),
{
    if kind == Kind::Error {
        let mut v: Vec<char> = Vec::new();
        if frame % 2 == 0 {
            v.push(' ');
            crate::text::push_str(&mut v, face.as_str());
            assert(v@ =~= seq![' '] + face@);
        } else {
            crate::text::push_str(&mut v, face.as_str());
            v.push(' ');
            assert(v@ =~= face@.push(' '));
        }
        string_of(v.as_slice())
    } else {
        face
    }
}

/// Every line as wide as `w`.
pub open spec fn uniform(art: Seq<Seq<char>>, w: nat) -> bool {
    forall|i: int| 0 <= i < art.len() ==> (#[trigger] art[i]).len() == w
}

/// The animations never reflow the screen: art of at least two lines, all
/// of one width, keeps its number of lines on every frame and stays of one
/// width, the same on every frame (one column wider for the shake).
pub proof fn law_animation_keeps_footprint(art: Seq<Seq<char>>, w: nat, kind: Kind, frame: int)
    requires
        art.len() >= 2,
        uniform(art, w),
    ensures
        animated(art, kind, frame).len() == art.len(),
        uniform(
            animated(art, kind, frame),
            if kind == Kind::Error {
                w + 1
            } else {
                w
            },
        ),
{
    let r = animated(art, kind, frame);
    if kind == Kind::Success && frame % 2 == 1 {
        let rest = art.drop_first();
        assert(rest.last() == art[art.len() - 1]);
        assert forall|i: int| 0 <= i < r.len() implies (#[trigger] r[i]).len() == w by {
            if i < rest.len() {
                assert(r[i] == art[i + 1]);
            }
        }
    }
}

} // verus!
