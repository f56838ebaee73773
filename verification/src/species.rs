//! The species and their sprites: pixel/LCD art in two sizes plus a one-line
//! face, each a template where `%` marks an eye and `&` the mouth, so one
//! template serves every mood.

use vstd::prelude::*;
use crate::pet::{face_of, Mood};
use crate::text::{chars_of, lines, lines_of, push_all, push_str, string_of, views};
use crate::assistant::string_views;

verus! {

#[derive(Debug, Clone, Copy, PartialEq, Eq, Structural)]
pub enum Species {
    Cat,
    Dog,
    Bunny,
    Dragon,
    Phantom,
    Frog,
    Owl,
    Fox,
    Penguin,
    Octopus,
}

/// Every species, in declaration order.
pub const SPECIES: [Species; 10] = [
    Species::Cat,
    Species::Dog,
    Species::Bunny,
    Species::Dragon,
    Species::Phantom,
    Species::Frog,
    Species::Owl,
    Species::Fox,
    Species::Penguin,
    Species::Octopus,
];

#[derive(Debug, Clone, Copy, PartialEq, Eq, Structural)]
pub enum ArtSize {
    Large,
    Small,
}

/// The cat sprite, large.
pub const ART_CAT_LARGE: &'static str = r#"
    ▄█▄         ▄█▄
   █▀ ▀█▄▄▄▄▄▄▄█▀ ▀█
  █▀  ▀▀  ▀▀▀  ▀▀  ▀█
 =█    %       %    █=
 =█                 █=
  █        ▄        █
  ▀█▄     ▀&▀     ▄█▀
   ▄█▀▀▀▀▀▀▀▀▀▀▀▀▀█▄
  █▀ ▀▀▄  ▀▀▀  ▄▀▀ ▀█
  █▄▄▄▄█ █▄▄▄█ █▄▄▄▄█
   ▀▀▀▀▀▀▀▀▀▀▀▀▀▀▀▀▀"#;

/// The cat sprite, small.
pub const ART_CAT_SMALL: &'static str = r#"
 ▄█▄     ▄█▄
█▀ ▀█▄▄▄█▀ ▀█
█ ▀ %   % ▀ █
█    ▀&▀    █
▀█▄       ▄█▀
  ▀▀▀▀▀▀▀▀▀"#;

/// The dog sprite, large.
pub const ART_DOG_LARGE: &'static str = r#"
    ▄▄▄▀▀▀▀▀▀▀▀▀▀▀▄▄▄
   ██▀ ▄▄▄▄▄▄▄▄▄▄▄ ▀██
   ██  █         █  ██
   ██  █  %   %  █  ██
   ██  █         █  ██
   ▀██ █  ▄▄▄▄▄  █ ██▀
     ▀ █▄█ ▄▄▄ █▄█ ▀
       ██  ▀█▀  ██
       ██   &   ██
        █▄▄▄▄▄▄▄█
        ▄█▀▀▀▀▀█▄
        █ ▄▄ ▄▄ █
        ▀▀▀▀▀▀▀▀▀"#;

/// The dog sprite, small.
pub const ART_DOG_SMALL: &'static str = r#"
 ▄▄▀▀▀▀▀▀▀▄▄
██  %   %  ██
██    ▄    ██
▀██  ▀█▀  ██▀
  █   &   █
  ▀▄▄▄▄▄▄▄▀"#;

/// The bunny sprite, large.
pub const ART_BUNNY_LARGE: &'static str = r#"
     ▄█▀█▄     ▄█▀█▄
     █ ▀ █     █ ▀ █
     █ ▀ █     █ ▀ █
     █ ▀ █     █ ▀ █
     ▀█▄██▄▄▄▄▄██▄█▀
     ▄▀           ▀▄
   =█   %       %   █=
   =█               █=
    █       ▄       █
    █      ▀&▀      █
     █     ▀▀▀     █
      ▀▄▄▄▄▄▄▄▄▄▄▄▀
       ▄█▄     ▄█▄"#;

/// The bunny sprite, small.
pub const ART_BUNNY_SMALL: &'static str = r#"
 ▄█▄     ▄█▄
 █ █     █ █
 █ █     █ █
▄▀▀▀▀▀▀▀▀▀▀▀▄
█  %     %  █
█    ▀&▀    █
▀▄▄▄▄▄▄▄▄▄▄▄▀"#;

/// The dragon sprite, large.
pub const ART_DRAGON_LARGE: &'static str = r#"
   █▄                 ▄█
   ▀██▄▄           ▄▄██▀
     ▀▄██▄▄▀▀▀▀▀▄▄██▄▀
      █             █
    ▄█▀  %       %  ▀█▄
   ██                 ██
   ██     ▄▄▄▄▄▄▄     ██
   █▀█   █  ▄ ▄  █   █▀█
   █ ▀▄  █   &   █  ▄▀ █
   ▀▄▄ ▀▄▀█▀▀▀▀█▀▄▀ ▄▄▀
      █  ▄▄   ▄▄  █▄
      ▀▀▀▀▀▀▀▀▀▀▀▀ ▀▄▄o"#;

/// The dragon sprite, small.
pub const ART_DRAGON_SMALL: &'static str = r#"
█▄           ▄█
 ▀█▄▄▀▀▀▀▀▄▄█▀
  █  %   %  █
 ██   ▄▄▄   ██
 █▀█ █ & █ █▀█
  ▀▄▄▀▀▀▀▀▄▄▀ ▄o"#;

/// The ghost sprite, large.
pub const ART_PHANTOM_LARGE: &'static str = r#"
    ▄▄█▀▀▀▀▀█▄▄
   █▀         ▀█
  █▀           ▀█
  █   %     %   █
  █             █
  █      &      █
  █             █
  █             █
  █▄▀█▄▀█▄▀█▄▀█▄█"#;

/// The ghost sprite, small.
pub const ART_PHANTOM_SMALL: &'static str = r#"
  ▄█▀▀▀▀▀█▄
 █  %   %  █
 █    &    █
 █         █
 █▄▀█▄▀█▄▀█▄"#;

/// The frog sprite, large.
pub const ART_FROG_LARGE: &'static str = r#"
   ▄▀▀▀▄   ▄▀▀▀▄
   █ % █   █ % █
  ▄█▄▄▄▀▀▀▀▀▄▄▄█▄
  █             █
  █      &      █
  █  ▀▄▄▄▄▄▄▄▀  █
  ▀▄▄▄▄▄▄▄▄▄▄▄▄▄▀
  ▄█▀▄▄       ▄▄▀█▄"#;

/// The frog sprite, small.
pub const ART_FROG_SMALL: &'static str = r#"
 ▄▀▀▀▄ ▄▀▀▀▄
 █ % █ █ % █
▄█▄▄▄▀▀▀▄▄▄█▄
█     &     █
▀▄▄▄▄▄▄▄▄▄▄▄▀"#;

/// The owl sprite, large.
pub const ART_OWL_LARGE: &'static str = r#"
 ▄▀▄▄▄▄▄▄▄▄▄▄▄▀▄
 █  ▄▄▄   ▄▄▄  █
 █ ( % ) ( % ) █
 █  ▀▀▀ ▄ ▀▀▀  █
 █     ▀&▀     █
 ▀█  ▀▄▄▄▄▄▀  █▀
  █ ▄▄▄   ▄▄▄ █
  █▄▄▄▄▄▄▄▄▄▄▄█
    ▀█▀   ▀█▀"#;

/// The owl sprite, small.
pub const ART_OWL_SMALL: &'static str = r#"
▄▀▄▄▄▄▄▄▄▀▄
█ (%) (%) █
█    ▄    █
█   ▀&▀   █
█▄▄▄▄▄▄▄▄▄█
  ▀█▀ ▀█▀"#;

/// The fox sprite, large.
pub const ART_FOX_LARGE: &'static str = r#"
  ▄█▄             ▄█▄
 █▀ ▀█▄▄▄▄▄▄▄▄▄▄▄█▀ ▀█
 █▀▀▀  ▀       ▀  ▀▀▀█
==█   %         %   █==
  ▀█▄               ▄█▀
    ▀█▄    ▄▄▄    ▄█▀
      ▀██▄ ▀█▀ ▄██▀
        ▀██ & ██▀
          ▀▀▀▀▀"#;

/// The fox sprite, small.
pub const ART_FOX_SMALL: &'static str = r#"
 ▄█▄     ▄█▄
█▀ ▀█▄▄▄█▀ ▀█
█  %     %  █
▀█▄  ▄▄▄  ▄█▀
  ▀█▄▀&▀▄█▀
    ▀▀▀▀▀"#;

/// The penguin sprite, large.
pub const ART_PENGUIN_LARGE: &'static str = r#"
    ▄▄█▀▀▀▀▀█▄▄
   █▀  %   %  ▀█
   █      ▄     █
   █     ▀&▀    █
  █▀ ▄▀▀▀▀▀▀▀▄ ▀█
  █  █       █  █
  █▄ █       █ ▄█
   ▀▄▀▄▄▄▄▄▄▄▀▄▀
    ▄█▄     ▄█▄"#;

/// The penguin sprite, small.
pub const ART_PENGUIN_SMALL: &'static str = r#"
 ▄█▀▀▀▀▀█▄
█  %   %  █
█    ▄    █
█   ▀&▀   █
█ ▄▀▀▀▀▀▄ █
▀▄█▄▄▄▄▄█▄▀"#;

/// The octopus sprite, large.
pub const ART_OCTOPUS_LARGE: &'static str = r#"
    ▄█▀▀▀▀▀▀▀█▄
   █  %     %  █
   █           █
   █     ▄     █
   █    ▀&▀    █
   ▀█▄▄▄▄▄▄▄▄▄█▀
   ▄▀▄ █▀▄ ▄▀█ ▄▀▄
   █ ▀▀▀ ▀▀▀ ▀▀▀ █"#;

/// The octopus sprite, small.
pub const ART_OCTOPUS_SMALL: &'static str = r#"
 ▄█▀▀▀▀▀█▄
█  %   %  █
█    &    █
▀█▄▄▄▄▄▄▄█▀
▄▀▄ █▀▄ ▄▀▄
█ ▀▀▀ ▀▀▀ █"#;

/// The one-line cat face.
pub const TINY_CAT: &'static str = "(=^ %&% ^=)";

/// The one-line dog face.
pub const TINY_DOG: &'static str = "∩( %&% )∩";

/// The one-line bunny face.
pub const TINY_BUNNY: &'static str = r"\\( %&% )//";

/// The one-line dragon face.
pub const TINY_DRAGON: &'static str = "<{ %&% }>";

/// The one-line ghost face.
pub const TINY_PHANTOM: &'static str = "~( %&% )~";

/// The one-line frog face.
pub const TINY_FROG: &'static str = "o( %&% )o";

/// The one-line owl face.
pub const TINY_OWL: &'static str = "(( %&% ))";

/// The one-line fox face.
pub const TINY_FOX: &'static str = "=( %&% )=";

/// The one-line penguin face.
pub const TINY_PENGUIN: &'static str = "d( %&% )b";

/// The one-line octopus face.
pub const TINY_OCTOPUS: &'static str = "}( %&% ){";

/// The wire/state id of a species.
pub open spec fn species_id(s: Species) -> Seq<char> {
    match s {
        Species::Cat => "cat"@,
        Species::Dog => "dog"@,
        Species::Bunny => "bunny"@,
        Species::Dragon => "dragon"@,
        Species::Phantom => "ghost"@,
        Species::Frog => "frog"@,
        Species::Owl => "owl"@,
        Species::Fox => "fox"@,
        Species::Penguin => "penguin"@,
        Species::Octopus => "octopus"@,
    }
}

/// The species an id names, if any.
pub open spec fn species_from_id(id: Seq<char>) -> Option<Species> {
    if id == species_id(Species::Cat) {
        Some(Species::Cat)
    } else if id == species_id(Species::Dog) {
        Some(Species::Dog)
    } else if id == species_id(Species::Bunny) {
        Some(Species::Bunny)
    } else if id == species_id(Species::Dragon) {
        Some(Species::Dragon)
    } else if id == species_id(Species::Phantom) {
        Some(Species::Phantom)
    } else if id == species_id(Species::Frog) {
        Some(Species::Frog)
    } else if id == species_id(Species::Owl) {
        Some(Species::Owl)
    } else if id == species_id(Species::Fox) {
        Some(Species::Fox)
    } else if id == species_id(Species::Penguin) {
        Some(Species::Penguin)
    } else if id == species_id(Species::Octopus) {
        Some(Species::Octopus)
    } else {
        None
    }
}

/// The sprite template of a species at a size.
pub open spec fn template_text(s: Species, size: ArtSize) -> Seq<char> {
    match (s, size) {
        (Species::Cat, ArtSize::Large) => ART_CAT_LARGE@,
        (Species::Cat, ArtSize::Small) => ART_CAT_SMALL@,
        (Species::Dog, ArtSize::Large) => ART_DOG_LARGE@,
        (Species::Dog, ArtSize::Small) => ART_DOG_SMALL@,
        (Species::Bunny, ArtSize::Large) => ART_BUNNY_LARGE@,
        (Species::Bunny, ArtSize::Small) => ART_BUNNY_SMALL@,
        (Species::Dragon, ArtSize::Large) => ART_DRAGON_LARGE@,
        (Species::Dragon, ArtSize::Small) => ART_DRAGON_SMALL@,
        (Species::Phantom, ArtSize::Large) => ART_PHANTOM_LARGE@,
        (Species::Phantom, ArtSize::Small) => ART_PHANTOM_SMALL@,
        (Species::Frog, ArtSize::Large) => ART_FROG_LARGE@,
        (Species::Frog, ArtSize::Small) => ART_FROG_SMALL@,
        (Species::Owl, ArtSize::Large) => ART_OWL_LARGE@,
        (Species::Owl, ArtSize::Small) => ART_OWL_SMALL@,
        (Species::Fox, ArtSize::Large) => ART_FOX_LARGE@,
        (Species::Fox, ArtSize::Small) => ART_FOX_SMALL@,
        (Species::Penguin, ArtSize::Large) => ART_PENGUIN_LARGE@,
        (Species::Penguin, ArtSize::Small) => ART_PENGUIN_SMALL@,
        (Species::Octopus, ArtSize::Large) => ART_OCTOPUS_LARGE@,
        (Species::Octopus, ArtSize::Small) => ART_OCTOPUS_SMALL@,
    }
}

/// The one-line face template of a species.
pub open spec fn tiny_text(s: Species) -> Seq<char> {
    match s {
        Species::Cat => TINY_CAT@,
        Species::Dog => TINY_DOG@,
        Species::Bunny => TINY_BUNNY@,
        Species::Dragon => TINY_DRAGON@,
        Species::Phantom => TINY_PHANTOM@,
        Species::Frog => TINY_FROG@,
        Species::Owl => TINY_OWL@,
        Species::Fox => TINY_FOX@,
        Species::Penguin => TINY_PENGUIN@,
        Species::Octopus => TINY_OCTOPUS@,
    }
}

impl Species {
    pub fn id(self) -> (r: &'static str)
        ensures
            r@ == species_id(self),
    {
        match self {
            Species::Cat => "cat",
            Species::Dog => "dog",
            Species::Bunny => "bunny",
            Species::Dragon => "dragon",
            Species::Phantom => "ghost",
            Species::Frog => "frog",
            Species::Owl => "owl",
            Species::Fox => "fox",
            Species::Penguin => "penguin",
            Species::Octopus => "octopus",
        }
    }

    pub fn from_id(id: &str) -> (r: Option<Species>)
        ensures
            r == species_from_id(id@),
    {
        let v = chars_of(id);
        let mut i: usize = 0;
        while i < 10
            invariant
                i <= 10,
                v@ == id@,
                forall|k: int| 0 <= k < i ==> species_id(#[trigger] species_at(k)) != id@,
            decreases 10 - i,
        {
            let s = SPECIES[i];
            assert(s == species_at(i as int));
            if crate::text::chars_eq_str(v.as_slice(), s.id()) {
                proof {
                    law_species_id_round_trip(s);
                }
                return Some(s);
            }
            i = i + 1;
        }
        assert(species_id(species_at(0)) != id@);
        assert(species_id(species_at(1)) != id@);
        assert(species_id(species_at(2)) != id@);
        assert(species_id(species_at(3)) != id@);
        assert(species_id(species_at(4)) != id@);
        assert(species_id(species_at(5)) != id@);
        assert(species_id(species_at(6)) != id@);
        assert(species_id(species_at(7)) != id@);
        assert(species_id(species_at(8)) != id@);
        assert(species_id(species_at(9)) != id@);
        None
    }

    /// `%` = eye, `&` = mouth — swapped per mood, so one template serves all
    /// moods.
    pub fn template(self, size: ArtSize) -> (r: &'static str)
        ensures
            r@ == template_text(self, size),
    {
        match (self, size) {
            (Species::Cat, ArtSize::Large) => ART_CAT_LARGE,
            (Species::Cat, ArtSize::Small) => ART_CAT_SMALL,
            (Species::Dog, ArtSize::Large) => ART_DOG_LARGE,
            (Species::Dog, ArtSize::Small) => ART_DOG_SMALL,
            (Species::Bunny, ArtSize::Large) => ART_BUNNY_LARGE,
            (Species::Bunny, ArtSize::Small) => ART_BUNNY_SMALL,
            (Species::Dragon, ArtSize::Large) => ART_DRAGON_LARGE,
            (Species::Dragon, ArtSize::Small) => ART_DRAGON_SMALL,
            (Species::Phantom, ArtSize::Large) => ART_PHANTOM_LARGE,
            (Species::Phantom, ArtSize::Small) => ART_PHANTOM_SMALL,
            (Species::Frog, ArtSize::Large) => ART_FROG_LARGE,
            (Species::Frog, ArtSize::Small) => ART_FROG_SMALL,
            (Species::Owl, ArtSize::Large) => ART_OWL_LARGE,
            (Species::Owl, ArtSize::Small) => ART_OWL_SMALL,
            (Species::Fox, ArtSize::Large) => ART_FOX_LARGE,
            (Species::Fox, ArtSize::Small) => ART_FOX_SMALL,
            (Species::Penguin, ArtSize::Large) => ART_PENGUIN_LARGE,
            (Species::Penguin, ArtSize::Small) => ART_PENGUIN_SMALL,
            (Species::Octopus, ArtSize::Large) => ART_OCTOPUS_LARGE,
            (Species::Octopus, ArtSize::Small) => ART_OCTOPUS_SMALL,
        }
    }

    pub fn tiny_face(self) -> (r: &'static str)
        ensures
            r@ == tiny_text(self),
    {
        match self {
            Species::Cat => TINY_CAT,
            Species::Dog => TINY_DOG,
            Species::Bunny => TINY_BUNNY,
            Species::Dragon => TINY_DRAGON,
            Species::Phantom => TINY_PHANTOM,
            Species::Frog => TINY_FROG,
            Species::Owl => TINY_OWL,
            Species::Fox => TINY_FOX,
            Species::Penguin => TINY_PENGUIN,
            Species::Octopus => TINY_OCTOPUS,
        }
    }
}

/// An id read back names the species it was written for.
pub proof fn law_species_id_round_trip(s: Species)
    ensures
        species_from_id(species_id(s)) == Some(s),
{
    reveal_strlit("cat");
    reveal_strlit("dog");
    reveal_strlit("bunny");
    reveal_strlit("dragon");
    reveal_strlit("ghost");
    reveal_strlit("frog");
    reveal_strlit("owl");
    reveal_strlit("fox");
    reveal_strlit("penguin");
    reveal_strlit("octopus");
    assert(species_id(Species::Cat).len() == 3 && species_id(Species::Cat)[0] == 'c');
    assert(species_id(Species::Dog).len() == 3 && species_id(Species::Dog)[0] == 'd');
    assert(species_id(Species::Bunny).len() == 5 && species_id(Species::Bunny)[0] == 'b');
    assert(species_id(Species::Dragon).len() == 6 && species_id(Species::Dragon)[0] == 'd');
    assert(species_id(Species::Phantom).len() == 5 && species_id(Species::Phantom)[0] == 'g');
    assert(species_id(Species::Frog).len() == 4 && species_id(Species::Frog)[0] == 'f');
    assert(species_id(Species::Owl).len() == 3 && species_id(Species::Owl)[0] == 'o');
    assert(species_id(Species::Fox).len() == 3 && species_id(Species::Fox)[0] == 'f');
    assert(species_id(Species::Penguin).len() == 7 && species_id(Species::Penguin)[0] == 'p');
    assert(species_id(Species::Octopus).len() == 7 && species_id(Species::Octopus)[0] == 'o');
    match s {
        Species::Cat => {},
        Species::Dog => {},
        Species::Bunny => {},
        Species::Dragon => {},
        Species::Phantom => {},
        Species::Frog => {},
        Species::Owl => {},
        Species::Fox => {},
        Species::Penguin => {},
        Species::Octopus => {},
    }
}

/// The species at position `i` of `SPECIES`.
pub open spec fn species_at(i: int) -> Species {
    if i == 0 {
        Species::Cat
    } else if i == 1 {
        Species::Dog
    } else if i == 2 {
        Species::Bunny
    } else if i == 3 {
        Species::Dragon
    } else if i == 4 {
        Species::Phantom
    } else if i == 5 {
        Species::Frog
    } else if i == 6 {
        Species::Owl
    } else if i == 7 {
        Species::Fox
    } else if i == 8 {
        Species::Penguin
    } else {
        Species::Octopus
    }
}

// ---------------------------------------------------------------------------
// Rendering

/// The "z Z z" animation frame shown over a sleeping pet.
pub open spec fn zzz_text(i: int) -> Seq<char> {
    if i == 0 {
        "z    "@
    } else if i == 1 {
        "z Z  "@
    } else {
        "z Z z"@
    }
}

pub fn zzz(frame: usize) -> (r: &'static str)
    ensures
        r@ == zzz_text((frame % 3) as int),
{
    let i = frame % 3;
    if i == 0 {
        "z    "
    } else if i == 1 {
        "z Z  "
    } else {
        "z Z z"
    }
}

pub open spec fn face_sub(c: char, eye: char, mouth: char) -> char {
    if c == '%' {
        eye
    } else if c == '&' {
        mouth
    } else {
        c
    }
}

/// The template with its eye and mouth markers filled in.
pub open spec fn put_face(t: Seq<char>, eye: char, mouth: char) -> Seq<char> {
    t.map_values(|c: char| face_sub(c, eye, mouth))
}

pub open spec fn spaces(n: nat) -> Seq<char> {
    Seq::new(n, |i: int| ' ')
}

/// The longest length among the lines.
pub open spec fn max_len(ls: Seq<Seq<char>>) -> nat
    decreases ls.len(),
{
    if ls.len() == 0 {
        0
    } else {
        let m = max_len(ls.drop_last());
        if ls.last().len() > m {
            ls.last().len()
        } else {
            m
        }
    }
}

/// A line padded with spaces to at least `w` characters.
pub open spec fn pad_to(l: Seq<char>, w: nat) -> Seq<char> {
    if l.len() < w {
        l + spaces((w - l.len()) as nat)
    } else {
        l
    }
}

/// Text right-aligned in `w` characters (never cut).
pub open spec fn right_align(s: Seq<char>, w: nat) -> Seq<char> {
    if s.len() < w {
        spaces((w - s.len()) as nat) + s
    } else {
        s
    }
}

/// Every line but the first (the templates open with a newline).
pub open spec fn after_first(ls: Seq<Seq<char>>) -> Seq<Seq<char>> {
    if ls.len() == 0 {
        ls
    } else {
        ls.drop_first()
    }
}

/// The rendered rows: a reserved top row (the zzz, right-aligned, or blank
/// while awake) over the sprite's lines, all padded to the widest.
pub open spec fn art_rows(t: Seq<char>, eye: char, mouth: char, z: Option<Seq<char>>) -> Seq<
    Seq<char>,
> {
    let ls = after_first(lines(put_face(t, eye, mouth)));
    let w = max_len(ls);
    let top = match z {
        Some(zz) => right_align(zz, w),
        None => spaces(w),
    };
    seq![top] + ls.map_values(|l: Seq<char>| pad_to(l, w))
}

fn put_face_chars(t: &[char], eye: char, mouth: char) -> (r: Vec<char>)
    ensures
        r@ == put_face(t@, eye, mouth),
{
    let mut r: Vec<char> = Vec::new();
    let mut i: usize = 0;
    while i < t.len()
        invariant
            i <= t.len(),
            r@ == put_face(t@.take(i as int), eye, mouth),
        decreases t.len() - i,
    {
        let c = t[i];
        let d = if c == '%' {
            eye
        } else if c == '&' {
            mouth
        } else {
            c
        };
        r.push(d);
        i = i + 1;
        assert(put_face(t@.take(i as int), eye, mouth) =~= put_face(t@.take((i - 1) as int), eye, mouth).push(d));
    }
    assert(t@.take(t.len() as int) =~= t@);
    r
}

pub fn push_spaces(v: &mut Vec<char>, n: usize)
    ensures
        final(v)@ == old(v)@ + spaces(n as nat),
{
    let mut i: usize = 0;
    while i < n
        invariant
            i <= n,
            v@ == old(v)@ + spaces(i as nat),
        decreases n - i,
    {
        v.push(' ');
        i = i + 1;
        assert(old(v)@ + spaces(i as nat) =~= (old(v)@ + spaces((i - 1) as nat)).push(' '));
    }
}

fn max_len_exec(ls: &Vec<Vec<char>>) -> (m: usize)
    ensures
        m == max_len(views(ls@)),
{
    let ghost lv = views(ls@);
    let mut m: usize = 0;
    let mut i: usize = 0;
    assert(lv.take(0) =~= Seq::<Seq<char>>::empty());
    while i < ls.len()
        invariant
            i <= ls.len(),
            lv == views(ls@),
            m == max_len(lv.take(i as int)),
        decreases ls.len() - i,
    {
        assert(lv.take(i + 1).drop_last() =~= lv.take(i as int));
        assert(lv.take(i + 1).last() == ls@[i as int]@);
        if ls[i].len() > m {
            m = ls[i].len();
        }
        i = i + 1;
    }
    assert(lv.take(ls.len() as int) =~= lv);
    m
}

fn art_rows_exec(t: &str, eye: char, mouth: char, z: Option<&str>) -> (r: Vec<String>)
    ensures
        string_views(r@) == art_rows(
            t@,
            eye,
            mouth,
            match z {
                Some(zz) => Some(zz@),
                None => None,
            },
        ),
{
    let art = put_face_chars(chars_of(t).as_slice(), eye, mouth);
    let all = lines_of(art.as_slice());
    let ghost av = views(all@);
    // the templates open with a newline: their first line is empty
    let mut ls: Vec<Vec<char>> = Vec::new();
    let mut k: usize = 1;
    if all.len() > 0 {
        assert(views(ls@) =~= av.subrange(1, 1));
        while k < all.len()
            invariant
                1 <= k <= all.len(),
                av == views(all@),
                views(ls@) == av.subrange(1, k as int),
            decreases all.len() - k,
        {
            let ghost before = views(ls@);
            let row = crate::text::slice_vec(all[k].as_slice(), 0, all[k].len());
            assert(row@ =~= all@[k as int]@);
            ls.push(row);
            k = k + 1;
            assert(views(ls@) =~= before.push(row@));
            assert(av.subrange(1, k as int) =~= av.subrange(1, (k - 1) as int).push(av[k - 1]));
        }
        assert(av.subrange(1, all.len() as int) =~= av.drop_first());
    } else {
        assert(views(ls@) =~= av);
    }
    let ghost lv = views(ls@);
    assert(lv == after_first(av));
    let w = max_len_exec(&ls);
    let mut out: Vec<String> = Vec::new();
    let mut top: Vec<char> = Vec::new();
    match z {
        Some(zz) => {
            let zc = chars_of(zz);
            if zc.len() < w {
                push_spaces(&mut top, w - zc.len());
            }
            push_all(&mut top, zc.as_slice());
            assert(top@ =~= right_align(zz@, w as nat));
        },
        None => {
            push_spaces(&mut top, w);
            assert(top@ =~= spaces(w as nat));
        },
    }
    out.push(string_of(top.as_slice()));
    let ghost head = string_views(out@);
    let mut i: usize = 0;
    assert(string_views(out@) =~= head + lv.take(0).map_values(|l: Seq<char>| pad_to(l, w as nat)));
    while i < ls.len()
        invariant
            i <= ls.len(),
            lv == views(ls@),
            w == max_len(lv),
            head.len() == 1,
            string_views(out@) == head + lv.take(i as int).map_values(
                |l: Seq<char>| pad_to(l, w as nat),
            ),
        decreases ls.len() - i,
    {
        let mut row: Vec<char> = Vec::new();
        push_all(&mut row, ls[i].as_slice());
        if ls[i].len() < w {
            push_spaces(&mut row, w - ls[i].len());
        }
        assert(lv[i as int] == ls@[i as int]@);
        assert(row@ =~= pad_to(lv[i as int], w as nat));
        let ghost before = string_views(out@);
        out.push(string_of(row.as_slice()));
        i = i + 1;
        assert(string_views(out@) =~= before.push(row@));
        assert(lv.take(i as int).map_values(|l: Seq<char>| pad_to(l, w as nat)) =~= lv.take(
            (i - 1) as int,
        ).map_values(|l: Seq<char>| pad_to(l, w as nat)).push(pad_to(lv[i - 1], w as nat)));
    }
    assert(lv.take(ls.len() as int) =~= lv);
    out
}

/// A sprite for a mood: frame 3 of every 4 blinks, and sleep shows the
/// zzz animation in the reserved top row.
pub open spec fn art_of(species: Species, mood: Mood, frame: usize, size: ArtSize) -> Seq<Seq<char>> {
    let (eye, mouth) = face_of(mood, frame % 4 == 3);
    art_rows(
        template_text(species, size),
        eye,
        mouth,
        if mood == Mood::Sleeping {
            Some(zzz_text((frame % 3) as int))
        } else {
            None
        },
    )
}

pub fn render_art(species: Species, mood: Mood, frame: usize, size: ArtSize) -> (r: Vec<String>)
    ensures
        string_views(r@) == art_of(species, mood, frame, size),
{
    let (eye, mouth) = mood.face(frame % 4 == 3);
    let z = if mood == Mood::Sleeping {
        Some(zzz(frame))
    } else {
        None
    };
    art_rows_exec(species.template(size), eye, mouth, z)
}

/// Art with an explicit face — the assistant's per-message-kind expressions.
pub fn render_art_face(species: Species, size: ArtSize, eye: char, mouth: char) -> (r: Vec<String>)
    ensures
        string_views(r@) == art_rows(template_text(species, size), eye, mouth, None),
{
    art_rows_exec(species.template(size), eye, mouth, None)
}

pub fn render_tiny(species: Species, mood: Mood, frame: usize) -> (r: String)
    ensures
        r@ == put_face(
            tiny_text(species),
            face_of(mood, frame % 4 == 3).0,
            face_of(mood, frame % 4 == 3).1,
        ),
{
    let (eye, mouth) = mood.face(frame % 4 == 3);
    render_tiny_face(species, eye, mouth)
}

pub fn render_tiny_face(species: Species, eye: char, mouth: char) -> (r: String)
    ensures
        r@ == put_face(tiny_text(species), eye, mouth),
{
    let v = put_face_chars(chars_of(species.tiny_face()).as_slice(), eye, mouth);
    string_of(v.as_slice())
}

} // verus!

verus! {

// ---------------------------------------------------------------------------
// Footprints

/// A face character: neither a marker nor a line break.
pub open spec fn plain_face_char(c: char) -> bool {
    c != '%' && c != '&' && c != '\n' && c != '\r'
}

proof fn lemma_face_plain(m: Mood, blink: bool)
    ensures
        plain_face_char(face_of(m, blink).0),
        plain_face_char(face_of(m, blink).1),
{
}

proof fn lemma_put_face_no_marker(t: Seq<char>, eye: char, mouth: char)
    requires
        plain_face_char(eye),
        plain_face_char(mouth),
    ensures
        !put_face(t, eye, mouth).contains('%'),
        !put_face(t, eye, mouth).contains('&'),
        put_face(t, eye, mouth).len() == t.len(),
{
    let p = put_face(t, eye, mouth);
    if p.contains('%') {
        let k = choose|k: int| 0 <= k < p.len() && p[k] == '%';
        assert(p[k] == face_sub(t[k], eye, mouth));
    }
    if p.contains('&') {
        let k = choose|k: int| 0 <= k < p.len() && p[k] == '&';
        assert(p[k] == face_sub(t[k], eye, mouth));
    }
}

proof fn lemma_split_put_face(t: Seq<char>, eye: char, mouth: char)
    requires
        plain_face_char(eye),
        plain_face_char(mouth),
    ensures
        crate::text::split_on(put_face(t, eye, mouth), '\n') == crate::text::split_on(t, '\n').map_values(
            |p: Seq<char>| put_face(p, eye, mouth),
        ),
    decreases t.len(),
{
    let f = |p: Seq<char>| put_face(p, eye, mouth);
    if t.len() == 0 {
        assert(put_face(t, eye, mouth) =~= Seq::<char>::empty());
        assert(seq![Seq::<char>::empty()].map_values(f) =~= seq![put_face(Seq::<char>::empty(), eye, mouth)]);
        assert(put_face(Seq::<char>::empty(), eye, mouth) =~= Seq::<char>::empty());
    } else {
        let pt = put_face(t, eye, mouth);
        lemma_split_put_face(t.drop_last(), eye, mouth);
        assert(pt.drop_last() =~= put_face(t.drop_last(), eye, mouth));
        assert(pt.last() == face_sub(t.last(), eye, mouth));
        crate::text::lemma_split_on_nonempty(t.drop_last(), '\n');
        let sp = crate::text::split_on(t.drop_last(), '\n');
        if t.last() == '\n' {
            assert(pt.last() == '\n');
            assert(sp.push(Seq::<char>::empty()).map_values(f) =~= sp.map_values(f).push(
                put_face(Seq::<char>::empty(), eye, mouth),
            ));
            assert(put_face(Seq::<char>::empty(), eye, mouth) =~= Seq::<char>::empty());
        } else {
            assert(pt.last() != '\n');
            let up = sp.update(sp.len() - 1, sp.last().push(t.last()));
            assert(put_face(sp.last().push(t.last()), eye, mouth) =~= put_face(sp.last(), eye, mouth).push(
                pt.last(),
            ));
            assert(up.map_values(f) =~= sp.map_values(f).update(
                sp.len() - 1,
                sp.map_values(f).last().push(pt.last()),
            ));
        }
    }
}

proof fn lemma_lines_put_face(t: Seq<char>, eye: char, mouth: char)
    requires
        plain_face_char(eye),
        plain_face_char(mouth),
    ensures
        lines(put_face(t, eye, mouth)) == lines(t).map_values(|p: Seq<char>| put_face(p, eye, mouth)),
{
    let f = |p: Seq<char>| put_face(p, eye, mouth);
    lemma_split_put_face(t, eye, mouth);
    let parts = crate::text::split_on(t, '\n');
    crate::text::lemma_split_on_nonempty(t, '\n');
    let fp = parts.map_values(f);
    assert(fp.last() == f(parts.last()));
    assert(fp.last().len() == parts.last().len());
    assert forall|i: int| 0 <= i < parts.len() - 1 implies crate::text::strip_cr(f(parts[i])) == f(
        crate::text::strip_cr(parts[i]),
    ) by {
        let p = parts[i];
        if p.len() > 0 {
            assert(f(p).last() == face_sub(p.last(), eye, mouth));
            assert(f(p).drop_last() =~= f(p.drop_last()));
        } else {
            assert(f(p) =~= Seq::<char>::empty());
        }
    }
    let body = parts.drop_last().map_values(|p: Seq<char>| crate::text::strip_cr(p));
    let fbody = fp.drop_last().map_values(|p: Seq<char>| crate::text::strip_cr(p));
    assert(fbody =~= body.map_values(f));
    if parts.last().len() == 0 {
        assert(lines(put_face(t, eye, mouth)) =~= lines(t).map_values(f));
    } else {
        assert(body.push(parts.last()).map_values(f) =~= body.map_values(f).push(f(parts.last())));
        assert(lines(put_face(t, eye, mouth)) =~= lines(t).map_values(f));
    }
}

proof fn lemma_max_len_map(ls: Seq<Seq<char>>, eye: char, mouth: char)
    ensures
        max_len(ls.map_values(|p: Seq<char>| put_face(p, eye, mouth))) == max_len(ls),
    decreases ls.len(),
{
    let f = |p: Seq<char>| put_face(p, eye, mouth);
    if ls.len() > 0 {
        lemma_max_len_map(ls.drop_last(), eye, mouth);
        assert(ls.map_values(f).drop_last() =~= ls.drop_last().map_values(f));
        assert(ls.map_values(f).last() == f(ls.last()));
    }
}

/// The sprite's lines for a face: the template's lines with the face put in.
proof fn lemma_art_lines(t: Seq<char>, eye: char, mouth: char)
    requires
        plain_face_char(eye),
        plain_face_char(mouth),
    ensures
        after_first(lines(put_face(t, eye, mouth))) == after_first(lines(t)).map_values(
            |p: Seq<char>| put_face(p, eye, mouth),
        ),
        max_len(after_first(lines(put_face(t, eye, mouth)))) == max_len(after_first(lines(t))),
{
    let f = |p: Seq<char>| put_face(p, eye, mouth);
    lemma_lines_put_face(t, eye, mouth);
    let ls = lines(t);
    if ls.len() > 0 {
        assert(ls.map_values(f).drop_first() =~= ls.drop_first().map_values(f));
    }
    lemma_max_len_map(after_first(ls), eye, mouth);
}

proof fn lemma_no_marker(s: Seq<char>)
    requires
        forall|k: int| 0 <= k < s.len() ==> s[k] != '%' && s[k] != '&',
    ensures
        !s.contains('%'),
        !s.contains('&'),
{
}

/// The widest line of a species' template at a size.
pub open spec fn template_width(species: Species, size: ArtSize) -> nat {
    max_len(after_first(lines(template_text(species, size))))
}

proof fn lemma_max_len_ge(ls: Seq<Seq<char>>, i: int)
    requires
        0 <= i < ls.len(),
    ensures
        ls[i].len() <= max_len(ls),
    decreases ls.len(),
{
    if i < ls.len() - 1 {
        assert(ls.drop_last()[i] == ls[i]);
        lemma_max_len_ge(ls.drop_last(), i);
    }
}

/// A text opening with a line break, then `n` characters without one: its
/// second line is at least `n - 1` wide (a carriage return may end it).
proof fn lemma_first_line(t: Seq<char>, n: nat)
    requires
        n >= 1,
        t.len() > n,
        t[0] == '\n',
        forall|k: int| 1 <= k <= n ==> t[k] != '\n',
    ensures
        max_len(after_first(lines(t))) >= n - 1,
{
    let sep = '\n';
    let a = t.subrange(1, n + 1int);
    let b = t.skip(n + 1int);
    let nl = seq![sep];
    assert(t =~= nl + (a + b));
    assert(!a.contains(sep)) by {
        if a.contains(sep) {
            let k = choose|k: int| 0 <= k < a.len() && a[k] == sep;
            assert(t[k + 1] == sep);
        }
    }
    crate::text::lemma_split_alone(a, sep);
    crate::text::lemma_split_concat(a, b, sep);
    crate::text::lemma_split_on_nonempty(b, sep);
    let r = crate::text::split_on(a + b, sep);
    assert(r[0] == a + crate::text::split_on(b, sep)[0]);
    let e = Seq::<char>::empty();
    assert(nl.drop_last() =~= e);
    assert(crate::text::split_on(nl.drop_last(), sep) == seq![e]);
    assert(nl.last() == sep);
    assert(crate::text::split_on(nl, sep) == seq![e].push(e));
    crate::text::lemma_split_concat(nl, a + b, sep);
    crate::text::lemma_split_on_nonempty(a + b, sep);
    let parts = crate::text::split_on(t, sep);
    assert(parts.len() >= 2);
    assert(parts[1] == e + r[0]);
    assert(parts[1].len() >= n);
    let ls = lines(t);
    let body = parts.drop_last().map_values(|p: Seq<char>| crate::text::strip_cr(p));
    if parts.len() > 2 {
        assert(ls[1] == body[1]);
        assert(body[1] == crate::text::strip_cr(parts[1]));
    } else {
        assert(parts.last() == parts[1]);
        assert(ls == body.push(parts[1]));
        assert(ls[1] == parts[1]);
    }
    assert(ls[1].len() >= n - 1);
    assert(after_first(ls)[0] == ls[1]);
    lemma_max_len_ge(after_first(ls), 0);
}

/// Every template is at least five wide, room for the sleeping zzz.
proof fn lemma_templates_wide(species: Species, size: ArtSize)
    ensures
        template_width(species, size) >= 5,
{
    match (species, size) {
        (Species::Cat, ArtSize::Large) => {
            reveal_strlit(r#"
    ▄█▄         ▄█▄
   █▀ ▀█▄▄▄▄▄▄▄█▀ ▀█
  █▀  ▀▀  ▀▀▀  ▀▀  ▀█
 =█    %       %    █=
 =█                 █=
  █        ▄        █
  ▀█▄     ▀&▀     ▄█▀
   ▄█▀▀▀▀▀▀▀▀▀▀▀▀▀█▄
  █▀ ▀▀▄  ▀▀▀  ▄▀▀ ▀█
  █▄▄▄▄█ █▄▄▄█ █▄▄▄▄█
   ▀▀▀▀▀▀▀▀▀▀▀▀▀▀▀▀▀"#);
        },
        (Species::Cat, ArtSize::Small) => {
            reveal_strlit(r#"
 ▄█▄     ▄█▄
█▀ ▀█▄▄▄█▀ ▀█
█ ▀ %   % ▀ █
█    ▀&▀    █
▀█▄       ▄█▀
  ▀▀▀▀▀▀▀▀▀"#);
        },
        (Species::Dog, ArtSize::Large) => {
            reveal_strlit(r#"
    ▄▄▄▀▀▀▀▀▀▀▀▀▀▀▄▄▄
   ██▀ ▄▄▄▄▄▄▄▄▄▄▄ ▀██
   ██  █         █  ██
   ██  █  %   %  █  ██
   ██  █         █  ██
   ▀██ █  ▄▄▄▄▄  █ ██▀
     ▀ █▄█ ▄▄▄ █▄█ ▀
       ██  ▀█▀  ██
       ██   &   ██
        █▄▄▄▄▄▄▄█
        ▄█▀▀▀▀▀█▄
        █ ▄▄ ▄▄ █
        ▀▀▀▀▀▀▀▀▀"#);
        },
        (Species::Dog, ArtSize::Small) => {
            reveal_strlit(r#"
 ▄▄▀▀▀▀▀▀▀▄▄
██  %   %  ██
██    ▄    ██
▀██  ▀█▀  ██▀
  █   &   █
  ▀▄▄▄▄▄▄▄▀"#);
        },
        (Species::Bunny, ArtSize::Large) => {
            reveal_strlit(r#"
     ▄█▀█▄     ▄█▀█▄
     █ ▀ █     █ ▀ █
     █ ▀ █     █ ▀ █
     █ ▀ █     █ ▀ █
     ▀█▄██▄▄▄▄▄██▄█▀
     ▄▀           ▀▄
   =█   %       %   █=
   =█               █=
    █       ▄       █
    █      ▀&▀      █
     █     ▀▀▀     █
      ▀▄▄▄▄▄▄▄▄▄▄▄▀
       ▄█▄     ▄█▄"#);
        },
        (Species::Bunny, ArtSize::Small) => {
            reveal_strlit(r#"
 ▄█▄     ▄█▄
 █ █     █ █
 █ █     █ █
▄▀▀▀▀▀▀▀▀▀▀▀▄
█  %     %  █
█    ▀&▀    █
▀▄▄▄▄▄▄▄▄▄▄▄▀"#);
        },
        (Species::Dragon, ArtSize::Large) => {
            reveal_strlit(r#"
   █▄                 ▄█
   ▀██▄▄           ▄▄██▀
     ▀▄██▄▄▀▀▀▀▀▄▄██▄▀
      █             █
    ▄█▀  %       %  ▀█▄
   ██                 ██
   ██     ▄▄▄▄▄▄▄     ██
   █▀█   █  ▄ ▄  █   █▀█
   █ ▀▄  █   &   █  ▄▀ █
   ▀▄▄ ▀▄▀█▀▀▀▀█▀▄▀ ▄▄▀
      █  ▄▄   ▄▄  █▄
      ▀▀▀▀▀▀▀▀▀▀▀▀ ▀▄▄o"#);
        },
        (Species::Dragon, ArtSize::Small) => {
            reveal_strlit(r#"
█▄           ▄█
 ▀█▄▄▀▀▀▀▀▄▄█▀
  █  %   %  █
 ██   ▄▄▄   ██
 █▀█ █ & █ █▀█
  ▀▄▄▀▀▀▀▀▄▄▀ ▄o"#);
        },
        (Species::Phantom, ArtSize::Large) => {
            reveal_strlit(r#"
    ▄▄█▀▀▀▀▀█▄▄
   █▀         ▀█
  █▀           ▀█
  █   %     %   █
  █             █
  █      &      █
  █             █
  █             █
  █▄▀█▄▀█▄▀█▄▀█▄█"#);
        },
        (Species::Phantom, ArtSize::Small) => {
            reveal_strlit(r#"
  ▄█▀▀▀▀▀█▄
 █  %   %  █
 █    &    █
 █         █
 █▄▀█▄▀█▄▀█▄"#);
        },
        (Species::Frog, ArtSize::Large) => {
            reveal_strlit(r#"
   ▄▀▀▀▄   ▄▀▀▀▄
   █ % █   █ % █
  ▄█▄▄▄▀▀▀▀▀▄▄▄█▄
  █             █
  █      &      █
  █  ▀▄▄▄▄▄▄▄▀  █
  ▀▄▄▄▄▄▄▄▄▄▄▄▄▄▀
  ▄█▀▄▄       ▄▄▀█▄"#);
        },
        (Species::Frog, ArtSize::Small) => {
            reveal_strlit(r#"
 ▄▀▀▀▄ ▄▀▀▀▄
 █ % █ █ % █
▄█▄▄▄▀▀▀▄▄▄█▄
█     &     █
▀▄▄▄▄▄▄▄▄▄▄▄▀"#);
        },
        (Species::Owl, ArtSize::Large) => {
            reveal_strlit(r#"
 ▄▀▄▄▄▄▄▄▄▄▄▄▄▀▄
 █  ▄▄▄   ▄▄▄  █
 █ ( % ) ( % ) █
 █  ▀▀▀ ▄ ▀▀▀  █
 █     ▀&▀     █
 ▀█  ▀▄▄▄▄▄▀  █▀
  █ ▄▄▄   ▄▄▄ █
  █▄▄▄▄▄▄▄▄▄▄▄█
    ▀█▀   ▀█▀"#);
        },
        (Species::Owl, ArtSize::Small) => {
            reveal_strlit(r#"
▄▀▄▄▄▄▄▄▄▀▄
█ (%) (%) █
█    ▄    █
█   ▀&▀   █
█▄▄▄▄▄▄▄▄▄█
  ▀█▀ ▀█▀"#);
        },
        (Species::Fox, ArtSize::Large) => {
            reveal_strlit(r#"
  ▄█▄             ▄█▄
 █▀ ▀█▄▄▄▄▄▄▄▄▄▄▄█▀ ▀█
 █▀▀▀  ▀       ▀  ▀▀▀█
==█   %         %   █==
  ▀█▄               ▄█▀
    ▀█▄    ▄▄▄    ▄█▀
      ▀██▄ ▀█▀ ▄██▀
        ▀██ & ██▀
          ▀▀▀▀▀"#);
        },
        (Species::Fox, ArtSize::Small) => {
            reveal_strlit(r#"
 ▄█▄     ▄█▄
█▀ ▀█▄▄▄█▀ ▀█
█  %     %  █
▀█▄  ▄▄▄  ▄█▀
  ▀█▄▀&▀▄█▀
    ▀▀▀▀▀"#);
        },
        (Species::Penguin, ArtSize::Large) => {
            reveal_strlit(r#"
    ▄▄█▀▀▀▀▀█▄▄
   █▀  %   %  ▀█
   █      ▄     █
   █     ▀&▀    █
  █▀ ▄▀▀▀▀▀▀▀▄ ▀█
  █  █       █  █
  █▄ █       █ ▄█
   ▀▄▀▄▄▄▄▄▄▄▀▄▀
    ▄█▄     ▄█▄"#);
        },
        (Species::Penguin, ArtSize::Small) => {
            reveal_strlit(r#"
 ▄█▀▀▀▀▀█▄
█  %   %  █
█    ▄    █
█   ▀&▀   █
█ ▄▀▀▀▀▀▄ █
▀▄█▄▄▄▄▄█▄▀"#);
        },
        (Species::Octopus, ArtSize::Large) => {
            reveal_strlit(r#"
    ▄█▀▀▀▀▀▀▀█▄
   █  %     %  █
   █           █
   █     ▄     █
   █    ▀&▀    █
   ▀█▄▄▄▄▄▄▄▄▄█▀
   ▄▀▄ █▀▄ ▄▀█ ▄▀▄
   █ ▀▀▀ ▀▀▀ ▀▀▀ █"#);
        },
        (Species::Octopus, ArtSize::Small) => {
            reveal_strlit(r#"
 ▄█▀▀▀▀▀█▄
█  %   %  █
█    &    █
▀█▄▄▄▄▄▄▄█▀
▄▀▄ █▀▄ ▄▀▄
█ ▀▀▀ ▀▀▀ █"#);
        },
    }
    lemma_first_line(template_text(species, size), 7);
}

/// Whatever the mood and the frame, a sprite keeps one footprint: its rows
/// are the reserved top row and the template's lines, and every row is as
/// wide as the template's widest line. The top row is blank while awake
/// and holds the zzz, right-aligned, while asleep; no eye or mouth marker is
/// left in any row.
pub proof fn law_art_footprint(species: Species, mood: Mood, frame: usize, size: ArtSize)
    ensures
        art_of(species, mood, frame, size).len() == 1 + after_first(lines(template_text(species, size))).len(),
        forall|i: int|
            0 <= i < art_of(species, mood, frame, size).len() ==> (#[trigger] art_of(species, mood, frame, size)[i]).len()
                == template_width(species, size),
        mood != Mood::Sleeping ==> art_of(species, mood, frame, size)[0] == spaces(template_width(species, size)),
        mood == Mood::Sleeping ==> art_of(species, mood, frame, size)[0] == right_align(
            zzz_text((frame % 3) as int),
            template_width(species, size),
        ),
        forall|i: int|
            0 <= i < art_of(species, mood, frame, size).len() ==> !(#[trigger] art_of(species, mood, frame, size)[i]).contains(
                '%',
            ) && !art_of(species, mood, frame, size)[i].contains('&'),
{
    let t = template_text(species, size);
    let (e1, o1) = face_of(mood, frame % 4 == 3);
    lemma_face_plain(mood, frame % 4 == 3);
    lemma_art_lines(t, e1, o1);
    lemma_templates_wide(species, size);
    let base = after_first(lines(t));
    let w = max_len(base);
    let a1 = art_of(species, mood, frame, size);
    let l1 = after_first(lines(put_face(t, e1, o1)));
    assert(a1.len() == 1 + l1.len());
    reveal_strlit("z    ");
    reveal_strlit("z Z  ");
    reveal_strlit("z Z z");
    let z = zzz_text((frame % 3) as int);
    assert(z.len() == 5);
    assert forall|i: int| 0 <= i < a1.len() implies (#[trigger] a1[i]).len() == w by {
        if i > 0 {
            assert(a1[i] == pad_to(l1[i - 1], w));
            assert(l1[i - 1] == put_face(base[i - 1], e1, o1));
            lemma_max_len_ge(base, i - 1);
        }
    }
    assert forall|i: int| 0 <= i < a1.len() implies !(#[trigger] a1[i]).contains('%') && !a1[i].contains('&') by {
        if i == 0 {
            assert forall|k: int| 0 <= k < a1[0].len() implies a1[0][k] != '%' && a1[0][k] != '&' by {
                if mood == Mood::Sleeping && z.len() < w && k >= (w - z.len()) {
                    assert(a1[0][k] == z[k - (w - z.len())]);
                }
            }
            lemma_no_marker(a1[0]);
        } else {
            let l = put_face(base[i - 1], e1, o1);
            assert(l1[i - 1] == l);
            lemma_put_face_no_marker(base[i - 1], e1, o1);
            assert forall|k: int| 0 <= k < a1[i].len() implies a1[i][k] != '%' && a1[i][k] != '&' by {
                if k < l.len() {
                    assert(a1[i][k] == l[k]);
                    if l[k] == '%' {
                        assert(l.contains('%'));
                    }
                    if l[k] == '&' {
                        assert(l.contains('&'));
                    }
                }
            }
            lemma_no_marker(a1[i]);
        }
    }
}

/// The tiny face is as wide in every mood and frame, and no marker is left
/// in it.
pub proof fn law_tiny_footprint(species: Species, m1: Mood, f1: usize, m2: Mood, f2: usize)
    ensures
        put_face(tiny_text(species), face_of(m1, f1 % 4 == 3).0, face_of(m1, f1 % 4 == 3).1).len()
            == put_face(tiny_text(species), face_of(m2, f2 % 4 == 3).0, face_of(m2, f2 % 4 == 3).1).len(),
        !put_face(tiny_text(species), face_of(m1, f1 % 4 == 3).0, face_of(m1, f1 % 4 == 3).1).contains('%'),
        !put_face(tiny_text(species), face_of(m1, f1 % 4 == 3).0, face_of(m1, f1 % 4 == 3).1).contains('&'),
{
    lemma_face_plain(m1, f1 % 4 == 3);
    lemma_face_plain(m2, f2 % 4 == 3);
    lemma_put_face_no_marker(tiny_text(species), face_of(m1, f1 % 4 == 3).0, face_of(m1, f1 % 4 == 3).1);
    lemma_put_face_no_marker(tiny_text(species), face_of(m2, f2 % 4 == 3).0, face_of(m2, f2 % 4 == 3).1);
}

} // verus!
