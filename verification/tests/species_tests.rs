use tama::pet::Mood;
use tama::species::{render_art, render_tiny, ArtSize, Species, SPECIES};

const MOODS: [Mood; 6] = [Mood::Happy, Mood::Hungry, Mood::Dirty, Mood::Sleepy, Mood::Sad, Mood::Sleeping];

#[test]
fn every_species_renders_every_mood_aligned() {
    for species in SPECIES {
        for mood in MOODS {
            for size in [ArtSize::Large, ArtSize::Small] {
                for frame in 0..4 {
                    let lines = render_art(species, mood, frame, size);
                    assert!(!lines.is_empty());
                    let w = lines[0].chars().count();
                    assert!(lines.iter().all(|l| l.chars().count() == w), "{species:?}/{mood:?}/{size:?} misaligned");
                    assert!(lines.iter().all(|l| !l.contains('%') && !l.contains('&')));
                }
            }
        }
    }
}

#[test]
fn every_template_has_exactly_two_eyes_and_one_mouth() {
    for species in SPECIES {
        for size in [ArtSize::Large, ArtSize::Small] {
            let t = species.template(size);
            assert_eq!(t.matches('%').count(), 2, "{species:?}/{size:?} eyes");
            assert_eq!(t.matches('&').count(), 1, "{species:?}/{size:?} mouth");
        }
        let f = species.tiny_face();
        assert_eq!(f.matches('%').count(), 2, "{species:?} tiny eyes");
        assert_eq!(f.matches('&').count(), 1, "{species:?} tiny mouth");
    }
}

#[test]
fn tiny_faces_render_every_mood() {
    for species in SPECIES {
        for mood in MOODS {
            for frame in 0..4 {
                let face = render_tiny(species, mood, frame);
                assert!(!face.contains('%') && !face.contains('&'), "{species:?}/{mood:?}");
            }
        }
    }
}

#[test]
fn sleeping_adds_zzz() {
    let art = render_art(Species::Cat, Mood::Sleeping, 2, ArtSize::Small);
    assert!(art[0].contains("z Z z"));
}

// Falling asleep must not change the art's footprint — the layout would
// reflow otherwise.
#[test]
fn sleeping_keeps_art_dimensions_constant() {
    for species in SPECIES {
        for size in [ArtSize::Large, ArtSize::Small] {
            let awake = render_art(species, Mood::Happy, 0, size);
            let asleep = render_art(species, Mood::Sleeping, 0, size);
            assert_eq!(awake.len(), asleep.len(), "{species:?}/{size:?} height changed");
            assert_eq!(awake[0].chars().count(), asleep[0].chars().count());
        }
        let tiny_awake = render_tiny(species, Mood::Happy, 0);
        let tiny_asleep = render_tiny(species, Mood::Sleeping, 0);
        assert_eq!(tiny_awake.chars().count(), tiny_asleep.chars().count(), "{species:?} tiny width changed");
    }
}

#[test]
fn tiny_face_has_no_trailing_reserve() {
    let face = render_tiny(Species::Bunny, Mood::Happy, 0);
    assert_eq!(face, face.trim_end());
}

#[test]
fn species_ids_round_trip() {
    for s in SPECIES {
        assert_eq!(Species::from_id(s.id()), Some(s));
    }
    assert_eq!(Species::from_id("unicorn"), None);
}
