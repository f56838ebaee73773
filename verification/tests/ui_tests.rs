use tama::answer::input_lines;
use tama::i18n::Lang;
use tama::assistant::Kind;
use tama::bigtime::big_time;
use tama::expression::{animate_art, kind_face};
use tama::i18n::t;
use tama::pet::FOOD_COUNT;
use tama::screen::{ACTION_GLYPHS, FOOD_ICONS};
use tama::species::{render_art_face, ArtSize, Species};

fn check_kind_faces_are_distinct_and_warn_never_blinks() {
    let kinds = [Kind::Info, Kind::Success, Kind::Warn, Kind::Error];
    for (i, a) in kinds.iter().enumerate() {
        for b in kinds.iter().skip(i + 1) {
            assert_ne!(kind_face(*a, 0), kind_face(*b, 0), "{a:?} vs {b:?}");
        }
    }
    assert_eq!(kind_face(Kind::Warn, 3), kind_face(Kind::Warn, 0));
    assert_ne!(kind_face(Kind::Info, 3).0, kind_face(Kind::Info, 0).0); // blinks
}

#[test]
fn ui_kind_faces_are_distinct_and_warn_never_blinks() {
    check_kind_faces_are_distinct_and_warn_never_blinks();
}

#[test]
fn expression_kind_faces_are_distinct_and_warn_never_blinks() {
    check_kind_faces_are_distinct_and_warn_never_blinks();
}

// Hop and shake must not change the art's footprint on any frame.
fn check_kind_animations_preserve_dimensions() {
    for kind in [Kind::Info, Kind::Success, Kind::Warn, Kind::Error] {
        let mut shapes = Vec::new();
        for frame in 0..4 {
            let (eye, mouth) = kind_face(kind, frame);
            let art = animate_art(render_art_face(Species::Dragon, ArtSize::Large, eye, mouth), kind, frame);
            let w = art[0].chars().count();
            assert!(art.iter().all(|l| l.chars().count() == w), "{kind:?} misaligned at frame {frame}");
            shapes.push((art.len(), w));
        }
        assert!(shapes.windows(2).all(|p| p[0] == p[1]), "{kind:?} footprint changed across frames");
    }
}

#[test]
fn ui_kind_animations_preserve_dimensions() {
    check_kind_animations_preserve_dimensions();
}

#[test]
fn expression_kind_animations_preserve_dimensions() {
    check_kind_animations_preserve_dimensions();
}

fn check_big_time_renders_uniform_rows_and_distinct_digits() {
    let art = big_time("25:09");
    assert_eq!(art.len(), 5);
    let w = art[0].chars().count();
    assert_eq!(w, 4 * 7 + 3); // 4 digits + colon
    assert!(art.iter().all(|l| l.chars().count() == w));
    for a in 0..10u8 {
        for b in (a + 1)..10 {
            assert_ne!(big_time(&a.to_string()), big_time(&b.to_string()), "{a} vs {b}");
        }
    }
    assert!(big_time("x").iter().all(|l| l.is_empty())); // unknown chars skipped
}

#[test]
fn ui_big_time_renders_uniform_rows_and_distinct_digits() {
    check_big_time_renders_uniform_rows_and_distinct_digits();
}

#[test]
fn bigtime_big_time_renders_uniform_rows_and_distinct_digits() {
    check_big_time_renders_uniform_rows_and_distinct_digits();
}

#[test]
fn input_wraps_without_losing_a_single_character() {
    // char-exact: spaces and doubled blanks survive the round trip
    let buf = "duas  palavras e mais texto";
    assert_eq!(input_lines(buf, 10).concat(), buf);
    // explicit newlines start a new line, empty ones included
    assert_eq!(input_lines("a\n\nb", 10), vec!["a".to_string(), String::new(), "b".to_string()]);
}

#[test]
fn a_glyph_and_a_label_for_every_action() {
    assert_eq!(ACTION_GLYPHS.len(), t(Lang::PtBr).action_labels.len());
    assert_eq!(FOOD_ICONS.len(), t(Lang::PtBr).food_names.len());
    assert_eq!(FOOD_ICONS.len(), FOOD_COUNT);
}
