use tama::assistant::Kind;
use tama::i18n::{detect, fill, fmt_secs, kind_label, mood_label, msg_warning, species_name, t, Lang};
use tama::pet::Mood;
use tama::species::{Species, SPECIES};

#[test]
fn every_locale_labels_every_enum_variant() {
    for s in [t(Lang::PtBr), t(Lang::En)] {
        for (i, &sp) in SPECIES.iter().enumerate() {
            assert_eq!(i, sp as usize, "SPECIES order must match the locale tables");
            assert!(!s.species_names[i].is_empty());
            assert!(!s.species_traits[i].is_empty());
            assert!(!s.species_sounds[i].is_empty());
            assert!(!s.species_tastes[i].0.is_empty());
            assert!(!s.species_tastes[i].1.is_empty());
        }
        assert!(s.mood_labels.iter().all(|l| !l.is_empty()));
        assert!(s.kind_labels.iter().all(|l| !l.is_empty()));
        assert!(s.action_labels.iter().all(|l| !l.is_empty()));
        assert!(s.food_names.iter().all(|l| !l.is_empty()));
        // only Happy and Sleeping are warning-free
        assert_eq!(2, s.msg_warnings.iter().filter(|w| w.is_empty()).count());
    }
}

#[test]
fn footers_go_widest_first() {
    // the screen picks the first candidate that fits, so a shorter terminal
    // must never get a LONGER footer than a wider one.
    for s in [t(Lang::PtBr), t(Lang::En)] {
        for f in [&s.footer_home[..], &s.footer_assistant, &s.footer_ask, &s.footer_input] {
            let widths: Vec<usize> = f.iter().map(|c| c.chars().count()).collect();
            assert!(widths.windows(2).all(|w| w[0] > w[1]), "not descending: {f:?}");
        }
    }
}

#[test]
fn accessors_follow_the_selected_locale() {
    assert_eq!("gato", t(Lang::PtBr).species_names[Species::Cat as usize]);
    assert_eq!("cat", t(Lang::En).species_names[Species::Cat as usize]);
    assert_eq!("dormindo", t(Lang::PtBr).mood_labels[Mood::Sleeping as usize]);
    assert_eq!("sleeping", t(Lang::En).mood_labels[Mood::Sleeping as usize]);
    assert_eq!("erro", t(Lang::PtBr).kind_labels[Kind::Error as usize]);
    assert_eq!("error", t(Lang::En).kind_labels[Kind::Error as usize]);
}

#[test]
fn accessors_read_the_given_language() {
    assert_eq!("gato", species_name(Lang::PtBr, Species::Cat));
    assert_eq!("cat", species_name(Lang::En, Species::Cat));
    assert_eq!("sleeping", mood_label(Lang::En, Mood::Sleeping));
    assert_eq!("error", kind_label(Lang::En, Kind::Error));
    assert_eq!("erro", kind_label(Lang::PtBr, Kind::Error));
}

#[test]
fn the_first_set_locale_variable_decides() {
    assert_eq!(Lang::En, detect(Some("en_US.UTF-8"), Some("pt_BR.UTF-8"), None));
    assert_eq!(Lang::PtBr, detect(Some("pt_BR"), Some("en_US"), Some("en_US")));
    assert_eq!(Lang::En, detect(None, Some("EN_GB"), Some("pt_BR")));
    assert_eq!(Lang::En, detect(None, None, Some("en")));
    // a set but empty variable still decides
    assert_eq!(Lang::PtBr, detect(Some(""), Some("en_US"), None));
    // anything not English keeps the pt-BR default
    assert_eq!(Lang::PtBr, detect(None, None, Some("de_DE")));
    assert_eq!(Lang::PtBr, detect(None, None, Some("e")));
    assert_eq!(Lang::PtBr, detect(None, None, None));
}

#[test]
fn english_warnings_name_the_pet() {
    assert_eq!(Some("rex is hungry!".to_string()), msg_warning(Lang::En, Mood::Hungry, "rex"));
    assert!(msg_warning(Lang::En, Mood::Sleeping, "rex").is_none());
}

#[test]
fn fill_substitutes_every_named_placeholder() {
    assert_eq!("a-b", fill("{x}-{y}", &[("x", "a"), ("y", "b")]));
    assert_eq!("hi tama!", fill("hi {name}!", &[("name", "tama")]));
}

#[test]
fn fill_never_substitutes_into_a_value() {
    // the answer contains a literal placeholder: it must survive as text
    let out = fill("you said \"{answer}\" to: {text}", &[("answer", "{text}"), ("text", "why")]);
    assert_eq!("you said \"{text}\" to: why", out);
}

#[test]
fn fill_keeps_unknown_placeholders_visible() {
    assert_eq!("{oops} here", fill("{oops} here", &[("name", "x")]));
}

#[test]
fn fill_tolerates_unbalanced_braces() {
    assert_eq!("a {b", fill("a {b", &[("b", "!")]));
    assert_eq!("100% } done", fill("100% } done", &[]));
}

#[test]
fn fmt_secs_switches_to_minutes_at_sixty() {
    assert_eq!("59s", fmt_secs(59));
    assert_eq!("1m00s", fmt_secs(60));
    assert_eq!("2m05s", fmt_secs(125));
}

#[test]
fn warnings_exist_only_for_the_moods_that_need_one() {
    assert!(msg_warning(Lang::PtBr, Mood::Happy, "tama").is_none());
    assert!(msg_warning(Lang::PtBr, Mood::Sleeping, "tama").is_none());
    for m in [Mood::Hungry, Mood::Dirty, Mood::Sleepy, Mood::Sad] {
        assert!(msg_warning(Lang::PtBr, m, "tama").is_some_and(|w| w.contains("tama")));
    }
}
