use tama::pet::Pet;
use tama::species::Species;
use tama::state::{parse, parse_schedule, serialize, serialize_schedule, PomoState, Schedule, STALE_SECS};

#[test]
fn schedule_round_trips() {
    let s = Schedule {
        reminders: vec![("standup do time".into(), 2000), ("beber água".into(), 2500)],
        timer: Some(3000),
        pomo: Some(PomoState { work: 1500, rest: 300, focus: true, until: 2900, cycles: 2 }),
    };
    assert_eq!(parse_schedule(&serialize_schedule(&s), 1000), s);
}

#[test]
fn schedule_drops_what_went_stale_while_the_app_was_closed() {
    let now = 100_000;
    let s = Schedule {
        reminders: vec![("ontem".into(), now - STALE_SECS - 1), ("agorinha".into(), now - 60)],
        timer: Some(now - STALE_SECS - 1),
        pomo: None,
    };
    let back = parse_schedule(&serialize_schedule(&s), now);
    // the just-missed one still fires; the ancient one is gone
    assert_eq!(back.reminders, vec![("agorinha".to_string(), now - 60)]);
    assert_eq!(back.timer, None);
}

#[test]
fn schedule_survives_garbage_and_newlines_in_text() {
    let s = Schedule {
        reminders: vec![("duas\nlinhas".into(), 500)],
        ..Default::default()
    };
    let back = parse_schedule(&serialize_schedule(&s), 0);
    assert_eq!(back.reminders, vec![("duas linhas".to_string(), 500)]);
    // junk lines are skipped, not fatal
    let back = parse_schedule("lixo\nremind=abc texto\npomo=1,2\ntimer=x\n", 0);
    assert_eq!(back, Schedule::default());
}

#[test]
fn state_round_trip() {
    let pet = Pet {
        species: Species::Dragon,
        name: "rex da silva".to_string(),
        hunger: 42,
        happiness: 7,
        energy: 100,
        hygiene: 55,
        xp: 340,
        level: 3,
        born: 99,
        last_seen: 123,
        zen: true,
        sleeping: false,
        tick_parity: false,
    };
    assert_eq!(parse(&serialize(&pet)), pet);
}

#[test]
fn parse_garbage_falls_back_to_default() {
    let pet = parse("not a state file\nhunger=abc\nunknown=1");
    assert_eq!(pet.hunger, Pet::default().hunger);
    assert_eq!(pet.level, 1);
}

#[test]
fn parse_partial_file_keeps_defaults_for_missing_fields() {
    let pet = parse("species=dog\nhunger=10\n");
    assert_eq!(pet.species, Species::Dog);
    assert_eq!(pet.hunger, 10);
    assert_eq!(pet.hygiene, Pet::default().hygiene);
    assert!(pet.name.is_empty());
}
