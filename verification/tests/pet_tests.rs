use tama::pet::{food, Mood, Pet};

#[test]
fn tick_decays_hunger_energy_and_hygiene_on_alternate_ticks() {
    let mut pet = Pet::default();
    pet.tick();
    assert_eq!((pet.hunger, pet.energy, pet.hygiene), (79, 89, 79));
    pet.tick();
    assert_eq!((pet.hunger, pet.energy, pet.hygiene), (78, 88, 79));
}

#[test]
fn happiness_drops_only_when_a_need_is_low() {
    let mut pet = Pet { happiness: 50, ..Pet::default() };
    pet.tick();
    assert_eq!(pet.happiness, 50);
    pet.hunger = 20;
    pet.tick();
    assert_eq!(pet.happiness, 49);
}

#[test]
fn sleeping_tick_recovers_energy_and_wakes_at_full() {
    let mut pet = Pet { sleeping: true, energy: 96, ..Pet::default() };
    pet.tick();
    assert_eq!(pet.energy, 100);
    assert!(!pet.sleeping);
}

#[test]
fn offline_decay_is_capped() {
    let mut pet = Pet { last_seen: 0, ..Pet::default() };
    pet.apply_offline_decay();
    assert_eq!(pet.hunger, 0);
    assert!(pet.hygiene < Pet::default().hygiene);
    assert!(pet.happiness < Pet::default().happiness);
}

#[test]
fn zen_blocks_decay() {
    let mut pet = Pet { zen: true, last_seen: 0, ..Pet::default() };
    let before = pet.clone();
    pet.apply_offline_decay();
    pet.tick();
    assert_eq!(
        (pet.hunger, pet.happiness, pet.energy, pet.hygiene),
        (before.hunger, before.happiness, before.energy, before.hygiene)
    );
}

#[test]
fn xp_levels_up_with_carry() {
    let mut pet = Pet::default();
    assert!(!pet.gain_xp(90));
    assert!(pet.gain_xp(30));
    assert_eq!((pet.level, pet.xp), (2, 20));
    assert_eq!(pet.xp_needed(), 200);
}

#[test]
fn food_applies_effects_and_clamps() {
    let mut pet = Pet { hunger: 90, hygiene: 5, ..Pet::default() };
    pet.eat(&food(2)); // cake: +35 hunger, -10 hygiene
    assert_eq!(pet.hunger, 100);
    assert_eq!(pet.hygiene, 0);
}

#[test]
fn mood_precedence_sleeping_hungry_dirty_sleepy_sad() {
    let mut pet = Pet { hunger: 0, hygiene: 0, energy: 0, happiness: 0, ..Pet::default() };
    pet.sleeping = true;
    assert_eq!(pet.mood(), Mood::Sleeping);
    pet.sleeping = false;
    assert_eq!(pet.mood(), Mood::Hungry);
    pet.hunger = 50;
    assert_eq!(pet.mood(), Mood::Dirty);
    pet.hygiene = 50;
    assert_eq!(pet.mood(), Mood::Sleepy);
    pet.energy = 50;
    assert_eq!(pet.mood(), Mood::Sad);
    pet.happiness = 50;
    assert_eq!(pet.mood(), Mood::Happy);
}

#[test]
fn zen_masks_needy_moods() {
    let pet = Pet { zen: true, hunger: 0, hygiene: 0, energy: 0, happiness: 0, ..Pet::default() };
    assert_eq!(pet.mood(), Mood::Happy);
}

#[test]
fn a_pet_with_no_tick_due_is_only_stamped() {
    // an over-full sleeping pet seen just now: nothing to decay, no refusal
    let mut pet = Pet { sleeping: true, energy: 255, last_seen: 1_000, ..Pet::default() };
    assert!(pet.decay_ok_at(1_010));
    pet.apply_offline_decay_at(1_010);
    assert_eq!((pet.energy, pet.last_seen), (255, 1_010));
    // a day away: a day's worth of ticks
    let mut pet = Pet { last_seen: 0, ..Pet::default() };
    pet.apply_offline_decay_at(1_000_000);
    assert_eq!((pet.hunger, pet.last_seen), (0, 1_000_000));
}
