use tama::pet::Pet;
use tama::i18n::Lang;
use tama::screen::{Key, Screen};
use tama::session::App;
use tama::state::Schedule;

fn app() -> App {
    let pet = Pet { name: "rex".to_string(), ..Pet::default() };
    App::new(pet, Schedule::default(), "12:00".to_string(), 12, 1_000, Lang::PtBr)
}

#[test]
fn a_question_on_the_food_menu_returns_there_once_answered() {
    let mut a = app();
    a.on_key(Key::Char(' '));
    a.on_key(Key::Char('1'));
    assert_eq!(a.screen, Screen::Menu(0));
    a.receive("{\"message\":\"seguir?\",\"actions\":\"sim\\nnão\",\"id\":\"q9\"}");
    assert_eq!(a.screen, Screen::Assistant);
    a.promote_assistant();
    assert!(a.inbox.current.is_some());
    a.on_key(Key::Char('1'));
    let fx = a.take_effects();
    assert_eq!(fx.answers[0].id, "q9");
    assert_eq!(fx.answers[0].answer, "sim");
    a.promote_assistant();
    assert_eq!(a.screen, Screen::Menu(0));
}

#[test]
fn progress_bars_belong_to_their_source() {
    let mut a = app();
    a.receive("{\"progress\":30,\"from\":\"a\"}");
    a.receive("{\"progress\":50,\"from\":\"b\"}");
    a.receive("{\"progress\":40,\"from\":\"a\"}");
    assert_eq!(a.progress, vec![("a".to_string(), 40), ("b".to_string(), 50)]);
    a.receive("{\"progress\":100,\"from\":\"a\"}");
    assert_eq!(a.progress, vec![("b".to_string(), 50)]);
}

#[test]
fn a_zen_pet_does_not_decay() {
    let pet = Pet { name: "rex".to_string(), zen: true, hunger: 40, ..Pet::default() };
    let mut p = pet.clone();
    for _ in 0..50 {
        p.tick();
    }
    assert_eq!(p, pet);
}

#[test]
fn a_round_of_the_game_pleases_by_five_or_fifteen() {
    let pet = Pet { name: "rex".to_string(), happiness: 50, energy: 50, ..Pet::default() };
    let mut a = App::new(pet, Schedule::default(), "12:00".to_string(), 12, 1_000, Lang::PtBr);
    a.do_game(0);
    let gained = a.pet.happiness - 50;
    assert!(gained == 5 || gained == 15);
    assert_eq!(a.pet.energy, 45);
    assert!(a.take_effects().save);
}

fn log_rows(a: &App) -> Vec<Vec<(String, Option<tama::line::Color>)>> {
    a.log.iter().map(|l| l.iter().map(|(s, fg, _)| (s.clone(), *fg)).collect()).collect()
}

#[test]
fn playing_logs_its_entry_with_the_xp_it_earned() {
    let mut a = app();
    a.do_play();
    let rows = log_rows(&a);
    let last = rows.last().unwrap();
    assert_eq!(last[0].0, "12:00 ");
    assert_eq!(last[1].0, "você brincou com rex");
    assert_eq!(last[2], (" (+10 xp)".to_string(), Some(tama::line::Color::Cyan)));
}

#[test]
fn an_expired_question_is_logged_under_a_question_mark() {
    let mut a = app();
    a.receive("{\"message\":\"ok?\",\"actions\":\"sim\",\"id\":\"q5\",\"expires\":\"1001\"}");
    a.set_clock("12:01".to_string(), 12, 1_002);
    a.purge_expired();
    assert!(a.inbox.queue.is_empty());
    let rows = log_rows(&a);
    assert_eq!(rows.last().unwrap()[1].0, "pergunta de ? expirou");
}

#[test]
fn a_hungry_pet_raises_one_warning() {
    let pet = Pet { name: "rex".to_string(), hunger: 10, ..Pet::default() };
    let mut a = App::new(pet, Schedule::default(), "12:00".to_string(), 12, 1_000, Lang::PtBr);
    a.prev_mood = tama::pet::Mood::Happy;
    a.tick();
    a.tick();
    let rows = log_rows(&a);
    assert_eq!(rows.len(), 1);
    assert_eq!(rows[0][1].0, "rex está com fome!");
}

#[test]
fn a_failed_answer_write_is_noted_in_red() {
    let mut a = app();
    a.note_answer("respondeu sim".to_string(), Some("disco cheio".to_string()));
    let rows = log_rows(&a);
    assert_eq!(rows[0], vec![("respondeu sim (disco cheio)".to_string(), Some(tama::line::Color::Red))]);
}

#[test]
fn alt_enter_is_enter_outside_a_typed_answer() {
    let mut a = app();
    let mut b = app();
    for k in [Key::Char(' '), Key::Enter] {
        a.on_key(k);
    }
    for k in [Key::Char(' '), Key::AltEnter] {
        b.on_key(k);
    }
    assert_eq!(a.screen, b.screen);
    assert_eq!(b.screen, Screen::Menu(0));
}

#[test]
fn alt_enter_chooses_in_the_picker_and_names_the_pet() {
    assert!(matches!(
        tama::setup::picker_key(2, 5, Key::AltEnter),
        tama::setup::PickStep::Chosen(tama::species::Species::Bunny)
    ));
    let mut buf: Vec<char> = "Rex".chars().collect();
    assert_eq!(tama::setup::name_key(Lang::PtBr, &mut buf, Key::AltEnter), Some("Rex".to_string()));
}
