use tama::line::{line_w, plain};
use tama::i18n::Lang;
use tama::pet::Pet;
use tama::screen::{Key, Screen};
use tama::session::{App, LOG_CAP};
use tama::state::Schedule;

fn app() -> App {
    let pet = Pet { name: "rex".to_string(), ..Pet::default() };
    App::new(pet, Schedule::default(), "12:00".to_string(), 12, 1_000, Lang::PtBr)
}

fn log_text(a: &App) -> Vec<String> {
    a.log.iter().map(|l| l.iter().map(|(s, ..)| s.clone()).collect()).collect()
}

#[test]
fn a_message_from_home_opens_the_assistant_screen() {
    let mut a = app();
    a.receive("{\"message\":\"build ok\",\"type\":\"success\",\"from\":\"ci\"}");
    assert_eq!(a.screen, Screen::Assistant);
    assert_eq!(a.inbox.queue.len(), 1);
    a.promote_assistant();
    assert!(a.inbox.current.is_some());
}

#[test]
fn a_question_rings_and_its_answer_goes_out_with_its_id() {
    let mut a = app();
    a.receive("{\"message\":\"posso?\",\"actions\":\"sim\\nnão\",\"id\":\"q1\",\"from\":\"agente\"}");
    assert_eq!(a.screen, Screen::Assistant);
    a.promote_assistant();
    let fx = a.take_effects();
    assert!(fx.bell);
    assert!(!a.take_effects().bell);
    // the second option by its number key
    assert!(!a.on_key(Key::Char('2')));
    let fx = a.take_effects();
    assert_eq!(fx.answers.len(), 1);
    assert_eq!(fx.answers[0].id, "q1");
    assert_eq!(fx.answers[0].answer, "não");
    assert!(fx.answers[0].entry.contains("não"));
    assert!(a.inbox.current.is_none());
    // the program reports the write; the log shows the entry
    a.note_answer(fx.answers[0].entry.clone(), None);
    assert!(log_text(&a).last().unwrap().contains("não"));
}

#[test]
fn arrows_and_enter_pick_the_highlighted_option() {
    let mut a = app();
    a.receive("{\"message\":\"qual?\",\"actions\":\"a\\nb\\nc\",\"id\":\"q2\"}");
    a.promote_assistant();
    a.on_key(Key::Down);
    a.on_key(Key::Down);
    a.on_key(Key::Down); // wraps back to the first
    a.on_key(Key::Up); // and back to the last
    a.on_key(Key::Enter);
    let fx = a.take_effects();
    assert_eq!(fx.answers[0].answer, "c");
}

#[test]
fn a_typed_answer_is_trimmed_and_sent() {
    let mut a = app();
    a.receive("{\"message\":\"por quê?\",\"actions\":\"\",\"id\":\"q3\",\"input\":true}");
    a.promote_assistant();
    // a text-only question opens the field by itself
    assert!(a.input.is_some());
    for c in "  porque sim ".chars() {
        a.on_key(Key::Char(c));
    }
    a.on_key(Key::Enter);
    let fx = a.take_effects();
    assert_eq!(fx.answers[0].id, "q3");
    assert_eq!(fx.answers[0].answer, "porque sim");
}

#[test]
fn quitting_answers_every_waiting_question_ignored() {
    let mut a = app();
    a.receive("{\"message\":\"um?\",\"actions\":\"s\\nn\",\"id\":\"q4\"}");
    a.receive("{\"message\":\"dois?\",\"actions\":\"s\\nn\",\"id\":\"q5\"}");
    a.promote_assistant();
    assert!(a.on_key(Key::Char('q')));
    let fx = a.take_effects();
    let mut ids = fx.ignored.clone();
    ids.sort();
    assert_eq!(ids, vec!["q4".to_string(), "q5".to_string()]);
    assert!(a.inbox.current.is_none() && a.inbox.queue.is_empty());
}

#[test]
fn the_log_keeps_only_its_last_entries() {
    let mut a = app();
    for i in 0..(LOG_CAP + 5) {
        a.log_line(plain(format!("event {i}")));
    }
    assert_eq!(a.log.len(), LOG_CAP);
    assert_eq!(log_text(&a).last().unwrap(), &format!("event {}", LOG_CAP + 4));
    assert_eq!(log_text(&a)[0], "event 5");
}

#[test]
fn home_keys_open_screens_and_quit() {
    let mut a = app();
    assert!(!a.on_key(Key::Char(' ')));
    assert_eq!(a.screen, Screen::Actions(0));
    a.on_key(Key::Esc);
    assert_eq!(a.screen, Screen::Home);
    a.on_key(Key::Char('f'));
    assert_eq!(a.screen, Screen::Menu(0));
    a.on_key(Key::Esc);
    a.on_key(Key::Char('c'));
    assert!(a.take_effects().switch_species);
    assert!(a.on_key(Key::Esc));
}

#[test]
fn sleeping_from_home_toggles_and_logs() {
    let mut a = app();
    a.on_key(Key::Char('s'));
    assert!(a.pet.sleeping);
    a.on_key(Key::Char('s'));
    assert!(!a.pet.sleeping);
    assert_eq!(a.log.len(), 2);
}

#[test]
fn a_reminder_is_announced_when_due_and_only_once() {
    let mut a = app();
    a.receive("{\"remind\":\"beber água\",\"in\":\"10s\"}");
    assert_eq!(a.reminders.len(), 1);
    assert_eq!(a.flush_schedule().unwrap().reminders.len(), 1);
    a.fire_due();
    assert_eq!(a.inbox.queue.len(), 0);
    a.set_clock("12:01".to_string(), 12, 1_010);
    a.fire_due();
    assert_eq!(a.inbox.queue.len(), 1);
    assert!(a.reminders.is_empty());
    a.fire_due();
    assert_eq!(a.inbox.queue.len(), 1);
}

#[test]
fn switching_species_is_logged_and_saved() {
    let mut a = app();
    a.switched(tama::species::Species::Dragon);
    assert_eq!(a.pet.species, tama::species::Species::Dragon);
    assert!(a.take_effects().save);
    a.switched(tama::species::Species::Dragon);
    assert!(!a.take_effects().save);
}

#[test]
fn every_screen_fills_the_terminal_frame_exactly() {
    let mut a = app();
    a.receive("{\"message\":\"oi\\tcom\\ntab\",\"from\":\"ci\"}");
    for screen in [Screen::Home, Screen::Actions(1), Screen::Menu(2), Screen::Game, Screen::Pomo(0), Screen::Assistant] {
        a.screen = screen;
        a.promote_assistant();
        a.screen = screen;
        for (cols, rows) in [(100u16, 32u16), (80, 24), (40, 12), (26, 8)] {
            let frame = a.screen_rows(cols, rows);
            assert_eq!(frame.len(), rows as usize, "{screen:?} at {cols}x{rows}");
            assert!(frame.iter().all(|l| line_w(l) == cols as usize), "{screen:?} at {cols}x{rows}");
            let text: String = frame.iter().flat_map(|l| l.iter().map(|(s, ..)| s.clone())).collect();
            assert!(!text.chars().any(|c| c.is_control()), "{screen:?} at {cols}x{rows}");
        }
    }
    assert!(a.screen_rows(3, 10).is_empty());
}

#[test]
fn the_pomodoro_header_counts_down() {
    let mut a = app();
    a.receive("{\"pomodoro\":\"25m\",\"break\":\"5m\"}");
    let (label, countdown) = a.header_timer().unwrap();
    assert_eq!(label, tama::i18n::t(Lang::PtBr).pomo_focus);
    assert_eq!(countdown, "25:00");
    let (_, focus, frac, cycle) = a.pomo_run().unwrap();
    assert!(focus && frac == 0 && cycle == 1);
}
