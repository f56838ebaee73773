use tama::assistant::Kind;
use tama::i18n::Lang;
use tama::bigtime::big_time;
use tama::card::{bubble_panel, AssistantMsg};
use tama::line::{line_w, Color, Line};
use tama::pet::Pet;
use tama::pomo_view::{clock_column, PomoRun};
use tama::screen::{Key, Screen};
use tama::session::App;
use tama::setup::{gallery_lines, name_content, picker_content};
use tama::species::Species;
use tama::state::Schedule;

fn text(l: &Line) -> String {
    l.iter().map(|(s, ..)| s.as_str()).collect()
}

fn app() -> App {
    let pet = Pet { name: "rex".to_string(), ..Pet::default() };
    App::new(pet, Schedule::default(), "12:00".to_string(), 12, 1_000, Lang::PtBr)
}

#[test]
fn the_clock_column_keeps_its_size_idle_or_running() {
    let (idle, w) = clock_column(Lang::PtBr, "25:00", None, 1, Color::Cyan);
    let run = PomoRun { label: "foco", focus: true, frac: 50, cycle: 2 };
    let (busy, w2) = clock_column(Lang::PtBr, "25:00", Some(&run), 1, Color::Yellow);
    // four digits of 7 columns and a colon of 3
    assert_eq!(w, 31);
    assert_eq!(w2, w);
    assert_eq!(idle.len(), 10);
    assert_eq!(busy.len(), 10);
    for row in idle.iter().chain(busy.iter()) {
        assert_eq!(line_w(row), w);
    }
    let digits = big_time("25:00");
    for k in 0..5 {
        assert_eq!(text(&idle[1 + k]), digits[k]);
        assert_eq!(text(&busy[1 + k]), digits[k]);
    }
    assert!(text(&idle[8]).starts_with("▸ 2 "));
    assert!(text(&busy[7]).starts_with("██████████░░░░░░░░░░  "));
    assert!(text(&busy[7]).contains(" 2"));
}

#[test]
fn the_gallery_lists_every_species_with_its_sprites() {
    let lines = gallery_lines(Lang::PtBr);
    assert_eq!(lines[0], "");
    assert_eq!(lines[1], "== gato ==");
    assert!(lines[2].starts_with("  "));
    assert_eq!(lines.iter().filter(|l| l.starts_with("== ")).count(), 10);
    assert!(lines.iter().any(|l| l == "== polvo =="));
    assert!(lines.last().unwrap().starts_with("  (mini) "));
}

#[test]
fn the_picker_titles_the_highlighted_species_and_its_place() {
    let rows = picker_content(Lang::PtBr, 3, 0, 80, 40);
    assert!(text(&rows[0]).ends_with("  dragão (4/10)"));
    assert_eq!(text(&rows[1]), "");
    // five cells of 15 columns per row at 80 columns
    assert_eq!(text(&rows[2]).chars().count(), 75);
    assert!(text(&rows[3]).contains("gato"));
    assert!(text(&rows[3]).contains("raposa") == false);
    assert!(text(&rows[6]).contains("raposa"));
}

#[test]
fn the_name_prompt_shows_the_sprite_and_the_caret() {
    let buf: Vec<char> = "Bi".chars().collect();
    let rows = name_content(Lang::PtBr, Species::Cat, &buf, 0);
    assert_eq!(text(&rows[0]), "qual o nome do seu pet?");
    assert_eq!(text(&rows[1]), "");
    assert_eq!(text(&rows[rows.len() - 2]), "");
    assert_eq!(text(&rows[rows.len() - 1]), "> Bi_");
}

#[test]
fn the_bubble_shows_who_asks_the_text_and_the_meta_row() {
    let m = AssistantMsg {
        text: "posso publicar?".to_string(),
        from: "ci".to_string(),
        kind: Kind::Info,
        kind_label: "info",
        options: Some(vec!["sim".to_string(), "não".to_string()]),
        expires_in: Some(42),
        input: None,
        input_ok: false,
        sel: 0,
    };
    let rows = bubble_panel(Lang::PtBr, Some(&m), "12:00", 70);
    assert_eq!(rows.len(), 11);
    for r in &rows {
        assert_eq!(line_w(r), 70);
    }
    assert!(text(&rows[1]).starts_with("│ ci "));
    assert!(text(&rows[1]).contains(":"));
    // the text row carries the tail toward the pet
    assert!(text(&rows[2]).starts_with("< posso publicar?"));
    assert!(text(&rows[6]).contains("ci"));
    assert!(text(&rows[6]).contains("12:00"));
    assert!(text(&rows[6]).contains(" 42s"));
    let none = bubble_panel(Lang::PtBr, None, "12:00", 40);
    assert!(text(&none[1]).contains("sem mensagens"));
}

#[test]
fn the_screen_is_exactly_the_terminal_with_no_control_characters() {
    let mut a = app();
    a.receive("{\"message\":\"olá\",\"from\":\"x\"}");
    let rows = a.screen_rows(60, 20);
    assert_eq!(rows.len(), 20);
    for r in &rows {
        assert_eq!(line_w(r), 60);
        assert!(!text(r).chars().any(|c| c.is_control()));
    }
    assert!(text(&rows[0]).starts_with('┌'));
    assert!(text(&rows[19]).starts_with('└'));
}

#[test]
fn due_things_announce_in_order_reminders_then_timer() {
    let mut a = app();
    a.receive("{\"remind\":\"beber água\",\"in\":\"1s\"}");
    a.receive("{\"timer\":\"2s\"}");
    assert_eq!(a.inbox.queue.len(), 0);
    a.set_clock("12:01".to_string(), 12, 1_005);
    a.fire_due();
    assert_eq!(a.inbox.queue.len(), 2);
    let texts: Vec<String> = a
        .inbox
        .queue
        .iter()
        .map(|m| match m {
            tama::assistant::Msg::Say { text, .. } => text.clone(),
            _ => String::new(),
        })
        .collect();
    assert!(texts[0].contains("beber água"));
    assert!(!texts[1].contains("beber água"));
    assert!(a.reminders.is_empty());
    assert!(a.timer_until.is_none());
    assert!(a.schedule_dirty);
    assert_eq!(a.screen, Screen::Assistant);
}

#[test]
fn a_command_and_a_message_on_one_line_apply_in_order() {
    let mut a = app();
    a.receive("{\"command\":\"sleep\",\"message\":\"boa noite\"}");
    assert!(a.pet.sleeping);
    assert_eq!(a.inbox.queue.len(), 1);
    assert_eq!(a.screen, Screen::Assistant);
}

#[test]
fn keys_outside_a_screen_s_set_change_nothing() {
    let mut a = app();
    let before = a.screen;
    a.on_key(Key::Char('?'));
    assert_eq!(a.screen, before);
    a.on_key(Key::Char(' '));
    assert_eq!(a.screen, Screen::Actions(0));
    a.on_key(Key::Up);
    assert_eq!(a.screen, Screen::Actions(8));
    a.on_key(Key::Esc);
    assert_eq!(a.screen, Screen::Home);
}

#[test]
fn the_wide_assistant_screen_shows_the_bubble_beside_the_pet() {
    let mut a = app();
    a.receive("{\"message\":\"olá mundo\",\"from\":\"ci\"}");
    a.promote_assistant();
    let (rows, _) = a.frame_content(100, 40);
    let texts: Vec<String> = rows.iter().map(text).collect();
    let at = texts.iter().position(|t| t.contains("│ olá mundo")).expect("the bubble's text row");
    assert!(texts[at].trim_end().ends_with('│'));
    // the tail toward the pet, on the row below
    assert!(texts[at + 1].contains("< "));
    assert!(texts.iter().any(|t| t.contains("ci") && t.contains("12:00")));
}

#[test]
fn a_narrow_pomodoro_screen_shows_the_big_clock_under_its_title() {
    let mut a = app();
    a.on_key(Key::Char(' '));
    a.on_key(Key::Char('7'));
    assert_eq!(a.screen, Screen::Pomo(0));
    let (rows, _) = a.frame_content(40, 20);
    let digits = big_time("25:00");
    for k in 0..5 {
        assert_eq!(text(&rows[2 + k]), digits[k]);
    }
}

#[test]
fn the_wide_pomodoro_screen_has_its_key_cap_and_the_pet_beside_the_clock() {
    let mut a = app();
    a.on_key(Key::Char(' '));
    a.on_key(Key::Char('7'));
    let (rows, _) = a.frame_content(100, 40);
    let head = text(&rows[0]);
    assert_eq!(head.chars().count(), 96);
    assert!(head.starts_with("~ tama ~"));
    assert!(head.ends_with(" pomodoro "));
    let digits = big_time("25:00");
    assert!(rows.iter().any(|r| text(r).contains(digits[0].as_str())));
}
