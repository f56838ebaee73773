use tama::assistant::{wait_step, Kind};
use tama::assistant_view::build_assistant;
use tama::bigtime::big_time;
use tama::card::AssistantMsg;
use tama::clock::Clock;
use tama::home::build_panels;
use tama::i18n::{t, Lang};
use tama::line::Line;
use tama::pet::Pet;
use tama::pomo_view::{build_pomo, PomoRun};
use tama::session::App;
use tama::species::ArtSize;
use tama::state::Schedule;
use tama::widgets::HomeView;

fn text_of(l: &Line) -> String {
    l.iter().map(|(s, ..)| s.clone()).collect()
}

fn view(lang: Lang) -> HomeView {
    HomeView {
        log: Vec::new(),
        clock_text: "12:00".to_string(),
        hour: 12,
        now: 0,
        timer: None,
        progress: Vec::new(),
        lang,
    }
}

fn rex() -> Pet {
    Pet { name: "rex".to_string(), ..Pet::default() }
}

#[test]
fn a_fresh_clock_reading_is_kept_and_a_stale_one_replaced() {
    let mut c = Clock::new(Some("09:15\n".to_string()), 100);
    assert!(!c.stale(110));
    // still fresh: what the command printed is not looked at
    assert_eq!(c.get(110, Some("23:59\n".to_string())), ("09:15".to_string(), 9));
    assert!(c.stale(121));
    assert_eq!(c.get(121, Some(" 10:42\n".to_string())), ("10:42".to_string(), 10));
    assert_eq!(c.fetched, 121);
    // a failed command shows the placeholder at noon
    assert_eq!(c.get(200, None), ("--:--".to_string(), 12));
}

#[test]
fn an_english_app_logs_in_english() {
    let mut a = App::new(rex(), Schedule::default(), "12:00".to_string(), 12, 1_000, Lang::En);
    a.do_play();
    let last = a.log.back().unwrap();
    assert!(text_of(last).contains("you played with rex"));
}

#[test]
fn the_full_pomodoro_tier_boxes_the_clock_beside_the_pet() {
    let run = PomoRun { label: "foco", focus: true, frac: 40, cycle: 2 };
    let c = build_pomo(&rex(), 0, &view(Lang::PtBr), "25:00", Some(&run), 0, 96, 40);
    assert!(text_of(&c[2]).starts_with("┌─ foco "));
    // focus is yellow
    assert_eq!(c[3][0].1, Some(tama::line::Color::Yellow));
    let digits = big_time("25:00");
    let body: Vec<String> = c.iter().map(text_of).collect();
    for d in digits.iter() {
        assert!(body.iter().any(|row| row.contains(d.as_str())), "missing clock row {d:?}");
    }
    assert!(body.iter().any(|row| row.contains(t(Lang::PtBr).pomo_tasks)));
    // a break is blue
    let rest = PomoRun { label: "pausa", focus: false, frac: 10, cycle: 2 };
    let c = build_pomo(&rex(), 0, &view(Lang::PtBr), "05:00", Some(&rest), 0, 96, 40);
    assert!(text_of(&c[2]).starts_with("┌─ pausa "));
    assert_eq!(c[3][0].1, Some(tama::line::Color::Blue));
}

#[test]
fn the_status_panel_lists_the_four_bars_then_xp() {
    let pet = rex();
    let c = build_panels(&pet, 0, &view(Lang::PtBr), 96, ArtSize::Small, true, true, 3, 0);
    let rows: Vec<String> = c.iter().map(text_of).collect();
    let labels = t(Lang::PtBr).stat_labels;
    for (i, label) in labels.iter().enumerate() {
        assert!(rows[3 + i].contains(label), "row {} lacks {label}", 3 + i);
    }
    assert!(rows[7].contains("xp"));
    assert!(rows[11].contains("gosta de"));
    assert!(rows[12].contains("detesta"));
}

#[test]
fn the_compact_bubble_wraps_the_question_not_the_sender() {
    let m = AssistantMsg {
        text: "posso subir a versão agora?".to_string(),
        from: "agente".to_string(),
        kind: Kind::Info,
        kind_label: "info",
        options: Some(vec!["sim".to_string(), "não".to_string()]),
        expires_in: None,
        input: None,
        input_ok: false,
        sel: 0,
    };
    let c = build_assistant(&rex(), 0, Some(&m), &[], 0, &view(Lang::PtBr), 60, 20);
    let rows: Vec<String> = c.iter().map(text_of).collect();
    assert!(rows[1].contains("agente pergunta:"));
    assert!(rows[2].contains("posso subir"));
    assert!(rows[4].contains("sim"));
    assert!(rows[5].contains("não"));
}

#[test]
fn the_compact_bubble_waits_in_english_without_a_message() {
    let c = build_assistant(&rex(), 0, None, &[], 0, &view(Lang::En), 60, 20);
    let rows: Vec<String> = c.iter().map(text_of).collect();
    assert!(rows[1].contains("no messages"));
}

#[test]
fn waiting_for_an_answer_stops_at_the_answer_or_the_deadline() {
    let file = "{\"id\":\"a1\",\"answer\":\"sim\"}\n";
    assert_eq!(wait_step(file, "a1", Some(10), 50), Some(Some("sim".to_string())));
    assert_eq!(wait_step(file, "b2", Some(10), 50), Some(None));
    assert_eq!(wait_step(file, "b2", Some(100), 50), None);
    assert_eq!(wait_step("", "b2", None, 50), None);
}
