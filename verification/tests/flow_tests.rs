use tama::assistant::{parse_msgs, Msg};
use tama::i18n::Lang;
use tama::cli::{ask_outcome, ask_request, run, watch_report, AskPlan, Plan, WatchEnd};
use tama::clock::clock_reading;
use tama::frame::{footer_line, frame_rows, paint_line};
use tama::http::{parse_request, post_step, route, PostStep, Route, ASK_DEFAULT_TTL};
use tama::line::{line_w, plain, seg, Line};
use tama::screen::Key;
use tama::setup::{name_key, picker_cols, picker_key, species_cell, PickStep, NAME_MAX};
use tama::species::{Species, SPECIES};

fn v(items: &[&str]) -> Vec<String> {
    items.iter().map(|s| s.to_string()).collect()
}

fn text_of(l: &Line) -> String {
    l.iter().map(|(s, ..)| s.clone()).collect()
}

// ---------------------------------------------------------------------------
// cli

#[test]
fn say_becomes_one_wire_line_that_reads_back() {
    let plan = run(Lang::PtBr, &v(&["say", "build ok", "--from", "ci", "--type", "success"])).unwrap();
    let Plan::Send(line) = plan else { panic!("expected a line to send") };
    assert_eq!(line, "{\"message\":\"build ok\",\"type\":\"success\",\"from\":\"ci\"}\n");
    match &parse_msgs(Lang::PtBr, &line, 0)[..] {
        [Msg::Say { text, from, .. }] => assert_eq!((text.as_str(), from.as_str()), ("build ok", "ci")),
        other => panic!("{other:?}"),
    }
}

#[test]
fn commands_without_their_argument_print_usage() {
    assert!(matches!(run(Lang::PtBr, &v(&["say"])), Some(Plan::Usage(_))));
    assert!(matches!(run(Lang::PtBr, &v(&["remind", "água"])), Some(Plan::Usage(_))));
    assert!(matches!(run(Lang::PtBr, &v(&["watch"])), Some(Plan::Usage(_))));
    assert!(matches!(run(Lang::PtBr, &v(&["ask", "ok?", "--timeout", "soon"])), Some(Plan::Usage(_))));
    assert!(run(Lang::PtBr, &v(&["--gallery"])).is_none());
    assert!(run(Lang::PtBr, &[]).is_none());
}

#[test]
fn an_ask_gets_a_default_id_and_its_deadline() {
    let Some(Plan::Ask(plan)) = run(Lang::PtBr, &v(&["ask", "posso?", "--timeout", "30s"])) else { panic!() };
    assert_eq!(plan.timeout, Some(30));
    let req = ask_request(&plan, 1_000, 42);
    assert_eq!(req.id, "ask-1000-42");
    assert_eq!(req.deadline, Some(1_030));
    assert!(req.line.contains("\"id\":\"ask-1000-42\""));
    assert!(req.line.contains("\"expires\":1030"));
    let with_id = AskPlan { id: Some("meu".to_string()), timeout: None, ..plan };
    let req = ask_request(&with_id, 1_000, 42);
    assert_eq!(req.id, "meu");
    assert_eq!(req.deadline, None);
}

#[test]
fn an_unanswered_ask_falls_back_to_its_default_or_times_out() {
    assert_eq!(ask_outcome(Some("sim".into()), Some("não".into())), (Some("sim".into()), 0));
    assert_eq!(ask_outcome(None, Some("não".into())), (Some("não".into()), 0));
    assert_eq!(ask_outcome(None, None), (None, 124));
}

#[test]
fn a_watched_command_reports_its_outcome_and_exit_code() {
    let (line, code) = watch_report(Lang::PtBr, "ci", "make", WatchEnd::Success, 3);
    assert_eq!(code, 0);
    assert!(line.contains("\"type\":\"success\""));
    let (line, code) = watch_report(Lang::PtBr, "ci", "make", WatchEnd::Failure(Some(2)), 3);
    assert_eq!(code, 2);
    assert!(line.contains("\"type\":\"error\""));
    let (_, code) = watch_report(Lang::PtBr, "ci", "make", WatchEnd::Failure(None), 3);
    assert_eq!(code, 1);
    let (line, code) = watch_report(Lang::PtBr, "ci", "nada", WatchEnd::NotRun("not found".into()), 0);
    assert_eq!(code, 127);
    assert!(line.contains("nada: not found"));
}

// ---------------------------------------------------------------------------
// http

fn request(raw: &str) -> Option<tama::http::Request> {
    parse_request(raw.as_bytes())
}

#[test]
fn routes_answer_status_posts_and_the_rest() {
    let get = request("GET / HTTP/1.1\r\n\r\n");
    assert!(matches!(route(Lang::PtBr, get, None), Route::Status));
    let post = request("POST / HTTP/1.1\r\nContent-Length: 2\r\n\r\n{}");
    assert!(matches!(route(Lang::PtBr, post, None), Route::Post(b) if b == "{}"));
    let other = request("GET /x HTTP/1.1\r\n\r\n");
    assert!(matches!(route(Lang::PtBr, other, None), Route::Reply(r) if r.starts_with("HTTP/1.1 404")));
    assert!(matches!(route(Lang::PtBr, None, None), Route::Reply(r) if r.starts_with("HTTP/1.1 400")));
}

#[test]
fn a_token_guards_every_route() {
    let no_auth = request("GET / HTTP/1.1\r\n\r\n");
    assert!(matches!(route(Lang::PtBr, no_auth, Some("s3".into())), Route::Reply(r) if r.starts_with("HTTP/1.1 401")));
    let wrong = request("GET / HTTP/1.1\r\nAuthorization: Bearer xx\r\n\r\n");
    assert!(matches!(route(Lang::PtBr, wrong, Some("s3".into())), Route::Reply(r) if r.starts_with("HTTP/1.1 401")));
    let right = request("GET / HTTP/1.1\r\nauthorization: Bearer s3\r\n\r\n");
    assert!(matches!(route(Lang::PtBr, right, Some("s3".into())), Route::Status));
}

#[test]
fn request_bytes_that_are_not_utf8_are_refused() {
    let mut raw = b"POST / HTTP/1.1\r\nContent-Length: 2\r\n\r\n".to_vec();
    raw.extend_from_slice(&[0xff, 0xfe]);
    assert!(parse_request(&raw).is_none());
}

#[test]
fn posts_are_refused_forwarded_or_waited_for() {
    assert!(matches!(post_step(Lang::PtBr, "not json", 10, 0), PostStep::Reply(r) if r.starts_with("HTTP/1.1 400")));
    let say = "{\"message\":\"oi\"}";
    assert!(matches!(post_step(Lang::PtBr, say, 10, 0), PostStep::Forward(b) if b == say));
    match post_step(Lang::PtBr, "{\"message\":\"ok?\",\"actions\":\"s\\nn\"}", 10, 7) {
        PostStep::Ask { line, id, expires } => {
            assert_eq!(id, "http-10-7");
            assert_eq!(expires, 10 + ASK_DEFAULT_TTL);
            assert!(line.contains("\"id\":\"http-10-7\""));
            assert!(line.contains(&format!("\"expires\":{}", 10 + ASK_DEFAULT_TTL)));
        }
        _ => panic!("an ask is waited for"),
    }
    match post_step(Lang::PtBr, "{\"message\":\"ok?\",\"actions\":\"s\",\"id\":\"a1\",\"expires\":99}", 10, 7) {
        PostStep::Ask { line, id, expires } => {
            assert_eq!((id.as_str(), expires), ("a1", 99));
            assert_eq!(line, "{\"message\":\"ok?\",\"actions\":\"s\",\"id\":\"a1\",\"expires\":99}");
        }
        _ => panic!("an ask is waited for"),
    }
}

// ---------------------------------------------------------------------------
// clock

#[test]
fn the_clock_reads_date_output_or_falls_back() {
    assert_eq!(clock_reading(Some("09:30\n".into())), ("09:30".to_string(), 9));
    assert_eq!(clock_reading(Some("23:59".into())), ("23:59".to_string(), 23));
    assert_eq!(clock_reading(None), ("--:--".to_string(), 12));
    assert_eq!(clock_reading(Some("9:3".into())), ("--:--".to_string(), 12));
    assert_eq!(clock_reading(Some("xx:yy".into())), ("xx:yy".to_string(), 12));
}

// ---------------------------------------------------------------------------
// first run

#[test]
fn the_name_prompt_takes_letters_digits_spaces_and_dashes() {
    let mut buf: Vec<char> = Vec::new();
    for c in "  Ana-2 é=\n".chars() {
        assert_eq!(name_key(Lang::PtBr, &mut buf, Key::Char(c)), None);
    }
    assert_eq!(buf.iter().collect::<String>(), "  Ana-2 é");
    assert_eq!(name_key(Lang::PtBr, &mut buf, Key::Backspace), None);
    assert_eq!(name_key(Lang::PtBr, &mut buf, Key::Left), None);
    assert_eq!(name_key(Lang::PtBr, &mut buf, Key::Enter), Some("Ana-2".to_string()));
}

#[test]
fn the_name_prompt_stops_at_its_limit_and_defaults_when_blank() {
    let mut buf: Vec<char> = Vec::new();
    for _ in 0..20 {
        name_key(Lang::PtBr, &mut buf, Key::Char('a'));
    }
    assert_eq!(buf.len(), NAME_MAX);
    let mut blank: Vec<char> = vec![' ', ' '];
    assert_eq!(name_key(Lang::PtBr, &mut blank, Key::Enter), Some(tama::i18n::t(Lang::PtBr).default_name.to_string()));
}

#[test]
fn the_picker_moves_chooses_and_cancels() {
    assert_eq!(picker_cols(200), 5);
    assert_eq!(picker_cols(40), 2);
    assert_eq!(picker_cols(3), 1);
    let start = species_cell(Species::Dragon);
    assert_eq!(SPECIES[start], Species::Dragon);
    assert!(matches!(picker_key(start, 5, Key::Enter), PickStep::Chosen(Species::Dragon)));
    assert!(matches!(picker_key(start, 5, Key::Char(' ')), PickStep::Chosen(Species::Dragon)));
    assert!(matches!(picker_key(start, 5, Key::Esc), PickStep::Cancelled));
    assert!(matches!(picker_key(start, 5, Key::Right), PickStep::Move(4)));
    assert!(matches!(picker_key(0, 5, Key::Left), PickStep::Move(9)));
    assert!(matches!(picker_key(3, 5, Key::Down), PickStep::Move(8)));
    assert!(matches!(picker_key(8, 5, Key::Down), PickStep::Move(8)));
}

// ---------------------------------------------------------------------------
// the frame

#[test]
fn footer_hints_become_key_caps() {
    let l = footer_line("[f] comer  [p] brincar");
    assert_eq!(text_of(&l), " f  comer   p  brincar");
    assert_eq!(text_of(&footer_line("[esc")), " esc ");
}

#[test]
fn the_frame_is_exactly_the_terminal_and_centers_the_content() {
    let content: Vec<Line> = vec![plain("abc".to_string()), plain("de".to_string())];
    let rows = frame_rows(&content, &["uma dica longa demais", "[q] sair"], 12, 6);
    assert_eq!(rows.len(), 6);
    assert!(rows.iter().all(|l| line_w(l) == 12));
    assert_eq!(text_of(&rows[0]), "┌──────────┐");
    assert_eq!(text_of(&rows[5]), "└──────────┘");
    // four inner rows, the last one the footer's: the content sits in the
    // three above it, centered
    assert_eq!(text_of(&rows[1]), "│   abc    │");
    assert_eq!(text_of(&rows[2]), "│    de    │");
    assert_eq!(text_of(&rows[3]), "│          │");
    assert_eq!(text_of(&rows[4]), "│  q  sair │");
    assert!(frame_rows(&content, &[], 3, 6).is_empty());
}

#[test]
fn painting_cuts_centers_and_blanks_control_characters() {
    let l: Line = vec![seg("a\u{7}b".to_string(), None)];
    assert_eq!(text_of(&paint_line(&l, 7)), "  a b  ");
    assert_eq!(text_of(&paint_line(&plain("abcdefgh".to_string()), 4)), "abcd");
}

#[test]
fn lembrar_is_the_remind_subcommand() {
    let want = Some(Plan::Send("{\"remind\":\"standup\",\"in\":\"10m\"}\n".to_string()));
    assert_eq!(run(Lang::PtBr, &v(&["lembrar", "standup", "--em", "10m"])), want);
    assert_eq!(run(Lang::PtBr, &v(&["remind", "standup", "--in", "10m"])), want);
    assert_eq!(run(Lang::PtBr, &v(&["lembrar", "standup", "--in", "10m"])), want);
    assert!(matches!(run(Lang::PtBr, &v(&["lembrar", "água"])), Some(Plan::Usage(_))));
}
