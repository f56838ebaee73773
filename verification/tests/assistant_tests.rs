use tama::assistant::{
    answer_line, find_answer, json_escape, json_fields, parse_duration, parse_line, parse_msgs,
    Kind, Msg,
};
use tama::i18n::Lang;
use tama::i18n::t;

fn check_json_fields_handles_colons_commas_and_escapes_inside_strings() {
    let fields = json_fields(r#"{"message":"deploy: ok, \"prod\"","from":"ci","progress":62}"#).unwrap();
    assert_eq!(fields[0], ("message".to_string(), r#"deploy: ok, "prod""#.to_string()));
    assert_eq!(fields[1], ("from".to_string(), "ci".to_string()));
    assert_eq!(fields[2], ("progress".to_string(), "62".to_string()));
}

#[test]
fn assistant_json_fields_handles_colons_commas_and_escapes_inside_strings() {
    check_json_fields_handles_colons_commas_and_escapes_inside_strings();
}

#[test]
fn json_json_fields_handles_colons_commas_and_escapes_inside_strings() {
    check_json_fields_handles_colons_commas_and_escapes_inside_strings();
}

fn check_json_fields_folds_string_arrays_into_one_value() {
    let fields = json_fields(r#"{"actions":["sim","não, depois","com \"aspas\""],"from":"x"}"#).unwrap();
    assert_eq!(fields[0], ("actions".to_string(), "sim\nnão, depois\ncom \"aspas\"".to_string()));
    assert_eq!(fields[1], ("from".to_string(), "x".to_string()));
    // empty array → empty value (parse falls back to default options)
    assert_eq!(json_fields(r#"{"actions":[]}"#).unwrap()[0].1, "");
    // unterminated array is invalid
    assert!(json_fields(r#"{"actions":["a","b"}"#).is_none());
}

#[test]
fn assistant_json_fields_folds_string_arrays_into_one_value() {
    check_json_fields_folds_string_arrays_into_one_value();
}

#[test]
fn json_json_fields_folds_string_arrays_into_one_value() {
    check_json_fields_folds_string_arrays_into_one_value();
}

fn check_invalid_lines_are_rejected() {
    assert!(json_fields("not json").is_none());
    assert!(json_fields(r#"{"unterminated":"x"#).is_none());
    assert!(parse_line(Lang::PtBr, "{}", 0).is_none());
    assert!(parse_line(Lang::PtBr, r#"{"unknown":"x"}"#, 0).is_none());
    assert!(parse_msgs(Lang::PtBr, "garbage", 0).is_empty());
}

#[test]
fn assistant_invalid_lines_are_rejected() {
    check_invalid_lines_are_rejected();
}

#[test]
fn tests_invalid_lines_are_rejected() {
    check_invalid_lines_are_rejected();
}

fn check_parse_line_covers_every_message_type() {
    let now = 1000;
    assert_eq!(
        parse_line(Lang::PtBr, r#"{"message":"oi","type":"error","from":"ci"}"#, now),
        Some(Msg::Say { text: "oi".into(), from: "ci".into(), kind: Kind::Error })
    );
    assert_eq!(
        parse_line(Lang::PtBr, r#"{"message":"subir?","actions":["sim","não"],"id":"rel-1"}"#, now),
        Some(Msg::Ask {
            text: "subir?".into(),
            options: vec!["sim".into(), "não".into()],
            id: "rel-1".into(),
            from: String::new(),
            expires: None,
            input: false
        })
    );
    assert_eq!(
        parse_line(Lang::PtBr, r#"{"progress":62,"from":"backup"}"#, now),
        Some(Msg::Progress { from: "backup".into(), pct: 62 })
    );
    assert_eq!(
        parse_line(Lang::PtBr, r#"{"remind":"standup","in":"10m"}"#, now),
        Some(Msg::Reminder { text: "standup".into(), at: now + 600 })
    );
    assert_eq!(parse_line(Lang::PtBr, r#"{"timer":"25m"}"#, now), Some(Msg::Timer { until: now + 1500 }));
    assert_eq!(
        parse_line(Lang::PtBr, r#"{"pomodoro":"25m","break":"5m"}"#, now),
        Some(Msg::Pomodoro { work: 1500, rest: 300 })
    );
    assert_eq!(parse_line(Lang::PtBr, r#"{"pomodoro":"off"}"#, now), Some(Msg::PomodoroOff));
}

#[test]
fn assistant_parse_line_covers_every_message_type() {
    check_parse_line_covers_every_message_type();
}

#[test]
fn tests_parse_line_covers_every_message_type() {
    check_parse_line_covers_every_message_type();
}

#[test]
fn input_true_makes_a_text_only_ask_and_coexists_with_actions() {
    // input alone: an Ask with NO options (text-only)
    let Some(Msg::Ask { options, input, .. }) = parse_line(Lang::PtBr, r#"{"message":"como faço?","input":true}"#, 0)
    else {
        panic!("expected Ask");
    };
    assert!(options.is_empty());
    assert!(input);
    // input + actions: options preserved, typing is one more choice
    let Some(Msg::Ask { options, input, .. }) =
        parse_line(Lang::PtBr, r#"{"message":"qual?","actions":["a","b"],"input":true}"#, 0)
    else {
        panic!("expected Ask");
    };
    assert_eq!(options, vec!["a".to_string(), "b".to_string()]);
    assert!(input);
    // without input, empty actions still fall back to the defaults
    let Some(Msg::Ask { options, input, .. }) = parse_line(Lang::PtBr, r#"{"message":"ok?","actions":""}"#, 0) else {
        panic!("expected Ask");
    };
    assert_eq!(options.len(), 2);
    assert!(!input);
}

fn check_command_rides_alone_or_with_a_message() {
    assert_eq!(parse_msgs(Lang::PtBr, r#"{"command":"celebrate"}"#, 0), vec![Msg::Action("celebrate".into())]);
    let both = parse_msgs(Lang::PtBr, r#"{"command":"celebrate","message":"merge!","from":"ci"}"#, 0);
    assert_eq!(both.len(), 2);
    assert_eq!(both[0], Msg::Action("celebrate".into()));
    assert!(matches!(&both[1], Msg::Say { text, .. } if text == "merge!"));
}

#[test]
fn assistant_command_rides_alone_or_with_a_message() {
    check_command_rides_alone_or_with_a_message();
}

#[test]
fn tests_command_rides_alone_or_with_a_message() {
    check_command_rides_alone_or_with_a_message();
}

fn check_pomodoro_defaults_break_to_5m_and_rejects_bad_durations() {
    assert_eq!(parse_line(Lang::PtBr, r#"{"pomodoro":"25m"}"#, 0), Some(Msg::Pomodoro { work: 1500, rest: 300 }));
    assert!(parse_line(Lang::PtBr, r#"{"pomodoro":"abc"}"#, 0).is_none());
    assert!(parse_line(Lang::PtBr, r#"{"pomodoro":"25m","break":"abc"}"#, 0).is_none());
}

#[test]
fn assistant_pomodoro_defaults_break_to_5m_and_rejects_bad_durations() {
    check_pomodoro_defaults_break_to_5m_and_rejects_bad_durations();
}

#[test]
fn tests_pomodoro_defaults_break_to_5m_and_rejects_bad_durations() {
    check_pomodoro_defaults_break_to_5m_and_rejects_bad_durations();
}

#[test]
fn assistant_ask_defaults_options_and_id() {
    let Some(Msg::Ask { options, id, expires, .. }) =
        parse_line(Lang::PtBr, r#"{"message":"ok?","actions":""}"#, 7)
    else {
        panic!("expected Ask");
    };
    assert_eq!(options, vec!["sim".to_string(), "não".to_string()]);
    assert_eq!(id, "ask-7");
    assert_eq!(expires, None);
}

#[test]
fn tests_ask_defaults_options_and_id() {
    let Some(Msg::Ask { options, id, expires, .. }) =
        parse_line(Lang::PtBr, r#"{"message":"ok?","actions":""}"#, 7)
    else {
        panic!("expected Ask");
    };
    assert_eq!(options, vec![t(Lang::PtBr).default_yes, t(Lang::PtBr).default_no]);
    assert_eq!(id, "ask-7");
    assert_eq!(expires, None);
}

fn check_escape_round_trips_newlines_tabs_quotes_and_backslashes() {
    let text = "rodar:\n\tnpm test \"tudo\" \\o/\r";
    let line = format!("{{\"message\":\"{}\"}}", json_escape(text));
    let fields = json_fields(&line).unwrap();
    assert_eq!(fields[0], ("message".to_string(), text.to_string()));
}

#[test]
fn assistant_escape_round_trips_newlines_tabs_quotes_and_backslashes() {
    check_escape_round_trips_newlines_tabs_quotes_and_backslashes();
}

#[test]
fn json_escape_round_trips_newlines_tabs_quotes_and_backslashes() {
    check_escape_round_trips_newlines_tabs_quotes_and_backslashes();
}

fn check_ask_options_may_contain_commas_and_expires_is_parsed() {
    let line = r#"{"message":"ok?","actions":["Sim, e não pergunte de novo","não"],"expires":1500}"#;
    let Some(Msg::Ask { options, expires, .. }) = parse_line(Lang::PtBr, line, 1000) else {
        panic!("expected Ask");
    };
    assert_eq!(options, vec!["Sim, e não pergunte de novo".to_string(), "não".to_string()]);
    assert_eq!(expires, Some(1500));
    // non-numeric expires is ignored, not fatal
    let Some(Msg::Ask { expires, .. }) = parse_line(Lang::PtBr, r#"{"message":"ok?","actions":"a","expires":"x"}"#, 0)
    else {
        panic!("expected Ask");
    };
    assert_eq!(expires, None);
}

#[test]
fn assistant_ask_options_may_contain_commas_and_expires_is_parsed() {
    check_ask_options_may_contain_commas_and_expires_is_parsed();
}

#[test]
fn tests_ask_options_may_contain_commas_and_expires_is_parsed() {
    check_ask_options_may_contain_commas_and_expires_is_parsed();
}

fn check_durations_parse() {
    assert_eq!(parse_duration("30s"), Some(30));
    assert_eq!(parse_duration("10m"), Some(600));
    assert_eq!(parse_duration("2h"), Some(7200));
    assert_eq!(parse_duration("abc"), None);
    assert_eq!(parse_duration(""), None);
}

#[test]
fn assistant_durations_parse() {
    check_durations_parse();
}

#[test]
fn tests_durations_parse() {
    check_durations_parse();
}

fn check_answer_line_escapes() {
    assert_eq!(answer_line("a\"b", "sim"), "{\"id\":\"a\\\"b\",\"answer\":\"sim\"}\n");
}

#[test]
fn assistant_answer_line_escapes() {
    check_answer_line_escapes();
}

#[test]
fn answer_answer_line_escapes() {
    check_answer_line_escapes();
}

fn check_find_answer_matches_id_and_skips_garbage() {
    let content = "lixo\n{\"id\":\"outro\",\"answer\":\"não\"}\n{\"id\":\"a-1\",\"answer\":\"sim\"}\n";
    assert_eq!(find_answer(content, "a-1"), Some("sim".to_string()));
    assert_eq!(find_answer(content, "a-2"), None);
    // scanning only the tail hides answers written before the offset
    let offset = content.find("{\"id\":\"a-1\"").unwrap();
    assert_eq!(find_answer(&content[offset..], "outro"), None);
}

#[test]
fn assistant_find_answer_matches_id_and_skips_garbage() {
    check_find_answer_matches_id_and_skips_garbage();
}

#[test]
fn answer_find_answer_matches_id_and_skips_garbage() {
    check_find_answer_matches_id_and_skips_garbage();
}

fn check_progress_clamps_to_100() {
    assert_eq!(parse_line(Lang::PtBr, r#"{"progress":250}"#, 0), Some(Msg::Progress { from: String::new(), pct: 100 }));
}

#[test]
fn assistant_progress_clamps_to_100() {
    check_progress_clamps_to_100();
}

#[test]
fn tests_progress_clamps_to_100() {
    check_progress_clamps_to_100();
}
