use tama::cli::{ask_options, flag, flags, positional, run, watch_parse};
use tama::i18n::Lang;
use tama::i18n::t;

fn v(items: &[&str]) -> Vec<String> {
    items.iter().map(|s| s.to_string()).collect()
}

fn check_flags_and_positionals_parse_in_any_order() {
    let rest = v(&["--from", "ci", "build ok", "--type", "success"]);
    assert_eq!(positional(&rest), Some("build ok".to_string()));
    assert_eq!(flag(&rest, "--from"), Some("ci".to_string()));
    assert_eq!(flag(&rest, "--type"), Some("success".to_string()));
    assert_eq!(flag(&rest, "--in"), None);
}

#[test]
fn cli_flags_and_positionals_parse_in_any_order() {
    check_flags_and_positionals_parse_in_any_order();
}

#[test]
fn mod_flags_and_positionals_parse_in_any_order() {
    check_flags_and_positionals_parse_in_any_order();
}

#[test]
fn valueless_flags_do_not_swallow_the_text() {
    let rest = v(&["--input", "escreva aí", "--from", "llm"]);
    assert_eq!(positional(&rest), Some("escreva aí".to_string()));
    assert_eq!(flag(&rest, "--from"), Some("llm".to_string()));
}

fn check_flags_collects_every_occurrence() {
    let rest = v(&["ok?", "--options", "permitir", "--from", "agente", "--options", "negar, talvez"]);
    assert_eq!(flags(&rest, "--options"), v(&["permitir", "negar, talvez"]));
    assert_eq!(flags(&rest, "--in"), Vec::<String>::new());
}

#[test]
fn cli_flags_collects_every_occurrence() {
    check_flags_collects_every_occurrence();
}

#[test]
fn mod_flags_collects_every_occurrence() {
    check_flags_collects_every_occurrence();
}

#[test]
fn cli_ask_options_single_flag_splits_commas_repeated_flags_are_literal() {
    assert_eq!(ask_options(Lang::PtBr, &[]), "sim\nnão");
    assert_eq!(ask_options(Lang::PtBr, &v(&["a, b,c"])), "a\nb\nc");
    assert_eq!(ask_options(Lang::PtBr, &v(&["permitir", "Sim, e não pergunte de novo"])), "permitir\nSim, e não pergunte de novo");
}

#[test]
fn commands_ask_options_single_flag_splits_commas_repeated_flags_are_literal() {
    assert_eq!(ask_options(Lang::PtBr, &[]), format!("{}\n{}", t(Lang::PtBr).default_yes, t(Lang::PtBr).default_no));
    assert_eq!(ask_options(Lang::PtBr, &v(&["a, b,c"])), "a\nb\nc");
    assert_eq!(ask_options(Lang::PtBr, &v(&["permitir", "Sim, e não pergunte de novo"])), "permitir\nSim, e não pergunte de novo");
}

fn check_unknown_command_falls_through_to_tui() {
    assert_eq!(run(Lang::PtBr, &v(&["--gallery"])), None);
    assert_eq!(run(Lang::PtBr, &[]), None);
}

#[test]
fn cli_unknown_command_falls_through_to_tui() {
    check_unknown_command_falls_through_to_tui();
}

#[test]
fn mod_unknown_command_falls_through_to_tui() {
    check_unknown_command_falls_through_to_tui();
}

fn check_watch_parse_keeps_the_commands_own_flags() {
    let rest = v(&["--from", "ci", "cargo", "test", "--release"]);
    let (from, cmd) = watch_parse(&rest).unwrap();
    assert_eq!(from, "ci");
    assert_eq!(cmd, &rest[2..]);
    // without --from, the origin defaults to the program name
    let rest = v(&["make", "-j4", "build"]);
    let (from, cmd) = watch_parse(&rest).unwrap();
    assert_eq!(from, "make");
    assert_eq!(cmd, &rest[..]);
    assert!(watch_parse(&[]).is_none());
    assert!(watch_parse(&v(&["--from", "ci"])).is_none());
}

#[test]
fn cli_watch_parse_keeps_the_commands_own_flags() {
    check_watch_parse_keeps_the_commands_own_flags();
}

#[test]
fn commands_watch_parse_keeps_the_commands_own_flags() {
    check_watch_parse_keeps_the_commands_own_flags();
}
