use tama::answer::{input_rows, option_labels, option_rows, option_window, OPTION_ROWS};
use tama::i18n::Lang;
use tama::assistant::Kind;
use tama::assistant_view::build_assistant;
use tama::card::{countdown_seg, AssistantMsg};
use tama::frame::paint_line;
use tama::home::build_home;
use tama::i18n::t;
use tama::layout::{beside, center_in, line_slice, pad_block, wrapped_text};
use tama::line::{line_w, plain, progress_line, seg, Color, Line};
use tama::panel::{overlay, panel};
use tama::pet::Pet;
use tama::pomo_view::{build_pomo, PomoRun};
use tama::widgets::{stat_bars, HomeView};

fn p(s: &str) -> Line {
    plain(s.to_string())
}

fn text_of(l: &Line) -> String {
    l.iter().map(|(s, ..)| s.clone()).collect()
}

fn all_text(c: &[Line]) -> String {
    c.iter().map(text_of).collect()
}

fn named_pet() -> Pet {
    Pet { name: "rex".to_string(), ..Pet::default() }
}

fn view_of(log: &[Line]) -> HomeView {
    HomeView {
        log: log.to_vec(),
        clock_text: "12:00".to_string(),
        hour: 12,
        now: 0,
        timer: None,
        progress: Vec::new(),
        lang: Lang::PtBr,
    }
}

fn view_with(progress: &[Line]) -> HomeView {
    HomeView {
        log: Vec::new(),
        clock_text: "12:00".to_string(),
        hour: 12,
        now: 0,
        timer: None,
        progress: progress.to_vec(),
        lang: Lang::PtBr,
    }
}

fn sample_ask(text: &str, options: &[String], expires_in: Option<u64>) -> AssistantMsg {
    AssistantMsg {
        text: text.to_string(),
        from: "agente".to_string(),
        kind: Kind::Info,
        kind_label: "info",
        options: Some(options.to_vec()),
        expires_in,
        input: None,
        input_ok: false,
        sel: 0,
    }
}

// (row, col) of the clock's top-left edge: the first run of 6 '█' (the top
// row of the first digit of "25:00").
fn clock_pos(c: &[Line]) -> Option<(usize, usize)> {
    for (y, l) in c.iter().enumerate() {
        let chars: Vec<char> = l.iter().flat_map(|(s, ..)| s.chars()).collect();
        if let Some(x) = chars.windows(6).position(|w| w.iter().all(|&ch| ch == '█')) {
            return Some((y, x));
        }
    }
    None
}

fn clock_x(c: &[Line]) -> Option<usize> {
    clock_pos(c).map(|(_, x)| x)
}

fn check_line_w_sums() {
    let l: Line = vec![seg("██".to_string(), None), seg("ab".to_string(), None)];
    assert_eq!(line_w(&l), 4);
}

#[test]
fn line_line_w_sums_segments_by_chars_not_bytes() {
    check_line_w_sums();
}

#[test]
fn ui_line_w_sums_segments_by_chars_not_bytes() {
    check_line_w_sums();
}

fn check_beside() {
    let left = vec![p("aa"), p("a")];
    let right = vec![p("bb"), p("b"), p("c")];
    let joined = beside(&left, &right, 2);
    assert_eq!(joined.len(), 3);
    assert!(joined.iter().all(|l| line_w(l) == 2 + 2 + 2));
}

#[test]
fn line_beside_joins_blocks_at_uniform_width() {
    check_beside();
}

#[test]
fn ui_beside_joins_blocks_at_uniform_width() {
    check_beside();
}

fn check_pad_block() {
    let block = pad_block(vec![p("abc"), p("a")]);
    assert!(block.iter().all(|l| line_w(l) == 3));
}

#[test]
fn line_pad_block_makes_widths_uniform() {
    check_pad_block();
}

#[test]
fn ui_pad_block_makes_widths_uniform() {
    check_pad_block();
}

fn check_center_in() {
    assert_eq!(line_w(&center_in(&p("ab"), 6)), 6);
    assert_eq!(line_w(&center_in(&p("abcdefgh"), 4)), 4);
}

#[test]
fn line_center_in_clips_or_centers() {
    check_center_in();
}

#[test]
fn ui_center_in_clips_or_centers() {
    check_center_in();
}

fn check_line_slice() {
    let l: Line = vec![seg("abc".to_string(), None), seg("def".to_string(), Some(Color::Red))];
    assert_eq!(text_of(&line_slice(&l, 1, 4)), "bcde");
    assert_eq!(line_w(&line_slice(&l, 0, 6)), 6);
    assert_eq!(line_w(&line_slice(&l, 4, 10)), 2);
}

#[test]
fn line_line_slice_cuts_across_segments() {
    check_line_slice();
}

#[test]
fn ui_line_slice_cuts_across_segments() {
    check_line_slice();
}

fn check_wrapped_text() {
    let full = wrapped_text("uma frase curta", 40, 3);
    assert_eq!(full.len(), 1);
    let cut = wrapped_text("muitas palavras que não cabem em uma linha só de jeito nenhum", 12, 2);
    assert_eq!(cut.len(), 2);
    let last = text_of(&cut[1]);
    assert!(last.ends_with('…'), "{last:?}");
}

#[test]
fn line_wrapped_text_marks_truncation_with_ellipsis() {
    check_wrapped_text();
}

#[test]
fn ui_wrapped_text_marks_truncation_with_ellipsis() {
    check_wrapped_text();
}

fn check_panel() {
    let pl = panel("status", &[p("hi"), p("a much longer line that overflows")], 20);
    assert_eq!(pl.len(), 4);
    assert!(pl.iter().all(|l| line_w(l) == 20));
    assert_eq!(pl[0][0].0, "┌─ ");
    assert_eq!(pl[0][1].0, "status");
    assert!(pl[3][0].0.starts_with('└'));
}

#[test]
fn panel_panel_has_uniform_width_and_borders() {
    check_panel();
}

#[test]
fn ui_panel_has_uniform_width_and_borders() {
    check_panel();
}

fn check_overlay_centers() {
    let base: Vec<Line> = (0..9).map(|_| p("##########")).collect();
    let modal: Vec<Line> = (0..3).map(|_| p("XXXX")).collect();
    let out = overlay(base, &modal);
    assert_eq!(out.len(), 9);
    assert!(out.iter().all(|l| line_w(l) == 10));
    assert_eq!(text_of(&out[4]), "###XXXX###");
    assert_eq!(text_of(&out[0]), "##########");
}

#[test]
fn panel_overlay_centers_modal_and_keeps_backdrop_dimensions() {
    check_overlay_centers();
}

#[test]
fn ui_overlay_centers_modal_and_keeps_backdrop_dimensions() {
    check_overlay_centers();
}

fn check_overlay_too_big() {
    let base: Vec<Line> = vec![p("##")];
    let modal: Vec<Line> = vec![p("XXXX"), p("XXXX")];
    assert_eq!(overlay(base, &modal).len(), 2);
}

#[test]
fn panel_overlay_too_big_falls_back_to_modal_alone() {
    check_overlay_too_big();
}

#[test]
fn ui_overlay_too_big_falls_back_to_modal_alone() {
    check_overlay_too_big();
}

fn check_input_rows() {
    // short answer: gutter, text, caret; the other slots stay empty
    let rows = input_rows("oi", 20, OPTION_ROWS);
    assert_eq!(rows.len(), OPTION_ROWS);
    assert_eq!(text_of(&rows[0]), "> oi_");
    assert_eq!(line_w(&rows[2]), 0);
    // long answer: fills the rows, caret on the last, ↑ where it scrolled
    let rows = input_rows(&"a".repeat(200), 20, OPTION_ROWS);
    assert!(text_of(&rows[0]).starts_with('↑'), "{:?}", text_of(&rows[0]));
    assert!(text_of(&rows[2]).ends_with('_'));
    assert!(rows.iter().all(|r| line_w(r) <= 20), "estourou a largura");
    // multi-line answers keep their shape
    let rows = input_rows("linha um\nlinha dois", 20, OPTION_ROWS);
    assert_eq!(text_of(&rows[0]), "> linha um");
    assert_eq!(text_of(&rows[1]), "  linha dois_");
}

#[test]
fn input_rows_follow_the_caret_and_flag_what_scrolled_off() {
    check_input_rows();
}

fn check_option_rows_cursor() {
    let opts: Vec<String> = vec!["curta".into(), "uma opção comprida demais para caber".into()];
    let rows = option_rows(&opts, 0, 16);
    assert_eq!(rows.len(), OPTION_ROWS);
    let first = text_of(&rows[0]);
    assert!(first.starts_with('▸'), "cursor deveria marcar a opção 0: {first:?}");
    let second = text_of(&rows[1]);
    assert!(!second.starts_with('▸'));
    assert!(second.ends_with('…'), "opção longa deveria cortar: {second:?}");
    assert_eq!(line_w(&rows[1]), 16);
    assert_eq!(line_w(&rows[2]), 0);
}

#[test]
fn option_rows_mark_the_cursor_and_clip_with_ellipsis() {
    check_option_rows_cursor();
}

fn check_long_option_lists() {
    let many: Vec<String> = (1..=7).map(|i| format!("opção {i}")).collect();
    assert_eq!(option_window(7, 0), (0, 3));
    let rows = option_rows(&many, 0, 40);
    assert!(text_of(&rows[0]).contains("opção 1"));
    assert!(text_of(&rows[2]).contains("↓4"), "faltou o aviso de scroll: {:?}", text_of(&rows[2]));
    assert_eq!(option_window(7, 6), (4, 7));
    let rows = option_rows(&many, 6, 40);
    assert!(text_of(&rows[0]).contains("↑4"), "{:?}", text_of(&rows[0]));
    assert!(text_of(&rows[2]).contains('▸') && text_of(&rows[2]).contains("opção 7"));
    let few: Vec<String> = vec!["a".into(), "b".into()];
    assert_eq!(option_window(2, 1), (0, 2));
    let rows = option_rows(&few, 1, 40);
    assert!(!text_of(&rows[0]).contains('↑') && !text_of(&rows[1]).contains('↓'));
}

#[test]
fn long_option_lists_scroll_around_the_cursor() {
    check_long_option_lists();
}

fn check_free_text_option() {
    let opts: Vec<String> = vec!["a".into(), "b".into()];
    assert_eq!(option_labels(Lang::PtBr, &opts, false), opts);
    let with = option_labels(Lang::PtBr, &opts, true);
    assert_eq!(with.len(), 3);
    assert_eq!(with[2], t(Lang::PtBr).option_write);
    let nine: Vec<String> = (0..9).map(|i| i.to_string()).collect();
    assert_eq!(option_labels(Lang::PtBr, &nine, true).len(), 9);
    let pet = named_pet();
    let mut m = sample_ask("qual?", &opts, None);
    m.input_ok = true;
    let c = build_assistant(&pet, 0, Some(&m), &[], 0, &view_of(&[]), 96, 24);
    let text = all_text(&c);
    assert!(text.contains(t(Lang::PtBr).option_write), "extra option missing: {text}");
}

#[test]
fn tests_free_text_is_listed_as_the_last_numbered_option() {
    check_free_text_option();
}

#[test]
fn ui_free_text_is_listed_as_the_last_numbered_option() {
    check_free_text_option();
}

fn check_typing() {
    let pet = named_pet();
    let options: Vec<String> = vec!["sim".into(), "não".into()];
    for (iw, ih) in [(96, 24), (80, 18), (50, 16), (26, 8)] {
        let idle = sample_ask("responde?", &options, None);
        let mut typing = sample_ask("responde?", &options, None);
        typing.input = Some("uma resposta escrita".to_string());
        let a = build_assistant(&pet, 0, Some(&idle), &[], 0, &view_of(&[]), iw, ih);
        let b = build_assistant(&pet, 0, Some(&typing), &[], 0, &view_of(&[]), iw, ih);
        assert_eq!(a.len(), b.len(), "card resized while typing at {iw}x{ih}");
        let text = all_text(&b);
        assert!(text.contains("resposta escrita"), "typed text missing at {iw}x{ih}");
    }
}

#[test]
fn tests_typing_replaces_the_options_without_resizing_the_card() {
    check_typing();
}

#[test]
fn ui_typing_replaces_the_options_without_resizing_the_card() {
    check_typing();
}

fn check_text_only_ask() {
    let pet = named_pet();
    let empty: Vec<String> = Vec::new();
    let mut m = sample_ask("o que você acha?", &empty, Some(30));
    m.input = Some("porque sim".to_string());
    for (iw, ih) in [(96, 24), (60, 12), (26, 8)] {
        let c = build_assistant(&pet, 0, Some(&m), &[], 0, &view_of(&[]), iw, ih);
        assert!(c.len() <= ih.saturating_sub(1).max(1), "overflow at {iw}x{ih}");
        let text = all_text(&c);
        assert!(text.contains("porque sim"), "typed text missing at {iw}x{ih}");
    }
}

#[test]
fn tests_text_only_ask_has_no_options_but_still_fits() {
    check_text_only_ask();
}

#[test]
fn ui_text_only_ask_has_no_options_but_still_fits() {
    check_text_only_ask();
}

fn check_assistant_fits() {
    let pet = named_pet();
    let long_text = "agente quer executar: npm run build && rm -rf dist && cp x y ".repeat(5);
    let options: Vec<String> = vec![
        "permitir".into(),
        "Sim, e não pergunte de novo nesta sessão inteira por favor".into(),
        "negar".into(),
        "decidir no agente".into(),
    ];
    let queue = vec!["ci: build ok".to_string()];
    for iw in [10, 20, 26, 30, 45, 60, 72, 80, 96, 120] {
        for ih in [1, 3, 5, 6, 8, 12, 16, 20, 24, 28, 40] {
            let msgs = [
                None,
                Some(sample_ask(&long_text, &options, Some(59))),
                Some(AssistantMsg {
                    text: "oi".to_string(),
                    from: "ci".to_string(),
                    kind: Kind::Success,
                    kind_label: "sucesso",
                    options: None,
                    expires_in: None,
                    input: None,
                    input_ok: false,
                    sel: 0,
                }),
            ];
            for msg in msgs.iter() {
                let c = build_assistant(&pet, 0, msg.as_ref(), &queue, 1, &view_of(&[]), iw, ih);
                assert!(c.len() <= ih.saturating_sub(1).max(1), "overflow at {iw}x{ih}: {} lines", c.len());
            }
        }
    }
}

#[test]
fn tests_build_assistant_fits_any_terminal_size() {
    check_assistant_fits();
}

#[test]
fn ui_build_assistant_fits_any_terminal_size() {
    check_assistant_fits();
}

fn check_option_count() {
    let pet = named_pet();
    for (iw, ih) in [(96, 24), (80, 18), (50, 16), (26, 8)] {
        let mut baseline: Option<usize> = None;
        for n in [1usize, 3, 9] {
            let options: Vec<String> = (0..n).map(|i| format!("opção {i}")).collect();
            let msg = sample_ask("posso?", &options, None);
            let c = build_assistant(&pet, 0, Some(&msg), &[], 0, &view_of(&[]), iw, ih);
            match &baseline {
                None => baseline = Some(c.len()),
                Some(b) => assert_eq!(*b, c.len(), "bubble resized at {iw}x{ih} with {n} options"),
            }
        }
    }
}

#[test]
fn tests_option_count_never_resizes_the_ask_bubble() {
    check_option_count();
}

#[test]
fn ui_option_count_never_resizes_the_ask_bubble() {
    check_option_count();
}

fn check_countdown() {
    let (t59, c59, _) = countdown_seg(Lang::PtBr, 59);
    let (t9, c9, _) = countdown_seg(Lang::PtBr, 9);
    let (t_big, ..) = countdown_seg(Lang::PtBr, 5000);
    assert_eq!(t59.chars().count(), t9.chars().count());
    assert_eq!(t_big.chars().count(), t59.chars().count());
    assert_eq!(c59, Some(Color::Yellow));
    assert_eq!(c9, Some(Color::Red));
}

#[test]
fn bubble_countdown_is_fixed_width_and_turns_red_near_expiry() {
    check_countdown();
}

#[test]
fn ui_countdown_is_fixed_width_and_turns_red_near_expiry() {
    check_countdown();
}

fn check_home_fits() {
    let pet = named_pet();
    for iw in [10, 20, 30, 45, 60, 72, 80, 96, 120] {
        for ih in [1, 3, 5, 8, 12, 16, 20, 24, 28, 40] {
            let c = build_home(&pet, 0, &view_of(&[]), iw, ih);
            assert!(c.len() <= ih.saturating_sub(1).max(1), "overflow at {iw}x{ih}: {} lines", c.len());
        }
    }
}

#[test]
fn tests_build_home_fits_any_terminal_size() {
    check_home_fits();
}

#[test]
fn ui_build_home_fits_any_terminal_size() {
    check_home_fits();
}

fn check_tall_wide() {
    let pet = named_pet();
    let c = build_home(&pet, 0, &view_of(&[]), 96, 30);
    let text = all_text(&c);
    assert!(text.contains("┌─ rex"));
    assert!(text.contains(&format!("┌─ {}", t(Lang::PtBr).panel_status)));
    assert!(text.contains(&format!("┌─ {}", t(Lang::PtBr).panel_events)));
}

#[test]
fn tests_tall_wide_terminal_gets_full_panel_layout() {
    check_tall_wide();
}

#[test]
fn ui_tall_wide_terminal_gets_full_panel_layout() {
    check_tall_wide();
}

fn check_short_wide() {
    let pet = named_pet();
    let c = build_home(&pet, 0, &view_of(&[]), 96, 16);
    let text = all_text(&c);
    assert!(text.contains("┌─ rex"), "should still use the panel layout at 96x16");
    assert!(!text.contains(&format!("┌─ {}", t(Lang::PtBr).panel_events)) || c.len() <= 15);
}

#[test]
fn tests_short_wide_terminal_degrades_but_keeps_panels_when_possible() {
    check_short_wide();
}

#[test]
fn ui_short_wide_terminal_degrades_but_keeps_panels_when_possible() {
    check_short_wide();
}

fn check_tall_terminal() {
    let pet = named_pet();
    let log: Vec<Line> = (0..8).map(|i| plain(format!("event {i}"))).collect();
    let avail = 39;
    let c = build_home(&pet, 0, &view_of(&log), 96, 40);
    assert!(c.len() >= avail - 4, "only {} of {avail} lines used", c.len());
    assert!(c.len() <= avail);
}

#[test]
fn tests_tall_terminal_fills_available_height() {
    check_tall_terminal();
}

#[test]
fn ui_tall_terminal_fills_available_height() {
    check_tall_terminal();
}

fn check_event_count() {
    let pet = named_pet();
    let row_of = |c: &[Line], needle: &str| c.iter().position(|l| l.iter().any(|(s, ..)| s.contains(needle)));
    for (iw, ih) in [(96, 40), (96, 30), (96, 24), (80, 18), (50, 16), (30, 12)] {
        let mut baseline: Option<(usize, Option<usize>, Option<usize>)> = None;
        for n in [0usize, 1, 12] {
            let log: Vec<Line> = (0..n).map(|i| plain(format!("event {i}"))).collect();
            let c = build_home(&pet, 0, &view_of(&log), iw, ih);
            let shape = (c.len(), row_of(&c, "eventos"), row_of(&c, "▄█▄"));
            match &baseline {
                None => baseline = Some(shape),
                Some(b) => assert_eq!(*b, shape, "layout moved at {iw}x{ih} with {n} events"),
            }
        }
    }
}

#[test]
fn tests_event_count_never_resizes_the_layout() {
    check_event_count();
}

#[test]
fn ui_event_count_never_resizes_the_layout() {
    check_event_count();
}

fn check_tiny_terminal() {
    let pet = named_pet();
    let c = build_home(&pet, 0, &view_of(&[]), 24, 4);
    let text = all_text(&c);
    assert!(text.contains("(=^"), "tiny face expected at 24x4");
}

#[test]
fn tests_tiny_terminal_falls_back_to_face() {
    check_tiny_terminal();
}

#[test]
fn ui_tiny_terminal_falls_back_to_face() {
    check_tiny_terminal();
}

fn check_stat_bars() {
    let pet = Pet::default();
    assert_eq!(stat_bars(Lang::PtBr, &pet, false).len(), 5);
}

#[test]
fn stats_stat_bars_cover_all_stats_plus_xp() {
    check_stat_bars();
}

#[test]
fn ui_stat_bars_cover_all_stats_plus_xp() {
    check_stat_bars();
}

fn check_pomo_fits() {
    let pet = named_pet();
    let run = PomoRun { label: "foco", focus: true, frac: 40, cycle: 2 };
    for iw in [10, 20, 30, 45, 60, 72, 80, 96, 120] {
        for ih in [1, 3, 5, 8, 12, 16, 20, 24, 28, 40] {
            for r in [None, Some(&run)] {
                let c = build_pomo(&pet, 0, &view_of(&[]), "25:00", r, 0, iw, ih);
                assert!(
                    c.len() <= ih.saturating_sub(1).max(1),
                    "overflow at {iw}x{ih} (run={}): {} lines",
                    r.is_some(),
                    c.len()
                );
            }
        }
    }
}

#[test]
fn tests_build_pomo_fits_any_terminal_size() {
    check_pomo_fits();
}

#[test]
fn ui_build_pomo_fits_any_terminal_size() {
    check_pomo_fits();
}

fn check_pomo_pet() {
    let pet = named_pet();
    for (iw, ih) in [(96, 30), (96, 14), (60, 12), (40, 10), (30, 5)] {
        let c = build_pomo(&pet, 0, &view_of(&[]), "25:00", None, 0, iw, ih);
        let text = all_text(&c);
        assert!(text.contains("▄█▄") || text.contains("(=^"), "no pet at {iw}x{ih}");
    }
}

#[test]
fn tests_pomo_screen_always_shows_the_pet() {
    check_pomo_pet();
}

#[test]
fn ui_pomo_screen_always_shows_the_pet() {
    check_pomo_pet();
}

fn check_pomo_left_edge() {
    let pet = named_pet();
    let run = PomoRun { label: "foco", focus: true, frac: 40, cycle: 2 };
    for (iw, ih) in [(71, 20), (60, 14), (44, 12), (36, 10)] {
        for r in [None, Some(&run)] {
            let c = build_pomo(&pet, 0, &view_of(&[]), "25:00", r, 0, iw, ih);
            let w = c.iter().map(line_w).max().unwrap_or(0);
            assert!(c.iter().all(|l| line_w(l) == w), "ragged block at {iw}x{ih} (run={})", r.is_some());
        }
    }
}

#[test]
fn tests_pomo_compact_tier_keeps_a_single_left_edge() {
    check_pomo_left_edge();
}

#[test]
fn ui_pomo_compact_tier_keeps_a_single_left_edge() {
    check_pomo_left_edge();
}

fn check_pomo_pinned() {
    let pet = named_pet();
    let run = PomoRun { label: "foco", focus: true, frac: 40, cycle: 2 };
    let tasks = vec![progress_line(Lang::PtBr, "build", 40)];
    let no_tasks: Vec<Line> = Vec::new();
    let states: [(Option<&PomoRun>, &Vec<Line>); 3] = [(None, &no_tasks), (Some(&run), &no_tasks), (Some(&run), &tasks)];
    let clock_w = 31;
    for iw in [96, 100, 110] {
        for ih in [30, 26, 21] {
            let mut pos_seen = None;
            for (r, progress) in &states {
                let view = view_with(progress);
                let c = build_pomo(&pet, 0, &view, "25:00", *r, 0, iw, ih);
                let pos = clock_pos(&c).unwrap();
                assert_eq!(*pos_seen.get_or_insert(pos), pos, "clock moved at {iw}x{ih}");
                let lw = c.iter().map(line_w).max().unwrap();
                let pad = (iw - lw) / 2;
                let left = c
                    .iter()
                    .find_map(|l| {
                        let chars: Vec<char> = l.iter().flat_map(|(s, ..)| s.chars()).collect();
                        chars.iter().position(|&ch| ch == '▁').map(|i| pad + i)
                    })
                    .unwrap();
                let right = iw - (pad + pos.1 + clock_w);
                assert!((left as i64 - right as i64).abs() <= 1, "unbalanced at {iw}x{ih}: left {left}, right {right}");
            }
        }
    }
    let c = build_pomo(&pet, 0, &view_of(&[]), "25:00", None, 0, 96, 30);
    let (y, _) = clock_pos(&c).unwrap();
    assert!(y > 4, "clock is top-aligned against the pet: row {y}");
    for (iw, ih) in [(70, 16), (50, 14), (40, 12)] {
        for (r, progress) in &states {
            let view = view_with(progress);
            let c = build_pomo(&pet, 0, &view, "25:00", *r, 0, iw, ih);
            let w = c.iter().map(line_w).max().unwrap();
            assert_eq!(w, clock_w, "block wider than the clock at {iw}x{ih}");
            assert_eq!(clock_x(&c), Some(0));
        }
    }
}

#[test]
fn tests_pomo_clock_is_pinned_to_the_horizontal_center() {
    check_pomo_pinned();
}

#[test]
fn ui_pomo_clock_is_pinned_to_the_horizontal_center() {
    check_pomo_pinned();
}

fn check_pomo_air() {
    let pet = named_pet();
    let run = PomoRun { label: "foco", focus: true, frac: 40, cycle: 1 };
    for r in [None, Some(&run)] {
        let c = build_pomo(&pet, 0, &view_of(&[]), "25:00", r, 0, 60, 16);
        let face_row = c.iter().position(|l| l.iter().any(|(s, ..)| s.contains("(=^"))).unwrap();
        let below = text_of(&c[face_row + 1]);
        assert!(below.trim().is_empty(), "face glued to the clock: {below:?}");
    }
}

#[test]
fn tests_pomo_compact_keeps_air_between_face_and_clock() {
    check_pomo_air();
}

#[test]
fn ui_pomo_compact_keeps_air_between_face_and_clock() {
    check_pomo_air();
}

fn check_pomo_full() {
    let pet = named_pet();
    let c = build_pomo(&pet, 0, &view_of(&[]), "25:00", None, 0, 96, 30);
    let text = all_text(&c);
    assert!(text.contains(&format!("┌─ {}", t(Lang::PtBr).pomo_title)));
    assert!(text.contains(&format!("┌─ {}", t(Lang::PtBr).pomo_tasks)));
    assert!(text.contains(t(Lang::PtBr).pomo_preset_labels[0]));
    assert!(text.contains("██"));
}

#[test]
fn tests_pomo_full_tier_shows_clock_beside_pet_and_tasks_panel() {
    check_pomo_full();
}

#[test]
fn ui_pomo_full_tier_shows_clock_beside_pet_and_tasks_panel() {
    check_pomo_full();
}

fn check_control_chars() {
    // a newline mid-frame would move the cursor and shear the layout
    let painted = text_of(&paint_line(&vec![seg("a\nb\tc".to_string(), None)], 20));
    assert!(painted.contains("a b c"), "{painted:?}");
    assert!(!painted.contains('\n') && !painted.contains('\t'));
}

#[test]
fn control_chars_never_reach_the_terminal() {
    check_control_chars();
}
