use tama::assistant::{Kind, Msg};
use tama::i18n::Lang;
use tama::game::{jokenpo, random_pick, GameOutcome};
use tama::i18n::t;
use tama::inbox::{pending_ask, queue_preview, Inbox};
use tama::messages::{due_reminders, update_progress};
use tama::pomo::{mmss, pomo_tick, Pomo, POMO_PRESETS};
use tama::screen::{grid_step, Key, ACTIONS_ALL, ACTIONS_ZEN, ACTION_GLYPHS};

fn check_jokenpo_covers_all_nine_combinations() {
    let mut draws = 0;
    let mut wins = 0;
    let mut losses = 0;
    for p in 0..3 {
        for c in 0..3 {
            match jokenpo(p, c) {
                GameOutcome::Draw => draws += 1,
                GameOutcome::Win => wins += 1,
                GameOutcome::Loss => losses += 1,
            }
        }
    }
    assert_eq!((draws, wins, losses), (3, 3, 3));
}

#[test]
fn app_jokenpo_covers_all_nine_combinations() {
    check_jokenpo_covers_all_nine_combinations();
}

#[test]
fn actions_jokenpo_covers_all_nine_combinations() {
    check_jokenpo_covers_all_nine_combinations();
}

fn check_jokenpo_paper_beats_rock() {
    assert_eq!(jokenpo(1, 0), GameOutcome::Win);
    assert_eq!(jokenpo(0, 1), GameOutcome::Loss);
    assert_eq!(jokenpo(2, 2), GameOutcome::Draw);
}

#[test]
fn app_jokenpo_paper_beats_rock() {
    check_jokenpo_paper_beats_rock();
}

#[test]
fn actions_jokenpo_paper_beats_rock() {
    check_jokenpo_paper_beats_rock();
}

#[test]
fn app_random_pick_is_a_valid_hand() {
    for _ in 0..10 {
        assert!(random_pick() < 3);
    }
}

#[test]
fn actions_random_pick_is_a_valid_hand() {
    for _ in 0..50 {
        assert!(random_pick() < 3);
    }
}

fn check_grid_step_navigates_two_axes_with_wrap() {
    let (len, cols) = (10, 5);
    assert_eq!(grid_step(0, len, cols, Key::Right), 1);
    assert_eq!(grid_step(0, len, cols, Key::Left), 9);
    assert_eq!(grid_step(9, len, cols, Key::Right), 0);
    assert_eq!(grid_step(2, len, cols, Key::Down), 7);
    assert_eq!(grid_step(7, len, cols, Key::Up), 2);
    assert_eq!(grid_step(2, len, cols, Key::Up), 2); // top row stays
    assert_eq!(grid_step(7, len, cols, Key::Down), 7); // bottom row stays
}

#[test]
fn app_grid_step_navigates_two_axes_with_wrap() {
    check_grid_step_navigates_two_axes_with_wrap();
}

#[test]
fn screen_grid_step_navigates_two_axes_with_wrap() {
    check_grid_step_navigates_two_axes_with_wrap();
}

#[test]
fn app_action_tables_stay_index_aligned() {
    assert_eq!(ACTIONS_ALL.len(), t(Lang::PtBr).action_labels.len());
    assert_eq!(ACTIONS_ALL.len(), ACTION_GLYPHS.len());
    for (i, a) in ACTIONS_ALL.iter().enumerate() {
        assert_eq!(*a as usize, i);
    }
    for a in ACTIONS_ZEN {
        assert!(ACTIONS_ALL.contains(&a));
    }
    assert_eq!(POMO_PRESETS.len(), t(Lang::PtBr).pomo_preset_labels.len());
}

#[test]
fn screen_action_tables_stay_index_aligned() {
    assert_eq!(ACTIONS_ALL.len(), t(Lang::PtBr).action_labels.len());
    for (i, a) in ACTIONS_ALL.iter().enumerate() {
        assert_eq!(*a as usize, i);
    }
    for a in ACTIONS_ZEN {
        assert!(ACTIONS_ALL.contains(&a));
    }
}

#[test]
fn every_preset_has_a_label() {
    assert_eq!(POMO_PRESETS.len(), t(Lang::PtBr).pomo_preset_labels.len());
}

fn check_mmss_formats_minutes_and_hours() {
    assert_eq!(mmss(0), "00:00");
    assert_eq!(mmss(1062), "17:42");
    assert_eq!(mmss(3661), "1:01:01");
}

#[test]
fn app_mmss_formats_minutes_and_hours() {
    check_mmss_formats_minutes_and_hours();
}

#[test]
fn pomo_mmss_formats_minutes_and_hours() {
    check_mmss_formats_minutes_and_hours();
}

fn check_pomo_tick_alternates_phases_with_their_own_durations() {
    let mut p = Pomo { work: 1500, rest: 300, focus: true, until: 100, cycles: 1 };
    assert_eq!(pomo_tick(&mut p, 50), None); // still running
    assert_eq!(pomo_tick(&mut p, 100), Some(false)); // break starts
    assert_eq!((p.until, p.cycles), (400, 1));
    assert_eq!(pomo_tick(&mut p, 400), Some(true)); // focus resumes
    assert_eq!((p.until, p.cycles), (1900, 2));
}

#[test]
fn app_pomo_tick_alternates_phases_with_their_own_durations() {
    check_pomo_tick_alternates_phases_with_their_own_durations();
}

#[test]
fn pomo_pomo_tick_alternates_phases_with_their_own_durations() {
    check_pomo_tick_alternates_phases_with_their_own_durations();
}

#[test]
fn app_update_progress_tracks_sources_independently() {
    let mut progress = Vec::new();
    assert!(!update_progress(&mut progress, "build", 10));
    assert!(!update_progress(&mut progress, "deploy", 50));
    assert!(!update_progress(&mut progress, "build", 90)); // updates in place
    assert_eq!(progress, vec![("build".to_string(), 90), ("deploy".to_string(), 50)]);
    assert!(update_progress(&mut progress, "build", 100)); // done → removed
    assert_eq!(progress, vec![("deploy".to_string(), 50)]);
}

#[test]
fn messages_update_progress_tracks_sources_independently() {
    let mut p: Vec<(String, u8)> = Vec::new();
    assert!(!update_progress(&mut p, "a", 10));
    assert!(!update_progress(&mut p, "b", 20));
    assert!(!update_progress(&mut p, "a", 50));
    assert_eq!(p, vec![("a".to_string(), 50), ("b".to_string(), 20)]);
    assert!(update_progress(&mut p, "a", 100)); // done → removed
    assert_eq!(p, vec![("b".to_string(), 20)]);
}

#[test]
fn app_due_reminders_fire_once_and_keep_the_rest() {
    let mut rs = vec![("a".to_string(), 10), ("b".to_string(), 20)];
    assert_eq!(due_reminders(&mut rs, 15), vec!["a".to_string()]);
    assert_eq!(rs.len(), 1);
    assert!(due_reminders(&mut rs, 15).is_empty());
}

#[test]
fn messages_due_reminders_fire_once_and_keep_the_rest() {
    let mut r = vec![("já".to_string(), 100), ("depois".to_string(), 500)];
    assert_eq!(due_reminders(&mut r, 200), vec!["já".to_string()]);
    assert_eq!(r.len(), 1);
    assert!(due_reminders(&mut r, 200).is_empty());
}

fn check_questions_jump_the_queue_and_says_expire() {
    let mut inbox = Inbox::new();
    inbox.queue.push_back(Msg::Say { text: "s".into(), from: String::new(), kind: Kind::Info });
    inbox.queue.push_front(Msg::Ask {
        text: "q".into(),
        options: vec!["sim".into()],
        id: "i".into(),
        from: String::new(),
        expires: None,
        input: false,
    });
    inbox.promote();
    assert!(matches!(inbox.current, Some((Msg::Ask { .. }, _))));
}

#[test]
fn app_questions_jump_the_queue_and_says_expire() {
    check_questions_jump_the_queue_and_says_expire();
}

#[test]
fn inbox_questions_jump_the_queue_and_says_expire() {
    check_questions_jump_the_queue_and_says_expire();
}

fn check_purge_expired_drops_only_expired_asks_and_reports_senders() {
    let ask = |id: &str, from: &str, expires: Option<u64>| Msg::Ask {
        text: "q".into(),
        options: vec!["sim".into()],
        id: id.into(),
        from: from.into(),
        expires,
        input: false,
    };
    let mut inbox = Inbox::new();
    inbox.queue.push_back(ask("a", "agente", Some(100)));
    inbox.queue.push_back(ask("b", "ci", None));
    inbox.queue.push_back(ask("c", "outro", Some(500)));
    inbox.promote(); // "a" becomes current
    assert_eq!(inbox.purge_expired(100), vec!["agente".to_string()]);
    assert!(inbox.current.is_none());
    assert_eq!(inbox.queue.len(), 2); // "b" (sem expira) e "c" (ainda viva) ficam
    assert!(inbox.purge_expired(100).is_empty());
}

#[test]
fn app_purge_expired_drops_only_expired_asks_and_reports_senders() {
    check_purge_expired_drops_only_expired_asks_and_reports_senders();
}

#[test]
fn inbox_purge_expired_drops_only_expired_asks_and_reports_senders() {
    check_purge_expired_drops_only_expired_asks_and_reports_senders();
}

fn check_pending_ask_drives_the_notification_and_ignores_plain_messages() {
    let mut inbox = Inbox::new();
    assert_eq!(pending_ask(&inbox), None);
    inbox.queue.push_back(Msg::Say { text: "oi".into(), from: "ci".into(), kind: Kind::Info });
    assert_eq!(pending_ask(&inbox), None, "uma fala não é pergunta pendente");
    inbox.queue.push_back(Msg::Ask {
        text: "posso?".into(),
        options: vec!["sim".into()],
        id: "i".into(),
        from: "agente".into(),
        expires: None,
        input: false,
    });
    // queued or current, a waiting question always shows up
    assert_eq!(pending_ask(&inbox), Some("agente: posso?".to_string()));
    inbox.promote();
    inbox.current = None; // the say was promoted and dismissed
    inbox.promote();
    assert_eq!(pending_ask(&inbox), Some("agente: posso?".to_string()));
    let _ = inbox.advance();
    assert_eq!(pending_ask(&inbox), None);
}

#[test]
fn app_pending_ask_drives_the_notification_and_ignores_plain_messages() {
    check_pending_ask_drives_the_notification_and_ignores_plain_messages();
}

#[test]
fn inbox_pending_ask_drives_the_notification_and_ignores_plain_messages() {
    check_pending_ask_drives_the_notification_and_ignores_plain_messages();
}

fn check_queue_preview_only_covers_visible_messages() {
    assert!(queue_preview(&Msg::Say { text: "x".into(), from: "ci".into(), kind: Kind::Info })
        .is_some_and(|p| p == "ci: x"));
    assert!(queue_preview(&Msg::Action("dormir".into())).is_none());
}

#[test]
fn app_queue_preview_only_covers_visible_messages() {
    check_queue_preview_only_covers_visible_messages();
}

#[test]
fn inbox_queue_preview_only_covers_visible_messages() {
    check_queue_preview_only_covers_visible_messages();
}

#[test]
fn the_write_entry_is_matched_by_value_not_by_index() {
    // choosing an option compares the chosen label against this string, so
    // it must never be blank or an empty option would open the typing field.
    assert!(!t(Lang::PtBr).option_write.is_empty());
}
