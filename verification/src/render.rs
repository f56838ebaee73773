//! From the app's state to the rows on screen: the view the screens share,
//! the message card, and the dispatch to the screen the app is on.

use vstd::prelude::*;
use crate::assistant::{Kind, Msg, MsgV};
use crate::assistant_view::{assistant_rows, build_assistant};
use crate::card::AssistantMsg;
use crate::frame::frame_rows;
use crate::home::{actions_screen, build_home, game_screen, home_rows, max_nat, menu_screen};
use crate::i18n::{t, table, Lang};
use crate::inbox::queue_preview;
use crate::layout::{copy_line, lines_view, text_of};
use crate::line::{line_view, width_of, Line};
use crate::panel::minus;
use crate::pomo::{mmss, POMO_PRESETS};
use crate::pomo_view::{build_pomo, PomoRun};
use crate::screen::{actions_for, Screen};
use crate::session::App;
use crate::widgets::HomeView;

verus! {

fn footers_of<const N: usize>(fs: &[&'static str; N]) -> (r: Vec<&'static str>)
    ensures
        r@ == fs@,
{
    let mut v: Vec<&'static str> = Vec::new();
    let mut i: usize = 0;
    while i < N
        invariant
            i <= N,
            N == fs@.len(),
            v@ == fs@.take(i as int),
        decreases N - i,
    {
        v.push(fs[i]);
        i = i + 1;
        assert(v@ =~= fs@.take(i as int));
    }
    assert(fs@.take(N as int) =~= fs@);
    v
}

/// The footer hints of the screen the app is on, widest first.
pub open spec fn footers_for(a: App) -> Seq<&'static str> {
    let s = crate::i18n::table(a.lang);
    match a.screen {
        Screen::Home => s.footer_home@,
        Screen::Actions(_) => s.footer_actions@,
        Screen::Menu(_) => s.footer_menu@,
        Screen::Game => s.footer_game@,
        Screen::Pomo(_) => if a.pomo is Some {
            s.footer_pomo_active@
        } else {
            s.footer_pomo_idle@
        },
        Screen::Assistant => match crate::inbox::shown(a.inbox@) {
            Some(MsgV::Ask { .. }) => if a.input is Some {
                s.footer_input@
            } else {
                s.footer_ask@
            },
            _ => s.footer_assistant@,
        },
    }
}

impl App {
    /// What the home-style screens show this frame: the log, the clock, the
    /// timer slot and the progress rows.
    pub fn view(&self) -> (r: HomeView)
        ensures
            lines_view(r.log@) == lines_view(self.log@),
            r.clock_text@ == self.time@,
            r.hour == self.hour,
            r.now == self.now,
            r.lang == self.lang,
            match r.timer {
                Some((label, text)) => crate::session::timer_slot(*self) == Some((label@, text@)),
                None => crate::session::timer_slot(*self) is None,
            },
            r.progress.len() == self.progress@.len(),
            forall|i: int|
                0 <= i < r.progress.len() ==> line_view(#[trigger] r.progress@[i])
                    == crate::line::progress_view(self.lang, 
                    self.progress@[i].0@,
                    if self.progress@[i].1 > 100 {
                        100u8
                    } else {
                        self.progress@[i].1
                    },
                ),
    {
        let mut log: Vec<Line> = Vec::new();
        let mut i: usize = 0;
        while i < self.log.len()
            invariant
                i <= self.log@.len(),
                log.len() == i,
                forall|j: int| 0 <= j < i ==> #[trigger] line_view(log@[j]) == line_view(self.log@[j]),
            decreases self.log@.len() - i,
        {
            log.push(copy_line(&self.log[i]));
            i = i + 1;
        }
        assert(lines_view(log@) =~= lines_view(self.log@));
        HomeView {
            log,
            clock_text: self.time.clone(),
            hour: self.hour,
            now: self.now,
            timer: self.header_timer(),
            progress: self.progress_lines(),
            lang: self.lang,
        }
    }

    /// The card for a message: a spoken message or a question (with its
    /// cursor, its countdown and the typed answer); nothing for the rest.
    pub fn assistant_msg(&self, m: &Msg) -> (r: Option<AssistantMsg>)
        ensures
            match m {
                Msg::Say { text, from, kind } => r matches Some(c) && c.text@ == text@ && c.from@
                    == from@ && c.kind == *kind && c.options is None && c.expires_in is None
                    && c.input is None,
                Msg::Ask { text, from, options, expires, input, .. } => r matches Some(c) && c.text@
                    == text@ && c.from@ == from@ && c.kind == Kind::Info && c.options is Some
                    && c.input_ok == *input && c.sel == self.ask_sel && (match expires {
                    Some(e) => c.expires_in == Some(crate::session::sat_sub(*e, self.now)),
                    None => c.expires_in is None,
                }) && (match self.input {
                    Some(b) => c.input matches Some(ci) && ci@ == b@,
                    None => c.input is None,
                }),
                _ => r is None,
            },
    {
        match m {
            Msg::Say { text, from, kind } => Some(
                AssistantMsg {
                    text: text.clone(),
                    from: from.clone(),
                    kind: *kind,
                    kind_label: crate::i18n::kind_label(self.lang, *kind),
                    options: None,
                    expires_in: None,
                    input: None,
                    input_ok: false,
                    sel: 0,
                },
            ),
            Msg::Ask { text, from, options, expires, input, .. } => {
                let mut opts: Vec<String> = Vec::new();
                let mut i: usize = 0;
                while i < options.len()
                    invariant
                        i <= options.len(),
                    decreases options.len() - i,
                {
                    opts.push(options[i].clone());
                    i = i + 1;
                }
                let expires_in = match expires {
                    Some(e) => Some(e.saturating_sub(self.now)),
                    None => None,
                };
                let typed = match &self.input {
                    Some(b) => Some(b.clone()),
                    None => None,
                };
                Some(
                    AssistantMsg {
                        text: text.clone(),
                        from: from.clone(),
                        kind: Kind::Info,
                        kind_label: crate::i18n::kind_label(self.lang, Kind::Info),
                        options: Some(opts),
                        expires_in,
                        input: typed,
                        input_ok: *input,
                        sel: self.ask_sel,
                    },
                )
            },
            _ => None,
        }
    }

    /// The content of the screen the app is on, for an `iw` × `ih` inner
    /// area, and the footer hints that go with it (widest first).
    pub fn frame_content(&self, iw: usize, ih: usize) -> (r: (Vec<Line>, Vec<&'static str>))
        ensures
            self.screen == Screen::Home ==> r.0.len() == home_rows(
                self.pet,
                self.frame,
                iw as nat,
                ih as nat,
            ),
            r.1@ == footers_for(*self),
            self.screen == Screen::Assistant ==> 1 <= r.0.len() <= max_nat(minus(ih as nat, 1), 1),
            self.screen is Pomo ==> 1 <= r.0.len() <= max_nat(minus(ih as nat, 1), 1),
    {
        let strings = t(self.lang);
        let view = self.view();
        match self.screen {
            Screen::Home => (
                build_home(&self.pet, self.frame, &view, iw, ih),
                footers_of(&strings.footer_home),
            ),
            Screen::Actions(sel) => {
                let items = actions_for(self.pet.zen);
                (
                    actions_screen(&self.pet, self.frame, &view, items, sel, iw, ih),
                    footers_of(&strings.footer_actions),
                )
            },
            Screen::Menu(sel) => (
                menu_screen(&self.pet, self.frame, &view, sel, iw, ih),
                footers_of(&strings.footer_menu),
            ),
            Screen::Game => (
                game_screen(&self.pet, self.frame, &view, iw, ih),
                footers_of(&strings.footer_game),
            ),
            Screen::Pomo(sel) => {
                let run = match self.pomo_run() {
                    Some((label, focus, frac, cycle)) => Some(PomoRun { label, focus, frac, cycle }),
                    None => None,
                };
                let clock = match self.pomo {
                    Some(p) => mmss(p.until.saturating_sub(self.now)),
                    None => {
                        let k = if sel < 3 {
                            sel
                        } else {
                            2
                        };
                        mmss(POMO_PRESETS[k].0)
                    },
                };
                let content = match &run {
                    Some(r) => build_pomo(&self.pet, self.frame, &view, clock.as_str(), Some(r), sel, iw, ih),
                    None => build_pomo(&self.pet, self.frame, &view, clock.as_str(), None, sel, iw, ih),
                };
                let footers = if run.is_some() {
                    footers_of(&strings.footer_pomo_active)
                } else {
                    footers_of(&strings.footer_pomo_idle)
                };
                (content, footers)
            },
            Screen::Assistant => {
                let msg: Option<AssistantMsg> = match &self.inbox.current {
                    Some((m, _)) => self.assistant_msg(m),
                    None => None,
                };
                let mut preview: Vec<String> = Vec::new();
                let mut i: usize = 0;
                while i < self.inbox.queue.len()
                    invariant
                        i <= self.inbox.queue@.len(),
                    decreases self.inbox.queue@.len() - i,
                {
                    match queue_preview(&self.inbox.queue[i]) {
                        Some(p) => preview.push(p),
                        None => {},
                    }
                    i = i + 1;
                }
                let footers = match &msg {
                    Some(m) => if m.input.is_some() {
                        footers_of(&strings.footer_input)
                    } else if m.options.is_some() {
                        footers_of(&strings.footer_ask)
                    } else {
                        footers_of(&strings.footer_assistant)
                    },
                    None => footers_of(&strings.footer_assistant),
                };
                let content = match &msg {
                    Some(m) => build_assistant(
                        &self.pet,
                        self.frame,
                        Some(m),
                        preview.as_slice(),
                        self.inbox.queue.len(),
                        &view,
                        iw,
                        ih,
                    ),
                    None => build_assistant(
                        &self.pet,
                        self.frame,
                        None,
                        preview.as_slice(),
                        self.inbox.queue.len(),
                        &view,
                        iw,
                        ih,
                    ),
                };
                (content, footers)
            },
        }
    }

    /// The whole screen for a terminal of `cols` × `rows`: the frame, the
    /// content of the current screen centered in it, the footer hints. Every
    /// row is exactly `cols` wide and holds no control character.
    pub fn screen_rows(&self, cols: u16, rows: u16) -> (r: Vec<Line>)
        ensures
            cols < 4 || rows < 3 ==> r.len() == 0,
            cols >= 4 && rows >= 3 ==> {
                let iw = (cols - 2) as nat;
                &&& r.len() == rows
                &&& text_of(lines_view(r@)[0]) == seq!['┌'] + crate::line::repeat('─', iw) + seq!['┐']
                &&& text_of(lines_view(r@)[rows - 1]) == seq!['└'] + crate::line::repeat('─', iw)
                    + seq!['┘']
                &&& forall|i: int| 0 <= i < rows ==> width_of(#[trigger] lines_view(r@)[i]) == cols
                &&& forall|i: int|
                    0 <= i < rows ==> crate::frame::no_control(text_of(#[trigger] lines_view(r@)[i]))
            },
    {
        let iw = cols.saturating_sub(2) as usize;
        let ih = rows.saturating_sub(2) as usize;
        let (content, footers) = self.frame_content(iw, ih);
        frame_rows(content.as_slice(), footers.as_slice(), cols, rows)
    }
}

} // verus!
