//! The running app's state and every decision it takes: what an arriving
//! message does, what comes due, what a key does on each screen. The program
//! around it reads the clock, the pipe and the keyboard, draws the screen,
//! and carries out the `Effects` each step leaves behind (saving the pet,
//! writing answers, ringing the bell, running the species picker).

use std::collections::VecDeque;
use vstd::prelude::*;
use crate::answer::labels_of;
use crate::assistant::{msg_views, parse_msgs, Kind, Msg, MsgV};
use crate::i18n::{t, table, Lang};
use crate::inbox::{ask_options, pending_ask, Inbox};
use crate::line::{line_view, mood_color, seg, tinted, Color, Line, Seg};
use crate::messages::{due_reminders, update_progress};
use crate::pet::{adj, food, Mood, Pet, DECAY_SECS, FOOD_COUNT};
use crate::pomo::{pomo_tick, Pomo, POMO_PRESETS};
use crate::screen::{actions_for, Action, Key, Screen};
use crate::species::Species;
use crate::state::Schedule;
use crate::text::{chars_of, push_dec, push_str, string_of};

verus! {

/// Entries kept in the event log.
pub const LOG_CAP: usize = 12;

/// Seconds a spoken message stays on screen.
pub const SAY_SECS: u64 = 8;

/// Longest typed answer: room for a paragraph, still bounded.
pub const ANSWER_CAP: usize = 1000;

/// An answer to write for ask `id`; once written (or not), the program
/// reports back with `note_answer(entry, ...)`.
pub struct Answer {
    pub id: String,
    pub answer: String,
    pub entry: String,
}

/// What a step leaves for the program to carry out.
pub struct Effects {
    /// Save the pet.
    pub save: bool,
    /// Ring the terminal bell.
    pub bell: bool,
    /// Answers to write.
    pub answers: Vec<Answer>,
    /// Asks dropped unanswered: answer each "ignored".
    pub ignored: Vec<String>,
    /// Run the species picker, then report with `switched`.
    pub switch_species: bool,
    /// Take the question notification away (the app is closing).
    pub clear_notification: bool,
}

pub fn no_effects() -> (r: Effects)
    ensures
        !r.save,
        !r.bell,
        r.answers@.len() == 0,
        r.ignored@.len() == 0,
        !r.switch_species,
        !r.clear_notification,
{
    Effects {
        save: false,
        bell: false,
        answers: Vec::new(),
        ignored: Vec::new(),
        switch_species: false,
        clear_notification: false,
    }
}

pub struct App {
    pub pet: Pet,
    pub log: VecDeque<Line>,
    pub inbox: Inbox,
    pub progress: Vec<(String, u8)>,
    pub reminders: Vec<(String, u64)>,
    pub timer_until: Option<u64>,
    pub pomo: Option<Pomo>,
    pub schedule_dirty: bool,
    /// A notification about a waiting question is showing.
    pub notified: bool,
    pub screen: Screen,
    /// Where an ask yanked the user from; restored when the inbox drains.
    pub prev_screen: Screen,
    /// The highlighted option of the question on screen.
    pub ask_sel: usize,
    /// Which question `ask_sel` and `input` belong to.
    pub ask_id: String,
    /// `Some` while the current ask is being answered by typing.
    pub input: Option<String>,
    pub frame: usize,
    pub ticks: u64,
    pub prev_mood: Mood,
    /// The clock as shown, its hour, and seconds since the epoch.
    pub time: String,
    pub hour: u8,
    pub now: u64,
    pub effects: Effects,
    /// The language everything is shown in.
    pub lang: Lang,
}

/// The log after adding a line: the last `LOG_CAP` entries.
pub open spec fn kept_log<T>(s: Seq<T>) -> Seq<T> {
    if s.len() > LOG_CAP {
        s.skip(s.len() - LOG_CAP)
    } else {
        s
    }
}

pub open spec fn log_views(l: Seq<Line>) -> Seq<Seq<(Seq<char>, Option<Color>, Option<Color>)>> {
    l.map_values(|x: Line| line_view(x))
}

/// A log entry stamped with the clock: the time, the text, and an optional
/// colored suffix.
pub open spec fn entry_view(time: Seq<char>, text: Seq<char>, suffix: Option<(Seq<char>, Color)>) -> Seq<
    (Seq<char>, Option<Color>, Option<Color>),
> {
    let head = seq![(time + seq![' '], Some(Color::DarkGrey), None), (text, None, None)];
    match suffix {
        Some((s, c)) => head.push((seq![' '] + s, Some(c), None)),
        None => head,
    }
}

/// A suffix as the log shows it.
pub open spec fn suffix_view(suffix: Option<(String, Color)>) -> Option<(Seq<char>, Color)> {
    match suffix {
        Some((s, c)) => Some((s@, c)),
        None => None,
    }
}

fn spaced(s: &str) -> (r: String)
    ensures
        r@ == s@ + seq![' '],
{
    let mut v = chars_of(s);
    v.push(' ');
    string_of(v.as_slice())
}

fn leading_space(s: &str) -> (r: String)
    ensures
        r@ == seq![' '] + s@,
{
    let mut v: Vec<char> = Vec::new();
    v.push(' ');
    push_str(&mut v, s);
    assert(v@ =~= seq![' '] + s@);
    string_of(v.as_slice())
}

impl App {
    pub fn new(pet: Pet, saved: Schedule, time: String, hour: u8, now: u64, lang: Lang) -> (r: App)
        ensures
            r.pet == pet,
            r.screen == Screen::Home,
            r.prev_screen == Screen::Home,
            r.inbox@.queue.len() == 0,
            r.inbox@.current is None,
            r.log@.len() == 0,
            r.progress@.len() == 0,
            r.reminders == saved.reminders,
            r.timer_until == saved.timer,
            r.pomo == match saved.pomo {
                Some(p) => Some(crate::pomo::pomo_from(p)),
                None => None,
            },
            !r.schedule_dirty,
            !r.notified,
            r.ask_sel == 0,
            r.ask_id@.len() == 0,
            r.input is None,
            r.frame == 0,
            r.ticks == 0,
            r.prev_mood == crate::pet::mood_of(pet),
            r.time@ == time@,
            r.hour == hour,
            r.now == now,
            !r.effects.save,
            !r.effects.bell,
            r.effects.answers@.len() == 0,
            r.effects.ignored@.len() == 0,
            !r.effects.switch_species,
            !r.effects.clear_notification,
            r.lang == lang,
    {
        let prev_mood = pet.mood();
        let pomo = match saved.pomo {
            Some(p) => Some(Pomo::from_saved(p)),
            None => None,
        };
        App {
            pet,
            log: VecDeque::new(),
            inbox: Inbox::new(),
            progress: Vec::new(),
            reminders: saved.reminders,
            timer_until: saved.timer,
            pomo,
            schedule_dirty: false,
            notified: false,
            screen: Screen::Home,
            prev_screen: Screen::Home,
            ask_sel: 0,
            ask_id: String::new(),
            input: None,
            frame: 0,
            ticks: 0,
            prev_mood,
            time,
            hour,
            now,
            effects: no_effects(),
            lang,
        }
    }

    /// The effects gathered so far, handed over and cleared.
    pub fn take_effects(&mut self) -> (r: Effects)
        ensures
            r == old(self).effects,
            *final(self) == (App { effects: final(self).effects, ..*old(self) }),
            !final(self).effects.save,
            !final(self).effects.bell,
            final(self).effects.answers@.len() == 0,
            final(self).effects.ignored@.len() == 0,
            !final(self).effects.switch_species,
            !final(self).effects.clear_notification,
    {
        let mut e = no_effects();
        std::mem::swap(&mut e, &mut self.effects);
        e
    }

    /// A new clock reading for this frame.
    pub fn set_clock(&mut self, time: String, hour: u8, now: u64)
        ensures
            final(self).time@ == time@,
            final(self).hour == hour,
            final(self).now == now,
    {
        self.time = time;
        self.hour = hour;
        self.now = now;
    }

    /// Adds a line to the event log, dropping the oldest past `LOG_CAP`.
    pub fn log_line(&mut self, line: Line)
        ensures
            log_views(final(self).log@) == kept_log(log_views(old(self).log@).push(line_view(line))),
            final(self).log@.len() <= LOG_CAP,
            *final(self) == (App { log: final(self).log, ..*old(self) }),
    {
        let ghost before = log_views(self.log@);
        let ghost lv = line_view(line);
        self.log.push_back(line);
        assert(log_views(self.log@) =~= before.push(lv));
        let ghost full = before.push(lv);
        let ghost mut dropped: int = 0;
        while self.log.len() > LOG_CAP
            invariant
                *self == (App { log: self.log, ..*old(self) }),
                0 <= dropped <= full.len(),
                log_views(self.log@) == full.skip(dropped),
                self.log@.len() == full.len() - dropped,
                full.len() > LOG_CAP ==> full.len() - dropped >= LOG_CAP,
                full.len() <= LOG_CAP ==> dropped == 0,
            decreases self.log.len(),
        {
            let ghost q = self.log@;
            let _ = self.log.pop_front();
            proof {
                assert(log_views(self.log@) =~= log_views(q).drop_first());
                assert(full.skip(dropped).drop_first() =~= full.skip(dropped + 1));
                dropped = dropped + 1;
            }
        }
        assert(log_views(self.log@) =~= kept_log(full));
    }

    /// A log entry stamped with the clock, with an optional colored suffix
    /// such as "(+10 xp)".
    pub fn log_at(&mut self, text: String, suffix: Option<(String, Color)>)
        ensures
            log_views(final(self).log@) == kept_log(
                log_views(old(self).log@).push(
                    entry_view(
                        old(self).time@,
                        text@,
                        match suffix {
                            Some((s, c)) => Some((s@, c)),
                            None => None,
                        },
                    ),
                ),
            ),
            log_views(final(self).log@) == logged(
                log_views(old(self).log@),
                seq![entry_view(old(self).time@, text@, suffix_view(suffix))],
            ),
            *final(self) == (App { log: final(self).log, ..*old(self) }),
    {
        proof {
            lemma_logged_one(log_views(self.log@), entry_view(self.time@, text@, suffix_view(suffix)));
        }
        let mut l: Line = Vec::new();
        l.push(seg(spaced(self.time.as_str()), Some(Color::DarkGrey)));
        l.push(seg(text, None));
        match suffix {
            Some((s, c)) => {
                l.push(seg(leading_space(s.as_str()), Some(c)));
            },
            None => {},
        }
        assert(line_view(l) =~= entry_view(
            self.time@,
            l@[1].0@,
            match suffix {
                Some((s, c)) => Some((s@, c)),
                None => None,
            },
        ));
        self.log_line(l);
    }
}


fn plus_text(n: u64, what: &str) -> (r: String)
    ensures
        r@ == "(+"@ + crate::text::dec(n as nat) + seq![' '] + what@ + seq![')'],
{
    let mut v: Vec<char> = Vec::new();
    push_str(&mut v, "(+");
    push_dec(&mut v, n);
    v.push(' ');
    push_str(&mut v, what);
    v.push(')');
    assert(v@ =~= "(+"@ + crate::text::dec(n as nat) + seq![' '] + what@ + seq![')']);
    string_of(v.as_slice())
}

/// A message template with its one placeholder filled.
pub open spec fn filled1(template: Seq<char>, key: Seq<char>, value: Seq<char>) -> Seq<char> {
    crate::i18n::fill_text(template, seq![(key, value)])
}

/// The log after adding entries one by one, each keeping the last
/// `LOG_CAP`.
pub open spec fn logged(
    l: Seq<Seq<(Seq<char>, Option<Color>, Option<Color>)>>,
    es: Seq<Seq<(Seq<char>, Option<Color>, Option<Color>)>>,
) -> Seq<Seq<(Seq<char>, Option<Color>, Option<Color>)>>
    decreases es.len(),
{
    if es.len() == 0 {
        l
    } else {
        kept_log(logged(l, es.drop_last()).push(es.last()))
    }
}

/// Logging one entry keeps the last `LOG_CAP`.
pub proof fn lemma_logged_one(
    l: Seq<Seq<(Seq<char>, Option<Color>, Option<Color>)>>,
    e: Seq<(Seq<char>, Option<Color>, Option<Color>)>,
)
    ensures
        logged(l, seq![e]) == kept_log(l.push(e)),
{
    assert(seq![e].drop_last() =~= Seq::<Seq<(Seq<char>, Option<Color>, Option<Color>)>>::empty());
    assert(logged(l, Seq::empty()) == l);
}

/// Logging one more entry.
pub proof fn lemma_logged_push(
    l: Seq<Seq<(Seq<char>, Option<Color>, Option<Color>)>>,
    es: Seq<Seq<(Seq<char>, Option<Color>, Option<Color>)>>,
    e: Seq<(Seq<char>, Option<Color>, Option<Color>)>,
)
    ensures
        logged(l, es.push(e)) == kept_log(logged(l, es).push(e)),
{
    assert(es.push(e).drop_last() =~= es);
}

/// Logging entries in two runs is logging them all.
pub proof fn lemma_logged_concat(
    l: Seq<Seq<(Seq<char>, Option<Color>, Option<Color>)>>,
    a: Seq<Seq<(Seq<char>, Option<Color>, Option<Color>)>>,
    b: Seq<Seq<(Seq<char>, Option<Color>, Option<Color>)>>,
)
    ensures
        logged(l, a + b) == logged(logged(l, a), b),
    decreases b.len(),
{
    if b.len() == 0 {
        assert(a + b =~= a);
    } else {
        lemma_logged_concat(l, a, b.drop_last());
        assert((a + b).drop_last() =~= a + b.drop_last());
        assert((a + b).last() == b.last());
    }
}

/// The level-up entry, when the pet went up a level.
pub open spec fn level_entry(lang: crate::i18n::Lang, time: Seq<char>, before: Pet, after: Pet) -> Seq<
    Seq<(Seq<char>, Option<Color>, Option<Color>)>,
> {
    if after.level > before.level {
        seq![
            entry_view(
                time,
                crate::i18n::fill_text(
                    table(lang).msg_level_up@,
                    seq![("name"@, after.name@), ("level"@, crate::text::dec(after.level as nat))],
                ),
                None,
            ),
        ]
    } else {
        Seq::empty()
    }
}

/// `(+n what)`, the suffix of a gain.
pub open spec fn plus_view(n: nat, what: Seq<char>) -> Seq<char> {
    "(+"@ + crate::text::dec(n) + seq![' '] + what + seq![')']
}

/// A key as the screen reads it: Alt+Enter is Enter everywhere but in a
/// typed answer, where it breaks the line.
pub open spec fn key_read(a: App, k: Key) -> Key {
    if a.screen == Screen::Assistant && a.input is Some {
        k
    } else {
        crate::screen::enter_key(k)
    }
}

/// Playing: happier, a bit tired, 10 XP, saved; nothing when the XP would
/// not fit.
pub open spec fn played(s0: App, s1: App) -> bool {
    if crate::pet::xp_ok(s0.pet, 10) {
        &&& log_views(s1.log@) == logged(
            log_views(s0.log@),
            seq![
                entry_view(
                    s0.time@,
                    filled1(table(s0.lang).msg_played@, "name"@, s0.pet.name@),
                    Some(("(+10 xp)"@, Color::Cyan)),
                ),
            ] + level_entry(s0.lang, s0.time@, s0.pet, s1.pet),
        )
        &&& s1 == App {
            pet: crate::pet::earned(
                Pet {
                    happiness: crate::pet::clamp100(s0.pet.happiness + 20),
                    energy: crate::pet::clamp100(s0.pet.energy - 10),
                    ..s0.pet
                },
                10,
            ),
            log: s1.log,
            effects: Effects { save: true, ..s0.effects },
            ..s0
        }
    } else {
        s1 == s0
    }
}

/// A bath: hygiene full, 5 XP, saved; nothing when the XP would not fit.
pub open spec fn bathed(s0: App, s1: App) -> bool {
    if crate::pet::xp_ok(s0.pet, 5) {
        &&& log_views(s1.log@) == logged(
            log_views(s0.log@),
            seq![
                entry_view(
                    s0.time@,
                    filled1(table(s0.lang).msg_bathed@, "name"@, s0.pet.name@),
                    Some((table(s0.lang).bath_suffix@, Color::Green)),
                ),
            ] + level_entry(s0.lang, s0.time@, s0.pet, s1.pet),
        )
        &&& s1 == App {
            pet: crate::pet::earned(Pet { hygiene: 100, ..s0.pet }, 5),
            log: s1.log,
            effects: Effects { save: true, ..s0.effects },
            ..s0
        }
    } else {
        s1 == s0
    }
}

/// To bed, or awake.
pub open spec fn slept(s0: App, s1: App) -> bool {
    &&& log_views(s1.log@) == logged(
        log_views(s0.log@),
        seq![
            entry_view(
                s0.time@,
                filled1(
                    if !s0.pet.sleeping {
                        table(s0.lang).msg_sleep@
                    } else {
                        table(s0.lang).msg_wake@
                    },
                    "name"@,
                    s0.pet.name@,
                ),
                None,
            ),
        ],
    )
    &&& s1 == App { pet: Pet { sleeping: !s0.pet.sleeping, ..s0.pet }, log: s1.log, ..s0 }
}

/// Zen mode flipped, the pet awake, saved.
pub open spec fn zenned(s0: App, s1: App) -> bool {
    &&& log_views(s1.log@) == logged(
        log_views(s0.log@),
        seq![
            entry_view(
                s0.time@,
                if !s0.pet.zen {
                    table(s0.lang).msg_zen_on@
                } else {
                    table(s0.lang).msg_zen_off@
                },
                None,
            ),
        ],
    )
    &&& s1 == App {
        pet: Pet { zen: !s0.pet.zen, sleeping: false, ..s0.pet },
        log: s1.log,
        effects: Effects { save: true, ..s0.effects },
        ..s0
    }
}

/// The species picker asked for.
pub open spec fn switch_asked(s0: App, s1: App) -> bool {
    s1 == App { effects: Effects { switch_species: true, ..s0.effects }, ..s0 }
}

/// Food `sel` eaten, 5 XP, saved; nothing when the XP would not fit.
pub open spec fn fed_with(s0: App, sel: int, s1: App) -> bool {
    if crate::pet::xp_ok(s0.pet, 5) {
        let f = crate::pet::food_at(sel);
        &&& log_views(s1.log@) == logged(
            log_views(s0.log@),
            seq![
                entry_view(
                    s0.time@,
                    crate::i18n::fill_text(
                        table(s0.lang).msg_fed@,
                        seq![("food"@, table(s0.lang).food_names[sel]@), ("name"@, s0.pet.name@)],
                    ),
                    Some(
                        (
                            if f.hunger > 0 {
                                plus_view(f.hunger as nat, table(s0.lang).stat_labels[0]@)
                            } else {
                                plus_view(f.energy as nat, table(s0.lang).stat_labels[2]@)
                            },
                            Color::Green,
                        ),
                    ),
                ),
            ] + level_entry(s0.lang, s0.time@, s0.pet, s1.pet),
        )
        &&& s1 == App {
            pet: crate::pet::earned(crate::pet::fed(s0.pet, crate::pet::food_at(sel)), 5),
            log: s1.log,
            effects: Effects { save: true, ..s0.effects },
            ..s0
        }
    } else {
        s1 == s0
    }
}

/// A pomodoro started now: focus first, cycle 1; the pet awake.
pub open spec fn started(s0: App, work: u64, rest: u64, s1: App) -> bool {
    &&& log_views(s1.log@) == logged(
        log_views(s0.log@),
        seq![entry_view(s0.time@, table(s0.lang).msg_pomo_start@, None)],
    )
    &&& s1 == App {
        pomo: Some(Pomo { work, rest, focus: true, until: sat_add(s0.now, work), cycles: 1 }),
        schedule_dirty: true,
        pet: Pet { sleeping: false, ..s0.pet },
        log: s1.log,
        ..s0
    }
}

/// The running pomodoro stopped, the pet awake; nothing when none runs.
pub open spec fn stopped(s0: App, s1: App) -> bool {
    if s0.pomo is Some {
        &&& log_views(s1.log@) == logged(
            log_views(s0.log@),
            seq![entry_view(s0.time@, table(s0.lang).msg_pomo_stopped@, None)],
        )
        &&& s1 == App {
            pomo: None,
            schedule_dirty: true,
            pet: Pet { sleeping: false, ..s0.pet },
            log: s1.log,
            ..s0
        }
    } else {
        s1 == s0
    }
}

impl App {
    /// Logs the level-up, if there was one.
    fn log_level_up(&mut self, leveled: bool)
        ensures
            log_views(final(self).log@) == logged(
                log_views(old(self).log@),
                if leveled {
                    seq![
                        entry_view(
                            old(self).time@,
                            crate::i18n::fill_text(
                                table(old(self).lang).msg_level_up@,
                                seq![
                                    ("name"@, old(self).pet.name@),
                                    ("level"@, crate::text::dec(old(self).pet.level as nat)),
                                ],
                            ),
                            None,
                        ),
                    ]
                } else {
                    Seq::empty()
                },
            ),
            *final(self) == (App { log: final(self).log, ..*old(self) }),
    {
        if leveled {
            let text = crate::i18n::msg_level_up(self.lang, self.pet.name.as_str(), self.pet.level);
            self.log_at(text, None);
        }
        proof {
            if !leveled {
                assert(logged(log_views(old(self).log@), Seq::empty()) == log_views(old(self).log@));
            }
        }
    }

    /// Plays with the pet: happier, a bit tired, 10 XP; saved.
    pub fn do_play(&mut self)
        ensures
            played(*old(self), *final(self)),
    {
        let ghost l0 = log_views(self.log@);
        let ghost s0 = *self;
        if !self.pet.can_earn(10) {
            return;
        }
        let leveled = self.pet.play();
        let text = crate::i18n::msg_played(self.lang, self.pet.name.as_str());
        self.log_at(text, Some(("(+10 xp)".to_owned(), Color::Cyan)));
        self.log_level_up(leveled);
        proof {
            lemma_logged_concat(l0, seq![entry_view(s0.time@, filled1(table(self.lang).msg_played@, "name"@, s0.pet.name@), Some(("(+10 xp)"@, Color::Cyan)))], level_entry(self.lang, s0.time@, s0.pet, self.pet));
        }
        self.effects.save = true;
    }

    /// A bath: hygiene full, 5 XP; saved.
    pub fn do_bath(&mut self)
        ensures
            bathed(*old(self), *final(self)),
    {
        let ghost l0 = log_views(self.log@);
        let ghost s0 = *self;
        if !self.pet.can_earn(5) {
            return;
        }
        let leveled = self.pet.bathe();
        let text = crate::i18n::msg_bathed(self.lang, self.pet.name.as_str());
        self.log_at(text, Some((t(self.lang).bath_suffix.to_owned(), Color::Green)));
        self.log_level_up(leveled);
        proof {
            lemma_logged_concat(l0, seq![entry_view(s0.time@, filled1(table(self.lang).msg_bathed@, "name"@, s0.pet.name@), Some((table(self.lang).bath_suffix@, Color::Green)))], level_entry(self.lang, s0.time@, s0.pet, self.pet));
        }
        self.effects.save = true;
    }

    /// Puts the pet to bed, or wakes it.
    pub fn do_sleep(&mut self)
        ensures
            slept(*old(self), *final(self)),
    {
        self.pet.sleeping = !self.pet.sleeping;
        let text = crate::i18n::msg_sleep(self.lang, self.pet.name.as_str(), self.pet.sleeping);
        self.log_at(text, None);
    }

    /// Zen mode on or off; the pet wakes up; saved.
    pub fn do_zen(&mut self)
        ensures
            zenned(*old(self), *final(self)),
    {
        self.pet.zen = !self.pet.zen;
        self.pet.sleeping = false;
        let text = crate::i18n::msg_zen(self.lang, self.pet.zen);
        self.log_at(text, None);
        self.effects.save = true;
    }

    /// Asks for the species picker.
    pub fn do_switch(&mut self)
        ensures
            switch_asked(*old(self), *final(self)),
    {
        self.effects.switch_species = true;
    }

    /// The species picker's answer: a new species is logged and saved.
    pub fn switched(&mut self, species: Species)
        ensures
            species != old(self).pet.species ==> log_views(final(self).log@) == logged(
                log_views(old(self).log@),
                seq![
                    entry_view(
                        old(self).time@,
                        crate::i18n::fill_text(
                            table(old(self).lang).msg_became@,
                            seq![
                                ("name"@, old(self).pet.name@),
                                ("species"@, table(old(self).lang).species_names[crate::i18n::species_ix(species)]@),
                            ],
                        ),
                        None,
                    ),
                ],
            ),
            species != old(self).pet.species ==> *final(self) == (App {
                pet: Pet { species, ..old(self).pet },
                log: final(self).log,
                effects: Effects { save: true, switch_species: false, ..old(self).effects },
                ..*old(self)
            }),
            species == old(self).pet.species ==> *final(self) == (App {
                effects: Effects { switch_species: false, ..old(self).effects },
                ..*old(self)
            }),
    {
        self.effects.switch_species = false;
        if species != self.pet.species {
            self.pet.species = species;
            let text = crate::i18n::msg_became(self.lang, self.pet.name.as_str(), species);
            self.log_at(text, None);
            self.effects.save = true;
        }
    }

    /// Feeds food `sel` of the menu; saved.
    pub fn do_feed(&mut self, sel: usize)
        requires
            sel < FOOD_COUNT,
        ensures
            fed_with(*old(self), sel as int, *final(self)),
    {
        let ghost l0 = log_views(self.log@);
        let ghost s0 = *self;
        if !self.pet.can_earn(5) {
            return;
        }
        let f = food(sel);
        let leveled = self.pet.eat(&f);
        let strings = t(self.lang);
        let suffix = if f.hunger > 0 {
            plus_text(f.hunger as u64, strings.stat_labels[0])
        } else {
            plus_text(f.energy as u64, strings.stat_labels[2])
        };
        let text = crate::i18n::msg_fed(self.lang, strings.food_names[sel], self.pet.name.as_str());
        proof {
            let fa = crate::pet::food_at(sel as int);
            assert(f == fa);
            assert(fa.hunger > 0 ==> suffix@ == plus_view(fa.hunger as nat, table(self.lang).stat_labels[0]@));
            assert(fa.hunger <= 0 ==> fa.energy == 10);
            assert(fa.hunger <= 0 ==> suffix@ == plus_view(fa.energy as nat, table(self.lang).stat_labels[2]@));
        }
        self.log_at(text, Some((suffix, Color::Green)));
        self.log_level_up(leveled);
        proof {
            let fa = crate::pet::food_at(sel as int);
            lemma_logged_concat(
                l0,
                seq![
                    entry_view(
                        s0.time@,
                        crate::i18n::fill_text(
                            table(self.lang).msg_fed@,
                            seq![("food"@, table(self.lang).food_names[sel as int]@), ("name"@, s0.pet.name@)],
                        ),
                        Some(
                            (
                                if fa.hunger > 0 {
                                    plus_view(fa.hunger as nat, table(self.lang).stat_labels[0]@)
                                } else {
                                    plus_view(fa.energy as nat, table(self.lang).stat_labels[2]@)
                                },
                                Color::Green,
                            ),
                        ),
                    ),
                ],
                level_entry(self.lang, s0.time@, s0.pet, self.pet),
            );
        }
        self.effects.save = true;
    }

    /// One round of rock-paper-scissors against the pet's random hand.
    /// Losing makes the pet happiest: +15 and 20 XP; a win +5 and 10 XP, a
    /// draw +5 and 5 XP; every round tires it by 5. Saved.
    pub fn do_game(&mut self, player: usize)
        requires
            player < 3,
        ensures
            gamed(*old(self), player as int, *final(self)),
    {
        let ghost l0 = log_views(self.log@);
        let ghost s0 = *self;
        if !self.pet.can_earn(20) {
            return;
        }
        let pet_pick = crate::game::random_pick();
        let strings = t(self.lang);
        let outcome = crate::game::jokenpo(player, pet_pick);
        let (label, happy, xp): (&str, i16, u32) = match outcome {
            crate::game::GameOutcome::Draw => (strings.game_draw, 5, 5),
            crate::game::GameOutcome::Win => (strings.game_win, 5, 10),
            crate::game::GameOutcome::Loss => (strings.game_loss, 15, 20),
        };
        self.pet.happiness = adj(self.pet.happiness, happy);
        self.pet.energy = adj(self.pet.energy, -5);
        proof {
            lemma_xp_ok_less(old(self).pet, self.pet, xp, 20);
        }
        let leveled = self.pet.gain_xp(xp);
        let text = crate::i18n::msg_game(self.lang, strings.hands[player], strings.hands[pet_pick], label);
        self.log_at(text, Some((plus_text(xp as u64, "xp"), Color::Cyan)));
        self.log_level_up(leveled);
        proof {
            lemma_logged_concat(
                l0,
                seq![game_entry(self.lang, s0.time@, player as int, pet_pick as int)],
                level_entry(self.lang, s0.time@, s0.pet, self.pet),
            );
            assert(crate::game::outcome_of(player as int, pet_pick as int) == outcome);
        }
        self.effects.save = true;
    }
}

/// What the round's outcome is called.
pub open spec fn outcome_label(lang: crate::i18n::Lang, o: crate::game::GameOutcome) -> Seq<char> {
    match o {
        crate::game::GameOutcome::Draw => table(lang).game_draw@,
        crate::game::GameOutcome::Win => table(lang).game_win@,
        crate::game::GameOutcome::Loss => table(lang).game_loss@,
    }
}

/// XP a round earns: 5 for a draw, 10 for a win, 20 for a loss.
pub open spec fn game_xp(o: crate::game::GameOutcome) -> nat {
    match o {
        crate::game::GameOutcome::Draw => 5,
        crate::game::GameOutcome::Win => 10,
        crate::game::GameOutcome::Loss => 20,
    }
}

/// The log entry of a round: both hands, the outcome, the XP.
pub open spec fn game_entry(lang: crate::i18n::Lang, time: Seq<char>, player: int, pick: int) -> Seq<
    (Seq<char>, Option<Color>, Option<Color>),
> {
    let o = crate::game::outcome_of(player, pick);
    entry_view(
        time,
        crate::i18n::fill_text(
            table(lang).msg_game@,
            seq![
                ("player"@, table(lang).hands[player]@),
                ("pet"@, table(lang).hands[pick]@),
                ("outcome"@, outcome_label(lang, o)),
            ],
        ),
        Some((plus_view(game_xp(o), "xp"@), Color::Cyan)),
    )
}

/// A round of the game played with hand `player`: the pet's hand is one of
/// the three, the pet changes by the outcome, saved; nothing when the XP
/// would not fit.
pub open spec fn gamed(s0: App, player: int, s1: App) -> bool {
    if crate::pet::xp_ok(s0.pet, 20) {
        &&& exists|pick: int|
            0 <= pick < 3 && s1.pet == game_result(
                s0.pet,
                #[trigger] crate::game::outcome_of(player, pick),
            ) && log_views(s1.log@) == logged(
                log_views(s0.log@),
                seq![game_entry(s0.lang, s0.time@, player, pick)] + level_entry(s0.lang, s0.time@, s0.pet, s1.pet),
            )
        &&& s1 == App {
            pet: s1.pet,
            log: s1.log,
            effects: Effects { save: true, ..s0.effects },
            ..s0
        }
    } else {
        s1 == s0
    }
}

/// The inbox emptied; every question in it (on screen or waiting) joins
/// those to answer "ignored".
pub open spec fn cleared(s0: App, s1: App) -> bool {
    &&& s1.inbox@ == crate::inbox::InboxV { queue: Seq::empty(), current: None }
    &&& crate::assistant::string_views(s1.effects.ignored@) == crate::assistant::string_views(
        s0.effects.ignored@,
    ) + (match crate::inbox::shown(s0.inbox@) {
        Some(MsgV::Ask { id, .. }) => seq![id],
        _ => Seq::empty(),
    }) + crate::inbox::ask_ids(s0.inbox@.queue)
    &&& s1 == App {
        inbox: s1.inbox,
        effects: Effects { ignored: s1.effects.ignored, ..s0.effects },
        ..s0
    }
}

/// Leaving: the inbox cleared, and a notification still up taken away.
pub open spec fn quitted(s0: App, s1: App) -> bool {
    &&& s1.effects.clear_notification == (s0.effects.clear_notification || s0.notified)
    &&& cleared(
        s0,
        App {
            effects: Effects { clear_notification: s0.effects.clear_notification, ..s1.effects },
            ..s1
        },
    )
}

/// The pet after a round of the game.
pub open spec fn game_result(p: Pet, o: crate::game::GameOutcome) -> Pet {
    let (happy, xp): (int, u32) = match o {
        crate::game::GameOutcome::Draw => (5, 5),
        crate::game::GameOutcome::Win => (5, 10),
        crate::game::GameOutcome::Loss => (15, 20),
    };
    crate::pet::earned(
        Pet {
            happiness: crate::pet::clamp100(p.happiness + happy),
            energy: crate::pet::clamp100(p.energy - 5),
            ..p
        },
        xp,
    )
}

/// Earning less than an amount that fits also fits; stats do not matter.
proof fn lemma_xp_ok_less(p: Pet, q: Pet, n: u32, m: u32)
    requires
        crate::pet::xp_ok(p, m),
        n <= m,
        q.xp == p.xp,
        q.level == p.level,
    ensures
        crate::pet::xp_ok(q, n),
{
    crate::pet::lemma_settle_mono(p.level as nat, (p.xp + n) as nat, (p.xp + m) as nat);
}

/// A question interrupts any screen, and answering it brings the user back:
/// from a screen other than the assistant, with nothing waiting, a question
/// that arrives takes over the assistant screen and goes up; once it is
/// answered (by an option or typed text, the same way), the next step of
/// the assistant screen returns to the screen the user was on.
pub proof fn law_question_interrupts_and_returns(
    s0: App,
    m: MsgV,
    s1: App,
    s2: App,
    answer: Seq<char>,
    s3: App,
    s4: App,
)
    requires
        s0.screen != Screen::Assistant,
        s0.inbox@.queue.len() == 0,
        s0.inbox@.current is None,
        m is Ask,
        handled(s0, m, s1),
        promoted_app(s1, s2),
        answered(s2, answer, s3),
        promoted_app(s3, s4),
    ensures
        s1.screen == Screen::Assistant,
        crate::inbox::shown(s2.inbox@) == Some(m),
        s3.effects.answers@.last().id@ == m->Ask_id,
        s3.effects.answers@.last().answer@ == answer,
        s4.screen == s0.screen,
{
    assert(s1.inbox@.queue =~= seq![m]);
    assert(say_expired(s1.inbox@, s1.now) == s1.inbox@);
    assert(s2.inbox@.queue =~= Seq::<MsgV>::empty());
    assert(s3.inbox@.queue =~= Seq::<MsgV>::empty());
    assert(say_expired(s3.inbox@, s3.now) == s3.inbox@);
}

/// The pet commands `wake` and `sleep` set the pet's sleep whatever it was:
/// after `wake` the pet is awake, after `sleep` it sleeps, and its needs,
/// mood and progress are untouched.
pub proof fn law_wake_and_sleep_commands(s0: App, a: Seq<char>, s1: App)
    requires
        a == "wake"@ || a == "sleep"@,
        handled(s0, MsgV::Action(a), s1),
    ensures
        a == "wake"@ ==> !s1.pet.sleeping,
        a == "sleep"@ ==> s1.pet.sleeping,
        s1.pet.hunger == s0.pet.hunger,
        s1.pet.happiness == s0.pet.happiness,
        s1.pet.energy == s0.pet.energy,
        s1.pet.hygiene == s0.pet.hygiene,
        s1.pet.xp == s0.pet.xp,
        s1.pet.level == s0.pet.level,
        s1.pet.zen == s0.pet.zen,
{
    reveal_strlit("wake");
    reveal_strlit("sleep");
    assert("wake"@ != "sleep"@) by {
        assert("wake"@.len() == 4);
        assert("sleep"@.len() == 5);
    }
}

/// A question from outside jumps the queue: once it is handled it is the
/// first message waiting, the messages that were waiting follow it in their
/// order, and the one on show stays up.
pub proof fn law_ask_jumps_queue(s0: App, m: MsgV, s1: App)
    requires
        m is Ask,
        handled(s0, m, s1),
    ensures
        s1.inbox@.queue.len() == s0.inbox@.queue.len() + 1,
        s1.inbox@.queue[0] == m,
        s1.inbox@.queue.drop_first() == s0.inbox@.queue,
        s1.inbox@.current == s0.inbox@.current,
        s1.screen == Screen::Assistant,
{
    assert(s1.inbox@.queue.drop_first() =~= s0.inbox@.queue);
}

/// With nothing on show, a question that arrives is the next message shown,
/// ahead of every message that was already waiting.
pub proof fn law_ask_shown_next(s0: App, m: MsgV, s1: App, s2: App)
    requires
        m is Ask,
        s0.inbox@.current is None,
        handled(s0, m, s1),
        promoted_app(s1, s2),
    ensures
        crate::inbox::shown(s2.inbox@) == Some(m),
        s2.inbox@.queue == s0.inbox@.queue,
{
    assert(say_expired(s1.inbox@, s1.now) == s1.inbox@);
    assert(s1.inbox@.queue.drop_first() =~= s0.inbox@.queue);
}

/// Losing the game pleases the pet most: a loss leaves it at least as happy
/// as a draw or a win would.
pub proof fn law_losing_pleases_most(p: Pet)
    ensures
        game_result(p, crate::game::GameOutcome::Loss).happiness >= game_result(
            p,
            crate::game::GameOutcome::Win,
        ).happiness,
        game_result(p, crate::game::GameOutcome::Loss).happiness >= game_result(
            p,
            crate::game::GameOutcome::Draw,
        ).happiness,
{
}

/// `a + b`, or the largest `u64` when that does not fit.
pub open spec fn sat_add(a: u64, b: u64) -> u64 {
    if a + b <= u64::MAX {
        (a + b) as u64
    } else {
        u64::MAX
    }
}

/// The screen after something arrives that opens `s` when the user is on
/// the home screen.
pub open spec fn from_home(screen: Screen, s: Screen) -> Screen {
    if screen == Screen::Home {
        s
    } else {
        screen
    }
}

/// The color of a message of kind `k`.
pub open spec fn kind_color_of(k: Kind) -> Color {
    match k {
        Kind::Info => Color::Cyan,
        Kind::Success => Color::Green,
        Kind::Warn => Color::Yellow,
        Kind::Error => Color::Red,
    }
}

/// The log row of a spoken message: the time, the sender (or "?"), the
/// text in the kind's color.
pub open spec fn say_entry(lang: crate::i18n::Lang, time: Seq<char>, from: Seq<char>, text: Seq<char>, kind: Kind) -> Seq<
    (Seq<char>, Option<Color>, Option<Color>),
> {
    let sender = if from.len() == 0 {
        table(lang).unknown_sender@
    } else {
        from
    };
    seq![
        (time + seq![' '], Some(Color::DarkGrey), None),
        (sender + seq![':', ' '], Some(Color::DarkGrey), None),
        (text, Some(kind_color_of(kind)), None),
    ]
}

/// What one message from outside does to the app (see `App::handle_msg`).
pub open spec fn handled(s0: App, m: MsgV, s1: App) -> bool {
    match m {
        MsgV::Say { text, from, kind } => {
            &&& log_views(s1.log@) == logged(
                log_views(s0.log@),
                seq![say_entry(s0.lang, s0.time@, from, text, kind)],
            )
            &&& s1.inbox@ == crate::inbox::InboxV {
                queue: s0.inbox@.queue.push(m),
                current: s0.inbox@.current,
            }
            &&& s1 == App {
                inbox: s1.inbox,
                log: s1.log,
                screen: from_home(s0.screen, Screen::Assistant),
                ..s0
            }
        },
        MsgV::Ask { .. } => {
            &&& s1.inbox@ == crate::inbox::InboxV {
                queue: seq![m] + s0.inbox@.queue,
                current: s0.inbox@.current,
            }
            &&& s1 == App {
                inbox: s1.inbox,
                effects: Effects { bell: true, ..s0.effects },
                screen: Screen::Assistant,
                prev_screen: if s0.screen == Screen::Assistant {
                    s0.prev_screen
                } else {
                    s0.screen
                },
                ..s0
            }
        },
        MsgV::Action(a) => if a == "sleep"@ || a == "wake"@ {
            &&& log_views(s1.log@) == logged(
                log_views(s0.log@),
                seq![
                    entry_view(
                        s0.time@,
                        filled1(
                            if a == "sleep"@ {
                                table(s0.lang).msg_sleep@
                            } else {
                                table(s0.lang).msg_wake@
                            },
                            "name"@,
                            s0.pet.name@,
                        ),
                        None,
                    ),
                ],
            )
            &&& s1 == App { pet: Pet { sleeping: a == "sleep"@, ..s0.pet }, log: s1.log, ..s0 }
        } else if a == "feed"@ && crate::pet::xp_ok(s0.pet, 5) {
            &&& log_views(s1.log@) == logged(
                log_views(s0.log@),
                seq![
                    entry_view(
                        s0.time@,
                        filled1(table(s0.lang).msg_action_fed@, "name"@, s0.pet.name@),
                        Some((plus_view(15, table(s0.lang).stat_labels[0]@), Color::Green)),
                    ),
                ],
            )
            &&& s1 == App {
                pet: crate::pet::earned(crate::pet::fed(s0.pet, crate::pet::food_at(0)), 5),
                log: s1.log,
                effects: Effects { save: true, ..s0.effects },
                ..s0
            }
        } else if a == "celebrate"@ && crate::pet::xp_ok(s0.pet, 10) {
            &&& s1.inbox@ == crate::inbox::InboxV {
                queue: s0.inbox@.queue.push(
                    MsgV::Say {
                        text: crate::i18n::fill_text(
                            table(s0.lang).msg_celebrate@,
                            seq![("name"@, s0.pet.name@)],
                        ),
                        from: Seq::empty(),
                        kind: Kind::Success,
                    },
                ),
                current: s0.inbox@.current,
            }
            &&& s1 == App {
                pet: crate::pet::earned(
                    Pet { happiness: crate::pet::clamp100(s0.pet.happiness + 15), ..s0.pet },
                    10,
                ),
                inbox: s1.inbox,
                screen: from_home(s0.screen, Screen::Assistant),
                effects: Effects { save: true, ..s0.effects },
                ..s0
            }
        } else {
            s1 == s0
        },
        MsgV::Progress { from, pct } => {
            &&& log_views(s1.log@) == if pct >= 100 {
                logged(
                    log_views(s0.log@),
                    seq![
                        entry_view(
                            s0.time@,
                            filled1(
                                table(s0.lang).msg_progress_done@,
                                "from"@,
                                if from.len() == 0 {
                                    table(s0.lang).progress_fallback@
                                } else {
                                    from
                                },
                            ),
                            Some(("(100%)"@, Color::Green)),
                        ),
                    ],
                )
            } else {
                log_views(s0.log@)
            }
            &&& crate::messages::progress_views(s1.progress@) == crate::messages::progressed(
                crate::messages::progress_views(s0.progress@),
                from,
                pct,
            )
            &&& s1 == App { progress: s1.progress, log: s1.log, ..s0 }
        },
        MsgV::Reminder { text, at } => {
            &&& crate::messages::reminder_views(s1.reminders@) == crate::messages::reminder_views(
                s0.reminders@,
            ).push((text, at))
            &&& s1 == App { reminders: s1.reminders, schedule_dirty: true, ..s0 }
        },
        MsgV::Timer { until } => s1 == App {
            timer_until: Some(until),
            schedule_dirty: true,
            ..s0
        },
        MsgV::Pomodoro { work, rest } => {
            &&& s1.screen == from_home(s0.screen, Screen::Pomo(0))
            &&& started(s0, work, rest, App { screen: s0.screen, ..s1 })
        },
        MsgV::PomodoroOff => stopped(s0, s1),
    }
}

impl App {
    /// Queues something for the pet to say; on the home screen it switches
    /// to the assistant to show it.
    pub fn announce(&mut self, text: String, from: String, kind: Kind)
        ensures
            final(self).inbox@.queue == old(self).inbox@.queue.push(
                MsgV::Say { text: text@, from: from@, kind },
            ),
            final(self).inbox@.current == old(self).inbox@.current,
            *final(self) == (App {
                inbox: final(self).inbox,
                screen: from_home(old(self).screen, Screen::Assistant),
                ..*old(self)
            }),
    {
        let ghost q = self.inbox@.queue;
        self.inbox.queue.push_back(Msg::Say { text, from, kind });
        assert(self.inbox@.queue =~= q.push(MsgV::Say { text: text@, from: from@, kind }));
        if self.screen == Screen::Home {
            self.screen = Screen::Assistant;
        }
    }

    /// Starts a pomodoro: focus first, cycle 1; the pet wakes up.
    pub fn start_pomo(&mut self, work: u64, rest: u64)
        ensures
            started(*old(self), work, rest, *final(self)),
    {
        let until = self.now.saturating_add(work);
        self.pomo = Some(Pomo { work, rest, focus: true, until, cycles: 1 });
        self.schedule_dirty = true;
        self.pet.sleeping = false;
        self.log_at(t(self.lang).msg_pomo_start.to_owned(), None);
    }

    /// Stops the running pomodoro, if any; the pet wakes up.
    pub fn stop_pomo(&mut self)
        ensures
            stopped(*old(self), *final(self)),
    {
        if self.pomo.is_some() {
            self.pomo = None;
            self.schedule_dirty = true;
            self.pet.sleeping = false;
            self.log_at(t(self.lang).msg_pomo_stopped.to_owned(), None);
        }
    }

    /// Applies one message from outside. Speech is logged, queued, and
    /// opens the assistant from the home screen; a question jumps the
    /// queue, rings the bell and interrupts ANY screen (remembering which);
    /// pet commands act on the pet; progress, reminders, the timer and the
    /// pomodoro update their state.
    pub fn handle_msg(&mut self, msg: Msg)
        ensures
            handled(*old(self), msg@, *final(self)),
    {
        match msg {
            Msg::Say { text, from, kind } => self.handle_say(text, from, kind),
            Msg::Ask { text, options, id, from, expires, input } => {
                self.handle_ask(Msg::Ask { text, options, id, from, expires, input })
            },
            Msg::Action(a) => self.handle_action(a),
            Msg::Progress { from, pct } => {
                if update_progress(&mut self.progress, from.as_str(), pct) {
                    let text = crate::i18n::msg_progress_done(self.lang, from.as_str());
                    self.log_at(text, Some(("(100%)".to_owned(), Color::Green)));
                }
            },
            Msg::Reminder { text, at } => {
                let ghost r = crate::messages::reminder_views(self.reminders@);
                self.reminders.push((text, at));
                assert(crate::messages::reminder_views(self.reminders@) =~= r.push((text@, at)));
                self.schedule_dirty = true;
            },
            Msg::Timer { until } => {
                self.timer_until = Some(until);
                self.schedule_dirty = true;
            },
            Msg::Pomodoro { work, rest } => {
                self.start_pomo(work, rest);
                if self.screen == Screen::Home {
                    self.screen = Screen::Pomo(0);
                }
            },
            Msg::PomodoroOff => self.stop_pomo(),
        }
    }

    /// Speech: logged under its sender (or "?"), queued, and shown from the
    /// home screen.
    fn handle_say(&mut self, text: String, from: String, kind: Kind)
        ensures
            handled(*old(self), MsgV::Say { text: text@, from: from@, kind }, *final(self)),
    {
        let ghost m0 = MsgV::Say { text: text@, from: from@, kind };
        let strings = t(self.lang);
        let sender: &str = if from.as_str().is_empty() {
            strings.unknown_sender
        } else {
            from.as_str()
        };
        let mut who = chars_of(sender);
        push_str(&mut who, ": ");
        proof {
            reveal_strlit(": ");
            assert(sender@ == if from@.len() == 0 {
                table(self.lang).unknown_sender@
            } else {
                from@
            });
            assert(who@ =~= sender@ + seq![':', ' ']);
        }
        let a = spaced(self.time.as_str());
        let b = string_of(who.as_slice());
        let c = text.as_str().to_owned();
        let color = crate::line::kind_color(kind);
        let line = vec![
            seg(a, Some(Color::DarkGrey)),
            seg(b, Some(Color::DarkGrey)),
            seg(c, Some(color)),
        ];
        let ghost l0 = log_views(self.log@);
        proof {
            assert(line_view(line) =~= say_entry(self.lang, self.time@, from@, text@, kind));
            lemma_logged_one(l0, line_view(line));
        }
        self.log_line(line);
        let ghost q = self.inbox@.queue;
        let m = Msg::Say { text, from, kind };
        assert(m@ == m0);
        self.inbox.queue.push_back(m);
        assert(self.inbox@.queue =~= q.push(m0));
        if self.screen == Screen::Home {
            self.screen = Screen::Assistant;
        }
    }

    /// A question: to the front of the queue, the bell, and the assistant
    /// screen whatever screen was up (remembered to go back to).
    fn handle_ask(&mut self, m: Msg)
        requires
            m is Ask,
        ensures
            handled(*old(self), m@, *final(self)),
    {
        let ghost q = self.inbox@.queue;
        let ghost m0 = m@;
        self.inbox.queue.push_front(m);
        assert(self.inbox@.queue =~= seq![m0] + q);
        self.effects.bell = true;
        if self.screen != Screen::Assistant {
            self.prev_screen = self.screen;
            self.screen = Screen::Assistant;
        }
    }

    /// A pet command: sleep, wake, feed, celebrate; anything else is ignored.
    fn handle_action(&mut self, a: String)
        ensures
            handled(*old(self), MsgV::Action(a@), *final(self)),
    {
        proof {
            reveal_strlit("celebrate");
            reveal_strlit("sleep");
            reveal_strlit("wake");
            reveal_strlit("feed");
            assert("celebrate"@.len() == 9);
            assert("sleep"@.len() == 5);
            assert("wake"@[0] != "feed"@[0]);
            assert("wake"@[0] != "sleep"@[0]);
        }
        if crate::cli::str_eq(a.as_str(), "celebrate") {
            if self.pet.can_earn(10) {
                self.pet.happiness = adj(self.pet.happiness, 15);
                proof {
                    lemma_xp_ok_less(old(self).pet, self.pet, 10, 10);
                }
                self.pet.gain_xp(10);
                let text = crate::i18n::msg_celebrate(self.lang, self.pet.name.as_str());
                self.announce(text, String::new(), Kind::Success);
                self.effects.save = true;
            }
        } else if crate::cli::str_eq(a.as_str(), "sleep") {
            self.pet.sleeping = true;
            let text = crate::i18n::msg_sleep(self.lang, self.pet.name.as_str(), true);
            self.log_at(text, None);
        } else if crate::cli::str_eq(a.as_str(), "wake") {
            self.pet.sleeping = false;
            let text = crate::i18n::msg_sleep(self.lang, self.pet.name.as_str(), false);
            self.log_at(text, None);
        } else if crate::cli::str_eq(a.as_str(), "feed") {
            if self.pet.can_earn(5) {
                let f = food(0);
                self.pet.eat(&f);
                let text = crate::i18n::msg_action_fed(self.lang, self.pet.name.as_str());
                let suffix = plus_text(15, t(self.lang).stat_labels[0]);
                self.log_at(text, Some((suffix, Color::Green)));
                self.effects.save = true;
            }
        }
    }

    /// Applies every message one line from outside carries, in order: there
    /// is a trail of states from the old app to the new one, each step one
    /// message handled.
    pub fn receive(&mut self, line: &str)
        ensures
            final(self).now == old(self).now,
            exists|trail: Seq<App>|
                #![trigger trail.len()]
                {
                    let ms = crate::assistant::msgs_of(old(self).lang, line@, old(self).now);
                    &&& trail.len() == ms.len() + 1
                    &&& trail[0] == *old(self)
                    &&& trail.last() == *final(self)
                    &&& forall|i: int|
                        0 <= i < ms.len() ==> handled(#[trigger] trail[i], ms[i], trail[i + 1])
                },
    {
        let mut ms = parse_msgs(self.lang, line, self.now);
        let ghost all = crate::assistant::msgs_of(self.lang, line@, self.now);
        let ghost mut trail: Seq<App> = seq![*self];
        let ghost mut k: int = 0;
        while ms.len() > 0
            invariant
                self.now == old(self).now,
                0 <= k <= all.len(),
                all == crate::assistant::msgs_of(self.lang, line@, old(self).now),
                msg_views(ms@) == all.skip(k),
                trail.len() == k + 1,
                trail[0] == *old(self),
                trail.last() == *self,
                forall|i: int| 0 <= i < k ==> handled(#[trigger] trail[i], all[i], trail[i + 1]),
            decreases ms.len(),
        {
            let ghost before = msg_views(ms@);
            assert(before.len() == ms@.len());
            assert(k < all.len());
            let m = ms.remove(0);
            proof {
                assert(before[0] == m@);
                assert(all.skip(k)[0] == all[k]);
                assert(msg_views(ms@) =~= before.drop_first());
                assert(all.skip(k).drop_first() =~= all.skip(k + 1));
            }
            let ghost prev = trail;
            self.handle_msg(m);
            proof {
                trail = prev.push(*self);
                assert forall|i: int| 0 <= i < k + 1 implies handled(
                    #[trigger] trail[i],
                    all[i],
                    trail[i + 1],
                ) by {
                    if i < k {
                        assert(trail[i] == prev[i]);
                        assert(trail[i + 1] == prev[i + 1]);
                    }
                }
                k = k + 1;
            }
        }
        proof {
            assert(all.skip(k).len() == 0);
            assert(trail.len() == all.len() + 1);
        }
    }
}

/// The pomodoro's phase can flip at `now` without overflowing.
fn tick_fits_exec(p: &Pomo, now: u64) -> (r: bool)
    ensures
        r == crate::pomo::tick_fits(*p, now),
{
    if p.until > now {
        true
    } else if p.focus {
        now <= u64::MAX - p.rest
    } else {
        now <= u64::MAX - p.work && p.cycles < u32::MAX
    }
}

/// What a due reminder announces.
pub open spec fn reminder_say(lang: crate::i18n::Lang, t: Seq<char>) -> MsgV {
    MsgV::Say {
        text: crate::i18n::fill_text(table(lang).msg_reminder@, seq![("text"@, t)]),
        from: Seq::empty(),
        kind: Kind::Warn,
    }
}

pub open spec fn reminder_says(lang: crate::i18n::Lang, ts: Seq<Seq<char>>) -> Seq<MsgV> {
    ts.map_values(|t: Seq<char>| reminder_say(lang, t))
}

/// The plain timer has run out.
pub open spec fn timer_fires(a: App) -> bool {
    a.timer_until matches Some(u) && u <= a.now
}

pub open spec fn timer_says(a: App) -> Seq<MsgV> {
    if timer_fires(a) {
        seq![MsgV::Say { text: table(a.lang).msg_timer_done@, from: Seq::empty(), kind: Kind::Warn }]
    } else {
        Seq::empty()
    }
}

/// The pomodoro's phase has ended and flips now.
pub open spec fn pomo_flips(a: App) -> bool {
    a.pomo matches Some(p) && p.until <= a.now && crate::pomo::tick_fits(p, a.now)
}

/// The pomodoro after its phase flips at `now`: the other phase, lasting
/// its own length from now; entering focus starts the next cycle.
pub open spec fn flipped(p: Pomo, now: u64) -> Pomo {
    let focus = !p.focus;
    Pomo {
        focus,
        until: (now + if focus {
            p.work
        } else {
            p.rest
        }) as u64,
        cycles: (p.cycles + if focus {
            1int
        } else {
            0int
        }) as u32,
        ..p
    }
}

/// The flip is announced, unless the pomodoro screen is up (it is logged
/// there).
pub open spec fn pomo_says(a: App) -> Seq<MsgV> {
    if pomo_flips(a) && !(a.screen is Pomo) {
        let focus = !a.pomo->Some_0.focus;
        seq![
            MsgV::Say {
                text: if focus {
                    table(a.lang).msg_pomo_focus@
                } else {
                    table(a.lang).msg_pomo_break@
                },
                from: table(a.lang).pomo_from@,
                kind: if focus {
                    Kind::Success
                } else {
                    Kind::Warn
                },
            },
        ]
    } else {
        Seq::empty()
    }
}

/// The pomodoro's flip is logged when its screen is up (elsewhere it is
/// announced instead).
pub open spec fn pomo_log(a: App) -> Seq<Seq<(Seq<char>, Option<Color>, Option<Color>)>> {
    if pomo_flips(a) && a.screen is Pomo {
        logged(
            log_views(a.log@),
            seq![
                entry_view(
                    a.time@,
                    if !a.pomo->Some_0.focus {
                        table(a.lang).msg_pomo_focus@
                    } else {
                        table(a.lang).msg_pomo_break@
                    },
                    None,
                ),
            ],
        )
    } else {
        log_views(a.log@)
    }
}

/// Everything that comes due announces itself, in this order: the due
/// reminders, the timer, the pomodoro's flip.
pub open spec fn due_says(a: App) -> Seq<MsgV> {
    reminder_says(a.lang, 
        crate::messages::due_texts(crate::messages::reminder_views(a.reminders@), a.now),
    ) + timer_says(a) + pomo_says(a)
}

/// One pass of what comes due (see `App::fire_due`).
pub open spec fn fired_due(s0: App, s1: App) -> bool {
    let due = crate::messages::due_texts(crate::messages::reminder_views(s0.reminders@), s0.now);
    let pomo = if pomo_flips(s0) {
        Some(flipped(s0.pomo->Some_0, s0.now))
    } else {
        s0.pomo
    };
    let says = due_says(s0);
    &&& crate::messages::reminder_views(s1.reminders@) == crate::messages::ahead(
        crate::messages::reminder_views(s0.reminders@),
        s0.now,
    )
    &&& s1.timer_until == if timer_fires(s0) {
        None
    } else {
        s0.timer_until
    }
    &&& s1.pomo == pomo
    &&& s1.pet == Pet {
        sleeping: if pomo matches Some(q) && !q.focus {
            true
        } else if pomo_flips(s0) {
            false
        } else {
            s0.pet.sleeping
        },
        ..s0.pet
    }
    &&& s1.schedule_dirty == (s0.schedule_dirty || due.len() > 0 || timer_fires(s0) || pomo_flips(
        s0,
    ))
    &&& log_views(s1.log@) == pomo_log(s0)
    &&& s1.inbox@ == crate::inbox::InboxV { queue: s0.inbox@.queue + says, current: s0.inbox@.current }
    &&& s1.screen == if says.len() > 0 {
        from_home(s0.screen, Screen::Assistant)
    } else {
        s0.screen
    }
    &&& s1 == App {
        reminders: s1.reminders,
        timer_until: s1.timer_until,
        pomo: s1.pomo,
        pet: s1.pet,
        schedule_dirty: s1.schedule_dirty,
        inbox: s1.inbox,
        screen: s1.screen,
        log: s1.log,
        ..s0
    }
}

impl App {
    /// Reminders, the timer and the pomodoro clock: what is due fires.
    /// Due reminders leave the list and are announced; an expired timer is
    /// cleared and announced; a finished pomodoro phase flips (announced, or
    /// logged when its screen is up). During a break the pet naps.
    pub fn fire_due(&mut self)
        ensures
            fired_due(*old(self), *final(self)),
    {
        let ghost s0 = *self;
        self.fire_reminders();
        let ghost s1 = *self;
        self.fire_timer();
        let ghost s2 = *self;
        proof {
            assert(timer_says(s1) == timer_says(s0));
        }
        self.fire_pomo();
        proof {
            assert(pomo_says(s2) == pomo_says(s0));
            assert(pomo_flips(s2) == pomo_flips(s0));
            assert(self.inbox@.queue =~= s0.inbox@.queue + due_says(s0));
        }
    }

    /// Due reminders leave the list and are announced, in order.
    fn fire_reminders(&mut self)
        ensures
            ({
                let due = crate::messages::due_texts(
                    crate::messages::reminder_views(old(self).reminders@),
                    old(self).now,
                );
                &&& crate::messages::reminder_views(final(self).reminders@) == crate::messages::ahead(
                    crate::messages::reminder_views(old(self).reminders@),
                    old(self).now,
                )
                &&& final(self).schedule_dirty == (old(self).schedule_dirty || due.len() > 0)
                &&& final(self).inbox@ == (crate::inbox::InboxV {
                    queue: old(self).inbox@.queue + reminder_says(old(self).lang, due),
                    current: old(self).inbox@.current,
                })
                &&& final(self).screen == if due.len() > 0 {
                    from_home(old(self).screen, Screen::Assistant)
                } else {
                    old(self).screen
                }
                &&& *final(self) == (App {
                    reminders: final(self).reminders,
                    schedule_dirty: final(self).schedule_dirty,
                    inbox: final(self).inbox,
                    screen: final(self).screen,
                    ..*old(self)
                })
            }),
    {
        let now = self.now;
        let ghost s0 = *self;
        let fired = due_reminders(&mut self.reminders, now);
        if fired.len() > 0 {
            self.schedule_dirty = true;
        }
        let ghost texts = crate::assistant::string_views(fired@);
        proof {
            assert(reminder_says(self.lang, texts.take(0)) =~= Seq::<MsgV>::empty());
            assert(s0.inbox@.queue + Seq::<MsgV>::empty() =~= s0.inbox@.queue);
        }
        let mut i: usize = 0;
        while i < fired.len()
            invariant
                i <= fired.len(),
                texts == crate::assistant::string_views(fired@),
                now == s0.now,
                crate::messages::reminder_views(self.reminders@) == crate::messages::ahead(
                    crate::messages::reminder_views(s0.reminders@),
                    now,
                ),
                texts == crate::messages::due_texts(crate::messages::reminder_views(s0.reminders@), now),
                self.schedule_dirty == (s0.schedule_dirty || fired.len() > 0),
                self.inbox@.queue == s0.inbox@.queue + reminder_says(self.lang, texts.take(i as int)),
                self.inbox@.current == s0.inbox@.current,
                self.screen == if i == 0 {
                    s0.screen
                } else {
                    from_home(s0.screen, Screen::Assistant)
                },
                *self == (App {
                    reminders: self.reminders,
                    schedule_dirty: self.schedule_dirty,
                    inbox: self.inbox,
                    screen: self.screen,
                    ..s0
                }),
            decreases fired.len() - i,
        {
            let text = crate::i18n::msg_reminder(self.lang, fired[i].as_str());
            self.announce(text, String::new(), Kind::Warn);
            proof {
                assert(texts[i as int] == fired@[i as int]@);
                assert(reminder_says(self.lang, texts.take(i + 1)) =~= reminder_says(self.lang, texts.take(i as int)).push(
                    reminder_say(self.lang, texts[i as int]),
                ));
                assert(self.inbox@.queue =~= s0.inbox@.queue + reminder_says(self.lang, texts.take(i + 1)));
            }
            i = i + 1;
        }
        proof {
            assert(texts.take(fired.len() as int) =~= texts);
        }
    }

    /// The plain timer, once run out, is cleared and announced.
    fn fire_timer(&mut self)
        ensures
            final(self).timer_until == if timer_fires(*old(self)) {
                None
            } else {
                old(self).timer_until
            },
            final(self).schedule_dirty == (old(self).schedule_dirty || timer_fires(*old(self))),
            final(self).inbox@ == (crate::inbox::InboxV {
                queue: old(self).inbox@.queue + timer_says(*old(self)),
                current: old(self).inbox@.current,
            }),
            final(self).screen == if timer_fires(*old(self)) {
                from_home(old(self).screen, Screen::Assistant)
            } else {
                old(self).screen
            },
            *final(self) == (App {
                timer_until: final(self).timer_until,
                schedule_dirty: final(self).schedule_dirty,
                inbox: final(self).inbox,
                screen: final(self).screen,
                ..*old(self)
            }),
    {
        let ghost q = self.inbox@.queue;
        if let Some(u) = self.timer_until {
            if u <= self.now {
                self.timer_until = None;
                self.schedule_dirty = true;
                self.announce(t(self.lang).msg_timer_done.to_owned(), String::new(), Kind::Warn);
            }
        }
        assert(self.inbox@.queue =~= q + timer_says(*old(self)));
    }

    /// The pomodoro's phase, once ended, flips: announced, or logged when
    /// its screen is up. During a break the pet naps.
    fn fire_pomo(&mut self)
        ensures
            ({
                let pomo = if pomo_flips(*old(self)) {
                    Some(flipped(old(self).pomo->Some_0, old(self).now))
                } else {
                    old(self).pomo
                };
                &&& final(self).pomo == pomo
                &&& final(self).pet == (Pet {
                    sleeping: if pomo matches Some(q) && !q.focus {
                        true
                    } else if pomo_flips(*old(self)) {
                        false
                    } else {
                        old(self).pet.sleeping
                    },
                    ..old(self).pet
                })
                &&& final(self).schedule_dirty == (old(self).schedule_dirty || pomo_flips(*old(self)))
                &&& final(self).inbox@ == (crate::inbox::InboxV {
                    queue: old(self).inbox@.queue + pomo_says(*old(self)),
                    current: old(self).inbox@.current,
                })
                &&& final(self).screen == if pomo_says(*old(self)).len() > 0 {
                    from_home(old(self).screen, Screen::Assistant)
                } else {
                    old(self).screen
                }
                &&& log_views(final(self).log@) == pomo_log(*old(self))
                &&& *final(self) == (App {
                    pomo: final(self).pomo,
                    pet: final(self).pet,
                    schedule_dirty: final(self).schedule_dirty,
                    inbox: final(self).inbox,
                    screen: final(self).screen,
                    log: final(self).log,
                    ..*old(self)
                })
            }),
    {
        let now = self.now;
        let ghost q = self.inbox@.queue;
        if let Some(mut p) = self.pomo {
            if tick_fits_exec(&p, now) {
                if let Some(focus) = pomo_tick(&mut p, now) {
                    self.pomo = Some(p);
                    self.schedule_dirty = true;
                    self.pet.sleeping = !focus;
                    let strings = t(self.lang);
                    let text = if focus {
                        strings.msg_pomo_focus
                    } else {
                        strings.msg_pomo_break
                    };
                    if let Screen::Pomo(_) = self.screen {
                        self.log_at(text.to_owned(), None);
                    } else {
                        let kind = if focus {
                            Kind::Success
                        } else {
                            Kind::Warn
                        };
                        self.announce(text.to_owned(), strings.pomo_from.to_owned(), kind);
                    }
                }
            }
        }
        assert(self.inbox@.queue =~= q + pomo_says(*old(self)));
        if let Some(p) = self.pomo {
            if !p.focus {
                self.pet.sleeping = true;
            }
        }
    }

    /// Expired questions vanish everywhere, even while another screen is
    /// up; each one is logged under its sender (or "?").
    pub fn purge_expired(&mut self)
        ensures
            final(self).inbox@ == (crate::inbox::InboxV {
                queue: crate::inbox::alive(old(self).inbox@.queue, old(self).now),
                current: if crate::inbox::shown_expired(old(self).inbox@, old(self).now) {
                    None
                } else {
                    old(self).inbox@.current
                },
            }),
            log_views(final(self).log@) == logged(
                log_views(old(self).log@),
                expired_entries(old(self).lang, 
                    old(self).time@,
                    (if crate::inbox::shown_expired(old(self).inbox@, old(self).now) {
                        seq![crate::inbox::shown(old(self).inbox@)->Some_0->Ask_from]
                    } else {
                        Seq::empty()
                    }) + crate::inbox::expired_senders(old(self).inbox@.queue, old(self).now),
                ),
            ),
            *final(self) == (App { inbox: final(self).inbox, log: final(self).log, ..*old(self) }),
    {
        let now = self.now;
        let ghost l0 = log_views(self.log@);
        let froms = self.inbox.purge_expired(now);
        let ghost purged = self.inbox;
        let ghost fv = crate::assistant::string_views(froms@);
        proof {
            assert(expired_entries(self.lang, self.time@, fv.take(0)) =~= Seq::<
                Seq<(Seq<char>, Option<Color>, Option<Color>)>,
            >::empty());
            assert(logged(l0, Seq::empty()) == l0);
        }
        let mut i: usize = 0;
        while i < froms.len()
            invariant
                i <= froms.len(),
                self.now == now,
                now == old(self).now,
                *self == (App { inbox: purged, log: self.log, ..*old(self) }),
                fv == crate::assistant::string_views(froms@),
                log_views(self.log@) == logged(l0, expired_entries(self.lang, old(self).time@, fv.take(i as int))),
            decreases froms.len() - i,
        {
            let strings = t(self.lang);
            let sender: &str = if froms[i].as_str().is_empty() {
                strings.unknown_sender
            } else {
                froms[i].as_str()
            };
            let text = crate::i18n::msg_ask_expired(self.lang, sender);
            proof {
                assert(fv[i as int] == froms@[i as int]@);
                assert(expired_entries(self.lang, old(self).time@, fv.take(i + 1)) =~= expired_entries(self.lang, 
                    old(self).time@,
                    fv.take(i as int),
                ).push(expired_entry(self.lang, old(self).time@, fv[i as int])));
                lemma_logged_push(
                    l0,
                    expired_entries(self.lang, old(self).time@, fv.take(i as int)),
                    expired_entry(self.lang, old(self).time@, fv[i as int]),
                );
            }
            self.log_at(text, None);
            i = i + 1;
        }
        proof {
            assert(fv.take(froms.len() as int) =~= fv);
        }
    }

    /// On the assistant screen: a spoken message leaves after `SAY_SECS`,
    /// the next one goes up, a new question starts with a clean cursor (and
    /// opens the text field itself when it takes only typed answers); with
    /// nothing left, the screen goes back to where the user was.
    pub fn promote_assistant(&mut self)
        ensures
            promoted_app(*old(self), *final(self)),
    {
        if self.screen != Screen::Assistant {
            return;
        }
        let now = self.now;
        let expired_say = match &self.inbox.current {
            Some((Msg::Say { .. }, at)) => now >= *at && now - *at >= SAY_SECS,
            _ => false,
        };
        if expired_say {
            self.inbox.current = None;
        }
        proof {
            assert(self.inbox@ == say_expired(old(self).inbox@, now));
        }
        self.inbox.promote_at(now);
        let mut fresh: Option<(String, bool)> = None;
        let mut asking = false;
        match &self.inbox.current {
            Some((Msg::Ask { id, options, .. }, _)) => {
                asking = true;
                if !crate::cli::str_eq(id.as_str(), self.ask_id.as_str()) {
                    fresh = Some((id.as_str().to_owned(), options.len() == 0));
                }
            },
            _ => {},
        }
        match fresh {
            Some((id, text_only)) => {
                self.ask_id = id;
                self.ask_sel = 0;
                self.input = if text_only {
                    Some(String::new())
                } else {
                    None
                };
            },
            None => {
                if !asking {
                    self.ask_id = String::new();
                    self.input = None;
                }
            },
        }
        if self.inbox.is_empty() {
            self.screen = self.prev_screen;
            self.prev_screen = Screen::Home;
        }
    }
}

/// The log entry of a question that expired unanswered, under its sender
/// (or "?").
pub open spec fn expired_entry(lang: crate::i18n::Lang, time: Seq<char>, from: Seq<char>) -> Seq<
    (Seq<char>, Option<Color>, Option<Color>),
> {
    entry_view(
        time,
        filled1(
            table(lang).msg_ask_expired@,
            "from"@,
            if from.len() == 0 {
                table(lang).unknown_sender@
            } else {
                from
            },
        ),
        None,
    )
}

pub open spec fn expired_entries(lang: crate::i18n::Lang, time: Seq<char>, froms: Seq<Seq<char>>) -> Seq<
    Seq<(Seq<char>, Option<Color>, Option<Color>)>,
> {
    froms.map_values(|f: Seq<char>| expired_entry(lang, time, f))
}

/// The inbox after the next message goes up at `now`, when none is up.
pub open spec fn promoted(i: crate::inbox::InboxV, now: u64) -> crate::inbox::InboxV {
    if i.current is None && i.queue.len() > 0 {
        crate::inbox::InboxV { queue: i.queue.drop_first(), current: Some((i.queue[0], now)) }
    } else {
        i
    }
}

/// The inbox with a spoken message taken down once it has been up
/// `SAY_SECS`.
pub open spec fn say_expired(i: crate::inbox::InboxV, now: u64) -> crate::inbox::InboxV {
    match i.current {
        Some((MsgV::Say { .. }, at)) => if now >= at && now - at >= SAY_SECS {
            crate::inbox::InboxV { queue: i.queue, current: None }
        } else {
            i
        },
        _ => i,
    }
}

/// One step of the assistant screen (see `App::promote_assistant`).
pub open spec fn promoted_app(s0: App, s1: App) -> bool {
    if s0.screen != Screen::Assistant {
        s1 == s0
    } else {
        let i2 = promoted(say_expired(s0.inbox@, s0.now), s0.now);
        let empty = i2.queue.len() == 0 && i2.current is None;
        &&& s1.inbox@ == i2
        &&& match crate::inbox::shown(i2) {
            Some(MsgV::Ask { id, options, .. }) => if id != s0.ask_id@ {
                &&& s1.ask_id@ == id
                &&& s1.ask_sel == 0
                &&& if options.len() == 0 {
                    s1.input matches Some(b) && b@ == Seq::<char>::empty()
                } else {
                    s1.input is None
                }
            } else {
                s1.ask_id == s0.ask_id && s1.ask_sel == s0.ask_sel && s1.input == s0.input
            },
            _ => s1.ask_id@ == Seq::<char>::empty() && s1.input is None && s1.ask_sel == s0.ask_sel,
        }
        &&& s1.screen == (if empty {
            s0.prev_screen
        } else {
            s0.screen
        })
        &&& s1.prev_screen == (if empty {
            Screen::Home
        } else {
            s0.prev_screen
        })
        &&& s1 == App {
            inbox: s1.inbox,
            ask_id: s1.ask_id,
            ask_sel: s1.ask_sel,
            input: s1.input,
            screen: s1.screen,
            prev_screen: s1.prev_screen,
            ..s0
        }
    }
}

/// The warning a new mood raises (none for happy or sleeping), stamped
/// with the clock and in the mood's color.
pub open spec fn warning_entry(lang: crate::i18n::Lang, time: Seq<char>, mood: Mood, name: Seq<char>) -> Seq<
    (Seq<char>, Option<Color>, Option<Color>),
> {
    seq![
        (time + seq![' '], Some(Color::DarkGrey), None),
        (
            filled1(table(lang).msg_warnings[crate::i18n::mood_ix(mood)]@, "name"@, name),
            Some(crate::line::mood_color_of(mood)),
            None,
        ),
    ]
}

/// The log after a frame whose mood is `mood`: a change of mood to one
/// that warns is logged.
pub open spec fn mood_log(a: App, mood: Mood) -> Seq<Seq<(Seq<char>, Option<Color>, Option<Color>)>> {
    if mood != a.prev_mood && !(mood == Mood::Happy || mood == Mood::Sleeping) {
        logged(log_views(a.log@), seq![warning_entry(a.lang, a.time@, mood, a.pet.name@)])
    } else {
        log_views(a.log@)
    }
}

/// The pet decays on frame `t`: every 8th frame (2 s) while it sleeps,
/// every `DECAY_SECS` seconds (4 frames a second) otherwise.
pub open spec fn decay_due(t: int, sleeping: bool) -> bool {
    if sleeping {
        t % 8 == 0
    } else {
        t % (DECAY_SECS * 4) as int == 0
    }
}

impl App {
    /// The schedule to save, when it changed since the last save.
    pub fn flush_schedule(&mut self) -> (r: Option<Schedule>)
        ensures
            !old(self).schedule_dirty ==> r is None && *final(self) == *old(self),
            old(self).schedule_dirty ==> (r matches Some(s) && s@.timer == old(self).timer_until
                && crate::state::reminder_views(s.reminders@) == crate::messages::reminder_views(
                old(self).reminders@,
            ) && s.pomo == (match old(self).pomo {
                Some(p) => Some(crate::pomo::pomo_state(p)),
                None => None,
            }) && *final(self) == (App { schedule_dirty: false, ..*old(self) })),
    {
        if !self.schedule_dirty {
            return None;
        }
        let mut reminders: Vec<(String, u64)> = Vec::new();
        let mut i: usize = 0;
        while i < self.reminders.len()
            invariant
                i <= self.reminders.len(),
                crate::messages::reminder_views(reminders@) == crate::messages::reminder_views(
                    self.reminders@,
                ).take(i as int),
            decreases self.reminders.len() - i,
        {
            let ghost before = crate::messages::reminder_views(reminders@);
            reminders.push((self.reminders[i].0.as_str().to_owned(), self.reminders[i].1));
            assert(crate::messages::reminder_views(reminders@) =~= before.push(
                crate::messages::reminder_views(self.reminders@)[i as int],
            ));
            assert(crate::messages::reminder_views(self.reminders@).take(i + 1) =~= before.push(
                crate::messages::reminder_views(self.reminders@)[i as int],
            ));
            i = i + 1;
        }
        assert(crate::messages::reminder_views(self.reminders@).take(self.reminders.len() as int)
            =~= crate::messages::reminder_views(self.reminders@));
        let pomo = match &self.pomo {
            Some(p) => Some(p.saved()),
            None => None,
        };
        self.schedule_dirty = false;
        let s = Schedule { reminders, timer: self.timer_until, pomo };
        assert(crate::state::reminder_views(s.reminders@) =~= crate::messages::reminder_views(
            s.reminders@,
        ));
        Some(s)
    }

    /// One notification tracks "a question is waiting": `Some` when it must
    /// change, with the question to show or `None` to take it away.
    pub fn sync_notification(&mut self) -> (r: Option<Option<String>>)
        ensures
            (crate::inbox::pending_of(old(self).inbox@) is Some) == old(self).notified ==> r is None
                && *final(self) == *old(self),
            (crate::inbox::pending_of(old(self).inbox@) is Some) != old(self).notified ==> (r matches Some(
                p,
            ) && (match p {
                Some(text) => crate::inbox::pending_of(old(self).inbox@) == Some(text@),
                None => crate::inbox::pending_of(old(self).inbox@) is None,
            }) && *final(self) == (App {
                notified: crate::inbox::pending_of(old(self).inbox@) is Some,
                ..*old(self)
            })),
    {
        let pending = pending_ask(&self.inbox);
        if pending.is_some() != self.notified {
            self.notified = pending.is_some();
            Some(pending)
        } else {
            None
        }
    }

    /// What happens on a frame nobody pressed a key: the animation clock
    /// (every other frame), decay (every 2 s while sleeping, every
    /// `DECAY_SECS` otherwise) and the warning a new mood raises.
    pub fn tick(&mut self)
        requires
            old(self).ticks < u64::MAX,
            old(self).frame < usize::MAX,
        ensures
            final(self).ticks == old(self).ticks + 1,
            final(self).frame == old(self).frame + if final(self).ticks % 2 == 0 {
                1int
            } else {
                0int
            },
            final(self).pet == if decay_due(old(self).ticks + 1, old(self).pet.sleeping)
                && crate::pet::tick_ok(old(self).pet) {
                crate::pet::ticked(old(self).pet)
            } else {
                old(self).pet
            },
            final(self).prev_mood == crate::pet::mood_of(final(self).pet),
            log_views(final(self).log@) == mood_log(*old(self), crate::pet::mood_of(final(self).pet)),
            *final(self) == (App {
                ticks: final(self).ticks,
                frame: final(self).frame,
                pet: final(self).pet,
                prev_mood: final(self).prev_mood,
                log: final(self).log,
                ..*old(self)
            }),
    {
        self.ticks = self.ticks + 1;
        if self.ticks % 2 == 0 {
            self.frame = self.frame + 1;
        }
        let due = if self.pet.sleeping {
            self.ticks % 8 == 0
        } else {
            self.ticks % (DECAY_SECS * 4) == 0
        };
        if due && !(!self.pet.zen && self.pet.sleeping && self.pet.energy > 250) {
            self.pet.tick();
        }
        let mood = self.pet.mood();
        let ghost l0 = log_views(self.log@);
        if mood != self.prev_mood {
            match crate::i18n::msg_warning(self.lang, mood, self.pet.name.as_str()) {
                Some(w) => {
                    let a = spaced(self.time.as_str());
                    let c = mood_color(mood);
                    let line = vec![seg(a, Some(Color::DarkGrey)), seg(w, Some(c))];
                    proof {
                        assert(line_view(line) =~= warning_entry(self.lang, self.time@, mood, self.pet.name@));
                        lemma_logged_one(l0, line_view(line));
                    }
                    self.log_line(line);
                },
                None => {},
            }
            self.prev_mood = mood;
        }
    }

    /// Leaving for good: questions still waiting are answered "ignored" so
    /// no script hangs, and a notification still up is taken away.
    pub fn quit(&mut self)
        ensures
            quitted(*old(self), *final(self)),
    {
        let ghost s0 = *self;
        let ids = self.inbox.clear();
        self.push_ignored(ids);
        let ghost mid = *self;
        assert(crate::assistant::string_views(mid.effects.ignored@) =~= crate::assistant::string_views(
            s0.effects.ignored@,
        ) + (match crate::inbox::shown(s0.inbox@) {
            Some(MsgV::Ask { id, .. }) => seq![id],
            _ => Seq::empty(),
        }) + crate::inbox::ask_ids(s0.inbox@.queue));
        assert(mid.inbox@ == crate::inbox::InboxV { queue: Seq::empty(), current: None });
        if self.notified {
            self.effects.clear_notification = true;
        }
        assert(App {
            effects: Effects {
                clear_notification: s0.effects.clear_notification,
                ..self.effects
            },
            ..*self
        } == mid);
    }

    /// Asks dropped unanswered, to be answered "ignored".
    fn push_ignored(&mut self, ids: Vec<String>)
        ensures
            crate::assistant::string_views(final(self).effects.ignored@)
                == crate::assistant::string_views(old(self).effects.ignored@)
                + crate::assistant::string_views(ids@),
            *final(self) == (App {
                effects: Effects { ignored: final(self).effects.ignored, ..old(self).effects },
                ..*old(self)
            }),
    {
        let mut ids = ids;
        let ghost all = crate::assistant::string_views(ids@);
        let ghost start = crate::assistant::string_views(self.effects.ignored@);
        let ghost mut k: int = 0;
        while ids.len() > 0
            invariant
                0 <= k <= all.len(),
                crate::assistant::string_views(ids@) == all.skip(k),
                crate::assistant::string_views(self.effects.ignored@) == start + all.take(k),
                *self == (App {
                    effects: Effects { ignored: self.effects.ignored, ..old(self).effects },
                    ..*old(self)
                }),
            decreases ids.len(),
        {
            let ghost before = crate::assistant::string_views(ids@);
            let id = ids.remove(0);
            assert(id@ == before[0]);
            assert(before.len() > 0);
            assert(all.skip(k)[0] == all[k]);
            assert(before[0] == all[k]);
            let ghost iv = crate::assistant::string_views(self.effects.ignored@);
            self.effects.ignored.push(id);
            proof {
                assert(crate::assistant::string_views(ids@) =~= before.drop_first());
                assert(all.skip(k).drop_first() =~= all.skip(k + 1));
                assert(crate::assistant::string_views(self.effects.ignored@) =~= iv.push(all[k]));
                assert(all.take(k + 1) =~= all.take(k).push(all[k]));
                k = k + 1;
            }
        }
        assert(all.take(k) =~= all);
    }
}

/// A digit key `1`..=`9` as the index it picks (0-based).
pub open spec fn digit_pick(k: Key) -> Option<int> {
    match k {
        Key::Char(c) => if '1' <= c && c <= '9' {
            Some(c as int - '1' as int)
        } else {
            None
        },
        _ => None,
    }
}

fn digit_pick_exec(k: Key) -> (r: Option<usize>)
    ensures
        match r {
            Some(i) => digit_pick(k) == Some(i as int) && i < 9,
            None => digit_pick(k) is None,
        },
{
    match k {
        Key::Char(c) => if '1' <= c && c <= '9' {
            Some(((c as u32) - ('1' as u32)) as usize)
        } else {
            None
        },
        _ => None,
    }
}

pub open spec fn is_up(k: Key) -> bool {
    k == Key::Up || k == Key::Char('k')
}

pub open spec fn is_down(k: Key) -> bool {
    k == Key::Down || k == Key::Char('j')
}

/// The action the actions menu picks with `k` on entry `sel`: enter takes
/// the highlighted one, a digit the numbered one.
pub open spec fn action_choice(items: Seq<Action>, sel: int, k: Key) -> Option<Action> {
    if k == Key::Enter {
        if 0 <= sel < items.len() {
            Some(items[sel])
        } else {
            None
        }
    } else {
        match digit_pick(k) {
            Some(i) => if i < items.len() {
                Some(items[i])
            } else {
                None
            },
            None => None,
        }
    }
}

/// The actions the menu offers.
pub open spec fn actions_of(zen: bool) -> Seq<Action> {
    if zen {
        crate::screen::ACTIONS_ZEN@
    } else {
        crate::screen::ACTIONS_ALL@
    }
}

pub open spec fn actions_len(zen: bool) -> int {
    if zen {
        4
    } else {
        9
    }
}

/// A key on the home screen (see `App::on_key_home`).
pub open spec fn home_key(s0: App, k: Key, s1: App, quit: bool) -> bool {
    let zen = s0.pet.zen;
    if k == Key::Char('q') || k == Key::Esc {
        quit && quitted(s0, s1)
    } else {
        &&& !quit
        &&& if k == Key::Char(' ') {
            s1 == App { screen: Screen::Actions(0), ..s0 }
        } else if k == Key::Char('a') {
            s1 == App { screen: Screen::Assistant, ..s0 }
        } else if k == Key::Char('f') && !zen {
            s1 == App { screen: Screen::Menu(0), ..s0 }
        } else if k == Key::Char('m') && !zen {
            s1 == App { screen: Screen::Game, ..s0 }
        } else if k == Key::Char('p') && !zen {
            played(s0, s1)
        } else if k == Key::Char('s') && !zen {
            slept(s0, s1)
        } else if k == Key::Char('b') && !zen {
            bathed(s0, s1)
        } else if k == Key::Char('z') {
            zenned(s0, s1)
        } else if k == Key::Char('c') {
            switch_asked(s0, s1)
        } else {
            s1 == s0
        }
    }
}

/// What an action picked from the menu does, starting from `s`.
pub open spec fn acted(s: App, a: Action, s1: App) -> bool {
    match a {
        Action::Feed => s1 == App { screen: Screen::Menu(0), ..s },
        Action::Game => s1 == App { screen: Screen::Game, ..s },
        Action::Assistant => s1 == App { screen: Screen::Assistant, ..s },
        Action::Pomo => s1 == App { screen: Screen::Pomo(0), ..s },
        Action::Play => played(s, s1),
        Action::Sleep => slept(s, s1),
        Action::Bath => bathed(s, s1),
        Action::Zen => zenned(s, s1),
        Action::Switch => switch_asked(s, s1),
    }
}

/// A key on the actions menu, entry `sel` highlighted (see
/// `App::on_key_actions`).
pub open spec fn actions_key(s0: App, k: Key, sel: int, s1: App) -> bool {
    let n = actions_len(s0.pet.zen);
    if k == Key::Esc || k == Key::Char(' ') || k == Key::Char('q') {
        s1 == App { screen: Screen::Home, ..s0 }
    } else if is_up(k) {
        s1 == App { screen: Screen::Actions((((sel % n) + n - 1) % n) as usize), ..s0 }
    } else if is_down(k) {
        s1 == App { screen: Screen::Actions((((sel % n) + 1) % n) as usize), ..s0 }
    } else {
        match action_choice(actions_of(s0.pet.zen), sel, k) {
            Some(a) => acted(App { screen: Screen::Home, ..s0 }, a, s1),
            None => s1 == s0,
        }
    }
}

/// A key on the food menu, food `sel` highlighted (see `App::on_key_menu`).
pub open spec fn menu_key(s0: App, k: Key, sel: int, s1: App) -> bool {
    if k == Key::Esc || k == Key::Char('q') {
        s1 == App { screen: Screen::Home, ..s0 }
    } else if is_up(k) {
        s1 == App { screen: Screen::Menu((((sel % 4) + 3) % 4) as usize), ..s0 }
    } else if is_down(k) {
        s1 == App { screen: Screen::Menu((((sel % 4) + 1) % 4) as usize), ..s0 }
    } else if k == Key::Enter {
        if 0 <= sel < FOOD_COUNT {
            s1.screen == Screen::Home && fed_with(s0, sel, App { screen: s0.screen, ..s1 })
        } else {
            s1 == App { screen: Screen::Home, ..s0 }
        }
    } else {
        s1 == s0
    }
}

/// A key on the game screen (see `App::on_key_game`).
pub open spec fn game_key(s0: App, k: Key, s1: App) -> bool {
    if k == Key::Esc || k == Key::Char('q') {
        s1 == App { screen: Screen::Home, ..s0 }
    } else {
        match digit_pick(k) {
            Some(i) => if i < 3 {
                s1.screen == Screen::Home && gamed(s0, i, App { screen: s0.screen, ..s1 })
            } else {
                s1 == s0
            },
            None => s1 == s0,
        }
    }
}

/// The pomodoro preset `i` started.
pub open spec fn preset_started(s0: App, i: int, s1: App) -> bool {
    started(s0, POMO_PRESETS@[i].0, POMO_PRESETS@[i].1, s1)
}

/// A key on the pomodoro screen, preset `sel` highlighted (see
/// `App::on_key_pomo`).
pub open spec fn pomo_key(s0: App, k: Key, sel: int, s1: App) -> bool {
    let idle = s0.pomo is None;
    if k == Key::Esc || k == Key::Char('q') {
        s1 == App { screen: Screen::Home, ..s0 }
    } else if idle && is_up(k) {
        s1 == App { screen: Screen::Pomo((((sel % 3) + 2) % 3) as usize), ..s0 }
    } else if idle && is_down(k) {
        s1 == App { screen: Screen::Pomo((((sel % 3) + 1) % 3) as usize), ..s0 }
    } else if k == Key::Enter {
        if !idle {
            stopped(s0, s1)
        } else if 0 <= sel < 3 {
            preset_started(s0, sel, s1)
        } else {
            s1 == s0
        }
    } else if idle {
        match digit_pick(k) {
            Some(i) => if i < 3 {
                preset_started(s0, i, s1)
            } else {
                s1 == s0
            },
            None => s1 == s0,
        }
    } else {
        s1 == s0
    }
}

/// The highlighted option after moving up (`back`) or down over `len`
/// options, wrapping.
pub open spec fn moved_sel(sel: int, len: int, back: bool) -> int {
    let at = sel % len;
    if back {
        if at == 0 {
            len - 1
        } else {
            at - 1
        }
    } else {
        (at + 1) % len
    }
}

/// A key on the assistant screen (see `App::on_key_assistant`).
pub open spec fn assistant_key(s0: App, k: Key, s1: App, quit: bool) -> bool {
    if s0.input is Some {
        !quit && typed_key(s0, k, s1)
    } else if k == Key::Char('q') {
        quit && quitted(s0, s1)
    } else {
        &&& !quit
        &&& if k == Key::Char('a') {
            s1 == App { screen: s0.prev_screen, prev_screen: Screen::Home, ..s0 }
        } else if k == Key::Char('x') {
            &&& s1.screen == s0.prev_screen
            &&& s1.prev_screen == Screen::Home
            &&& cleared(s0, App { screen: s0.screen, prev_screen: s0.prev_screen, ..s1 })
        } else if k == Key::Char('t') {
            if crate::inbox::shown(s0.inbox@) matches Some(MsgV::Ask { input: true, .. }) {
                with_input(s0, Seq::empty(), s1)
            } else {
                s1 == s0
            }
        } else if is_up(k) || is_down(k) {
            match shown_labels(s0) {
                Some(l) => if l.len() > 0 {
                    s1 == App {
                        ask_sel: moved_sel(s0.ask_sel as int, l.len() as int, is_up(k)) as usize,
                        ..s0
                    }
                } else {
                    s1 == s0
                },
                None => s1 == s0,
            }
        } else if k == Key::Enter {
            if shown_labels(s0) is Some {
                picked(s0, s0.ask_sel as int, s1)
            } else if crate::inbox::shown(s0.inbox@) matches Some(MsgV::Say { .. }) {
                taken_down(s0, s1)
            } else {
                s1 == s0
            }
        } else if k == Key::Esc {
            dropped(s0, s1)
        } else {
            match digit_pick(k) {
                Some(i) => picked(s0, i, s1),
                None => s1 == s0,
            }
        }
    }
}

impl App {
    /// A key press; true when the app should exit.
    pub fn on_key(&mut self, k: Key) -> (quit: bool)
        ensures
            ({
                let k = key_read(*old(self), k);
                match old(self).screen {
                    Screen::Home => home_key(*old(self), k, *final(self), quit),
                    Screen::Actions(sel) => !quit && actions_key(*old(self), k, sel as int, *final(self)),
                    Screen::Menu(sel) => !quit && menu_key(*old(self), k, sel as int, *final(self)),
                    Screen::Game => !quit && game_key(*old(self), k, *final(self)),
                    Screen::Pomo(sel) => !quit && pomo_key(*old(self), k, sel as int, *final(self)),
                    Screen::Assistant => assistant_key(*old(self), k, *final(self), quit),
                }
            }),
    {
        let typing = match self.screen {
            Screen::Assistant => self.input.is_some(),
            _ => false,
        };
        let k = if typing {
            k
        } else {
            crate::screen::as_enter(k)
        };
        match self.screen {
            Screen::Home => self.on_key_home(k),
            Screen::Actions(sel) => {
                self.on_key_actions(k, sel);
                false
            },
            Screen::Menu(sel) => {
                self.on_key_menu(k, sel);
                false
            },
            Screen::Game => {
                self.on_key_game(k);
                false
            },
            Screen::Pomo(sel) => {
                self.on_key_pomo(k, sel);
                false
            },
            Screen::Assistant => self.on_key_assistant(k),
        }
    }

    /// Home: `q`/esc quits, space opens the actions menu, `a` the assistant;
    /// the direct shortcuts `f m p s b` work outside zen mode, `z` and `c`
    /// always.
    pub fn on_key_home(&mut self, k: Key) -> (quit: bool)
        ensures
            home_key(*old(self), k, *final(self), quit),
    {
        let zen = self.pet.zen;
        if k == Key::Char('q') || k == Key::Esc {
            self.quit();
            return true;
        }
        if k == Key::Char(' ') {
            self.screen = Screen::Actions(0);
        } else if k == Key::Char('a') {
            self.screen = Screen::Assistant;
        } else if k == Key::Char('f') && !zen {
            self.screen = Screen::Menu(0);
        } else if k == Key::Char('m') && !zen {
            self.screen = Screen::Game;
        } else if k == Key::Char('p') && !zen {
            self.do_play();
        } else if k == Key::Char('s') && !zen {
            self.do_sleep();
        } else if k == Key::Char('b') && !zen {
            self.do_bath();
        } else if k == Key::Char('z') {
            self.do_zen();
        } else if k == Key::Char('c') {
            self.do_switch();
        }
        false
    }

    /// The actions menu: up/down (`k`/`j`) move and wrap, enter or a digit
    /// picks, esc/space/`q` go home. A picked action either opens its
    /// screen or acts and returns home.
    pub fn on_key_actions(&mut self, k: Key, sel: usize)
        ensures
            actions_key(*old(self), k, sel as int, *final(self)),
    {
        let items = actions_for(self.pet.zen);
        let n = items.len();
        assert(n == actions_len(self.pet.zen)) by {
            assert(crate::screen::ACTIONS_ALL@.len() == 9);
            assert(crate::screen::ACTIONS_ZEN@.len() == 4);
        }
        assert(items@ == actions_of(self.pet.zen));
        if k == Key::Esc || k == Key::Char(' ') || k == Key::Char('q') {
            self.screen = Screen::Home;
            return;
        }
        let at = sel % n;
        if k == Key::Up || k == Key::Char('k') {
            self.screen = Screen::Actions((at + n - 1) % n);
            return;
        }
        if k == Key::Down || k == Key::Char('j') {
            self.screen = Screen::Actions((at + 1) % n);
            return;
        }
        let chosen: Option<Action> = if k == Key::Enter {
            if sel < n {
                Some(items[sel])
            } else {
                None
            }
        } else {
            match digit_pick_exec(k) {
                Some(i) => if i < n {
                    Some(items[i])
                } else {
                    None
                },
                None => None,
            }
        };
        let Some(action) = chosen else { return };
        self.screen = Screen::Home;
        match action {
            Action::Feed => self.screen = Screen::Menu(0),
            Action::Game => self.screen = Screen::Game,
            Action::Assistant => self.screen = Screen::Assistant,
            Action::Pomo => self.screen = Screen::Pomo(0),
            Action::Play => self.do_play(),
            Action::Sleep => self.do_sleep(),
            Action::Bath => self.do_bath(),
            Action::Zen => self.do_zen(),
            Action::Switch => self.do_switch(),
        }
    }

    /// The food menu: up/down move and wrap, enter feeds and goes home,
    /// esc/`q` go home.
    pub fn on_key_menu(&mut self, k: Key, sel: usize)
        ensures
            menu_key(*old(self), k, sel as int, *final(self)),
    {
        if k == Key::Esc || k == Key::Char('q') {
            self.screen = Screen::Home;
        } else if k == Key::Up || k == Key::Char('k') {
            self.screen = Screen::Menu((sel % FOOD_COUNT + FOOD_COUNT - 1) % FOOD_COUNT);
        } else if k == Key::Down || k == Key::Char('j') {
            self.screen = Screen::Menu((sel % FOOD_COUNT + 1) % FOOD_COUNT);
        } else if k == Key::Enter {
            if sel < FOOD_COUNT {
                self.do_feed(sel);
            }
            self.screen = Screen::Home;
        }
    }

    /// The game: `1` rock, `2` paper, `3` scissors play a round and go home;
    /// esc/`q` go home.
    pub fn on_key_game(&mut self, k: Key)
        ensures
            game_key(*old(self), k, *final(self)),
    {
        if k == Key::Esc || k == Key::Char('q') {
            self.screen = Screen::Home;
        } else if k == Key::Char('1') {
            self.do_game(0);
            self.screen = Screen::Home;
        } else if k == Key::Char('2') {
            self.do_game(1);
            self.screen = Screen::Home;
        } else if k == Key::Char('3') {
            self.do_game(2);
            self.screen = Screen::Home;
        }
    }

    /// The pomodoro screen: idle, up/down pick a preset and enter or a digit
    /// starts it (staying on this screen); running, enter stops it. Esc/`q`
    /// go home.
    pub fn on_key_pomo(&mut self, k: Key, sel: usize)
        ensures
            pomo_key(*old(self), k, sel as int, *final(self)),
    {
        let idle = self.pomo.is_none();
        if k == Key::Esc || k == Key::Char('q') {
            self.screen = Screen::Home;
            return;
        }
        let mut start: Option<(u64, u64)> = None;
        if idle && (k == Key::Up || k == Key::Char('k')) {
            self.screen = Screen::Pomo((sel % 3 + 2) % 3);
        } else if idle && (k == Key::Down || k == Key::Char('j')) {
            self.screen = Screen::Pomo((sel % 3 + 1) % 3);
        } else if k == Key::Enter {
            if idle {
                if sel < 3 {
                    start = Some(POMO_PRESETS[sel]);
                }
            } else {
                self.stop_pomo();
            }
        } else if idle {
            match digit_pick_exec(k) {
                Some(i) => if i < 3 {
                    start = Some(POMO_PRESETS[i]);
                },
                None => {},
            }
        }
        if let Some((work, rest)) = start {
            self.start_pomo(work, rest);
        }
    }
}

/// The question on screen, if one is.
pub open spec fn shown_ask(a: App) -> Option<MsgV> {
    match crate::inbox::shown(a.inbox@) {
        Some(m) => if m is Ask {
            Some(m)
        } else {
            None
        },
        None => None,
    }
}

/// The option labels of the question on screen, if one is up.
pub open spec fn shown_labels(a: App) -> Option<Seq<Seq<char>>> {
    match crate::inbox::shown(a.inbox@) {
        Some(MsgV::Ask { options, input, .. }) => Some(labels_of(a.lang, options, input)),
        _ => None,
    }
}

/// `s1` is `s0` with the message on screen taken down, nothing else.
pub open spec fn taken_down(s0: App, s1: App) -> bool {
    &&& s1.inbox@ == crate::inbox::InboxV { queue: s0.inbox@.queue, current: None }
    &&& s1 == App { inbox: s1.inbox, ..s0 }
}

/// Answering the question on screen with `answer`: the answer joins those
/// to write, with its log entry, and the question leaves the screen. With
/// no question up nothing happens.
pub open spec fn answered(s0: App, answer: Seq<char>, s1: App) -> bool {
    match shown_ask(s0) {
        Some(MsgV::Ask { text, id, .. }) => {
            &&& s1.inbox@ == crate::inbox::InboxV { queue: s0.inbox@.queue, current: None }
            &&& s1.effects.answers@.len() == s0.effects.answers@.len() + 1
            &&& s1.effects.answers@.drop_last() == s0.effects.answers@
            &&& s1.effects.answers@.last().id@ == id
            &&& s1.effects.answers@.last().answer@ == answer
            &&& s1.effects.answers@.last().entry@ == crate::i18n::fill_text(
                table(s0.lang).msg_answered@,
                seq![("answer"@, answer), ("text"@, text)],
            )
            &&& s1 == App {
                inbox: s1.inbox,
                effects: Effects { answers: s1.effects.answers, ..s0.effects },
                ..s0
            }
        },
        _ => s1 == s0,
    }
}

/// `s1` is `s0` with the text field open and holding `text`.
pub open spec fn with_input(s0: App, text: Seq<char>, s1: App) -> bool {
    &&& s1.input matches Some(b) && b@ == text
    &&& s1 == App { input: s1.input, ..s0 }
}

/// Option `idx` of the question on screen: the "write" entry opens an empty
/// text field, any other answers with its label. Out of range, or with no
/// question up, nothing happens.
pub open spec fn picked(s0: App, idx: int, s1: App) -> bool {
    match shown_labels(s0) {
        Some(l) => if 0 <= idx < l.len() {
            if l[idx] == table(s0.lang).option_write@ {
                with_input(s0, Seq::empty(), s1)
            } else {
                answered(s0, l[idx], s1)
            }
        } else {
            s1 == s0
        },
        None => s1 == s0,
    }
}

/// The question on screen takes typed answers only.
pub open spec fn text_only(s0: App) -> bool {
    crate::inbox::shown(s0.inbox@) matches Some(MsgV::Ask { options, .. }) && options.len() == 0
}

/// The message on screen is dropped; a question dropped so is answered
/// "ignored".
pub open spec fn dropped(s0: App, s1: App) -> bool {
    &&& s1.inbox@ == crate::inbox::InboxV { queue: s0.inbox@.queue, current: None }
    &&& crate::assistant::string_views(s1.effects.ignored@) == crate::assistant::string_views(
        s0.effects.ignored@,
    ) + match crate::inbox::shown(s0.inbox@) {
        Some(MsgV::Ask { id, .. }) => seq![id],
        _ => Seq::empty(),
    }
    &&& s1 == App {
        inbox: s1.inbox,
        effects: Effects { ignored: s1.effects.ignored, ..s0.effects },
        ..s0
    }
}

/// A key while the text field is open (see `App::on_key_input`).
pub open spec fn typed_key(s0: App, k: Key, s1: App) -> bool {
    match s0.input {
        None => s1 == s0,
        Some(buf) => {
            let b = buf@;
            let full = b.len() >= ANSWER_CAP;
            if k == Key::AltEnter && !full {
                with_input(s0, b.push('\n'), s1)
            } else if k == Key::Enter || k == Key::AltEnter {
                let a = crate::text::trim(b);
                if a.len() > 0 {
                    s1.input is None && answered(s0, a, App { input: s0.input, ..s1 })
                } else {
                    s1 == s0
                }
            } else if k == Key::Backspace {
                with_input(
                    s0,
                    if b.len() > 0 {
                        b.drop_last()
                    } else {
                        b
                    },
                    s1,
                )
            } else if k == Key::Esc {
                if text_only(s0) {
                    s1.input is None && dropped(s0, App { input: s0.input, ..s1 })
                } else {
                    s1 == App { input: None, ..s0 }
                }
            } else {
                match k {
                    Key::Char(c) => if !full {
                        with_input(s0, b.push(c), s1)
                    } else {
                        s1 == s0
                    },
                    _ => s1 == s0,
                }
            }
        },
    }
}

impl App {
    /// The assistant screen. While the text field is open every key belongs
    /// to it. Otherwise `q` quits; `a` goes back; `x` empties the inbox
    /// (dropped questions are answered "ignored") and goes back; `t` opens
    /// the field when typed answers are accepted; up/down move over the
    /// options; enter picks the highlighted option (or dismisses a spoken
    /// message); a digit picks by number; esc drops the current message.
    pub fn on_key_assistant(&mut self, k: Key) -> (quit: bool)
        ensures
            assistant_key(*old(self), k, *final(self), quit),
    {
        if self.input.is_some() {
            self.on_key_input(k);
            return false;
        }
        if k == Key::Char('q') {
            self.quit();
            return true;
        }
        if k == Key::Char('a') {
            self.screen = self.prev_screen;
            self.prev_screen = Screen::Home;
        } else if k == Key::Char('x') {
            let ghost s0 = *self;
            let ids = self.inbox.clear();
            self.push_ignored(ids);
            assert(crate::assistant::string_views(self.effects.ignored@)
                =~= crate::assistant::string_views(s0.effects.ignored@) + (match crate::inbox::shown(
                s0.inbox@,
            ) {
                Some(MsgV::Ask { id, .. }) => seq![id],
                _ => Seq::empty(),
            }) + crate::inbox::ask_ids(s0.inbox@.queue));
            self.screen = self.prev_screen;
            self.prev_screen = Screen::Home;
        } else if k == Key::Char('t') {
            let typed = match &self.inbox.current {
                Some((Msg::Ask { input, .. }, _)) => *input,
                _ => false,
            };
            if typed {
                self.input = Some(String::new());
            }
        } else if k == Key::Up || k == Key::Down || k == Key::Char('k') || k == Key::Char('j') {
            match ask_options(self.lang, &self.inbox) {
                Some(o) => {
                    let len = o.len();
                    if len > 0 {
                        let at = self.ask_sel % len;
                        let back = k == Key::Up || k == Key::Char('k');
                        self.ask_sel = if back {
                            if at == 0 {
                                len - 1
                            } else {
                                at - 1
                            }
                        } else {
                            (at + 1) % len
                        };
                    }
                },
                None => {},
            }
        } else if k == Key::Enter {
            if ask_options(self.lang, &self.inbox).is_some() {
                let sel = self.ask_sel;
                self.pick_option(sel);
            } else {
                let say = match &self.inbox.current {
                    Some((Msg::Say { .. }, _)) => true,
                    _ => false,
                };
                if say {
                    self.inbox.current = None;
                }
            }
        } else if k == Key::Esc {
            let gone = self.inbox.advance();
            if let Some(id) = gone {
                let ghost before = crate::assistant::string_views(self.effects.ignored@);
                self.effects.ignored.push(id);
                assert(crate::assistant::string_views(self.effects.ignored@) =~= before + seq![id@]);
            }
        } else {
            match digit_pick_exec(k) {
                Some(i) => self.pick_option(i),
                None => {},
            }
        }
        false
    }

    /// The option at `idx` of the question on screen: the "write" entry
    /// opens the text field; any other answers the question.
    pub fn pick_option(&mut self, idx: usize)
        ensures
            picked(*old(self), idx as int, *final(self)),
    {
        let picked: Option<String> = match ask_options(self.lang, &self.inbox) {
            Some(o) => if idx < o.len() {
                Some(o[idx].as_str().to_owned())
            } else {
                None
            },
            None => None,
        };
        match picked {
            Some(o) => {
                if crate::cli::str_eq(o.as_str(), t(self.lang).option_write) {
                    self.input = Some(String::new());
                } else {
                    self.answer_ask(o.as_str());
                }
            },
            None => {},
        }
    }

    /// Answers the question on screen (by a picked option or typed text, the
    /// same way): the answer goes out to be written, and the question
    /// leaves the screen.
    pub fn answer_ask(&mut self, answer: &str)
        ensures
            answered(*old(self), answer@, *final(self)),
    {
        let pending: Option<(String, String)> = match &self.inbox.current {
            Some((Msg::Ask { text, id, .. }, _)) => {
                let entry = crate::i18n::msg_answered(self.lang, text.as_str(), answer);
                Some((id.as_str().to_owned(), entry))
            },
            _ => None,
        };
        match pending {
            Some((id, entry)) => {
                let ghost before = self.effects.answers@;
                self.effects.answers.push(Answer { id, answer: answer.to_owned(), entry });
                assert(self.effects.answers@.drop_last() =~= before);
                self.inbox.current = None;
            },
            None => {},
        }
    }

    /// How writing an answer went: the log shows the entry, or the entry and
    /// the error in red.
    pub fn note_answer(&mut self, entry: String, error: Option<String>)
        ensures
            log_views(final(self).log@) == logged(
                log_views(old(self).log@),
                seq![
                    match error {
                        None => entry_view(old(self).time@, entry@, None),
                        Some(e) => seq![
                            (entry@ + seq![' ', '('] + e@ + seq![')'], Some(Color::Red), None),
                        ],
                    },
                ],
            ),
            *final(self) == (App { log: final(self).log, ..*old(self) }),
    {
        match error {
            None => self.log_at(entry, None),
            Some(e) => {
                let mut v = chars_of(entry.as_str());
                push_str(&mut v, " (");
                push_str(&mut v, e.as_str());
                v.push(')');
                let l = tinted(string_of(v.as_slice()), Color::Red);
                proof {
                    reveal_strlit(" (");
                    assert(v@ =~= entry@ + seq![' ', '('] + e@ + seq![')']);
                    lemma_logged_one(log_views(self.log@), line_view(l));
                }
                self.log_line(l);
            },
        }
    }

    /// The text field: alt+enter breaks the line, enter sends the trimmed
    /// text (when there is any), backspace deletes, esc closes the field (and
    /// drops a question that takes only typed answers), other characters
    /// type — up to `ANSWER_CAP` characters.
    pub fn on_key_input(&mut self, k: Key)
        ensures
            typed_key(*old(self), k, *final(self)),
    {
        let buf = match &self.input {
            Some(b) => chars_of(b.as_str()),
            None => {
                return;
            },
        };
        let full = buf.len() >= ANSWER_CAP;
        if k == Key::AltEnter && !full {
            let mut b = buf;
            b.push('\n');
            self.input = Some(string_of(b.as_slice()));
        } else if k == Key::Enter || k == Key::AltEnter {
            let answer = crate::text::trim_chars(buf.as_slice());
            if answer.len() > 0 {
                let a = string_of(answer.as_slice());
                self.answer_ask(a.as_str());
                self.input = None;
            }
        } else if k == Key::Backspace {
            let mut b = buf;
            b.pop();
            self.input = Some(string_of(b.as_slice()));
        } else if k == Key::Esc {
            let text_only = match &self.inbox.current {
                Some((Msg::Ask { options, .. }, _)) => options.len() == 0,
                _ => false,
            };
            self.input = None;
            if text_only {
                let gone = self.inbox.advance();
                if let Some(id) = gone {
                    let ghost before = crate::assistant::string_views(self.effects.ignored@);
                    self.effects.ignored.push(id);
                    assert(crate::assistant::string_views(self.effects.ignored@) =~= before + seq![
                        id@,
                    ]);
                }
            }
        } else {
            match k {
                Key::Char(c) => if !full {
                    let mut b = buf;
                    b.push(c);
                    self.input = Some(string_of(b.as_slice()));
                },
                _ => {},
            }
        }
    }
}

/// `a - b`, or 0 when `b` is larger.
pub open spec fn sat_sub(a: u64, b: u64) -> u64 {
    if a >= b {
        (a - b) as u64
    } else {
        0
    }
}

/// What the header's timer slot shows: a running pomodoro's phase and
/// countdown, else a plain timer's countdown, else nothing.
pub open spec fn timer_slot(a: App) -> Option<(Seq<char>, Seq<char>)> {
    match a.pomo {
        Some(p) => Some(
            (
                if p.focus {
                    table(a.lang).pomo_focus@
                } else {
                    table(a.lang).pomo_break@
                },
                crate::pomo::mmss_text(sat_sub(p.until, a.now)),
            ),
        ),
        None => match a.timer_until {
            Some(u) => Some((table(a.lang).timer_label@, crate::pomo::mmss_text(sat_sub(u, a.now)))),
            None => None,
        },
    }
}

impl App {
    /// What the header's timer slot shows: a running pomodoro's phase and
    /// countdown, else a plain timer's countdown.
    pub fn header_timer(&self) -> (r: Option<(&'static str, String)>)
        ensures
            match r {
                Some((label, text)) => timer_slot(*self) == Some((label@, text@)),
                None => timer_slot(*self) is None,
            },
    {
        let strings = t(self.lang);
        match self.pomo {
            Some(p) => {
                let label = if p.focus {
                    strings.pomo_focus
                } else {
                    strings.pomo_break
                };
                Some((label, crate::pomo::mmss(p.until.saturating_sub(self.now))))
            },
            None => match self.timer_until {
                Some(u) => Some((strings.timer_label, crate::pomo::mmss(u.saturating_sub(self.now)))),
                None => None,
            },
        }
    }

    /// The progress rows, in order.
    pub fn progress_lines(&self) -> (r: Vec<Line>)
        ensures
            r@.len() == self.progress@.len(),
            forall|i: int|
                0 <= i < r@.len() ==> line_view(#[trigger] r@[i]) == crate::line::progress_view(self.lang, 
                    self.progress@[i].0@,
                    if self.progress@[i].1 > 100 {
                        100u8
                    } else {
                        self.progress@[i].1
                    },
                ),
    {
        let mut out: Vec<Line> = Vec::new();
        let mut i: usize = 0;
        while i < self.progress.len()
            invariant
                i <= self.progress.len(),
                out@.len() == i,
                forall|j: int|
                    0 <= j < i ==> line_view(#[trigger] out@[j]) == crate::line::progress_view(self.lang, 
                        self.progress@[j].0@,
                        if self.progress@[j].1 > 100 {
                            100u8
                        } else {
                            self.progress@[j].1
                        },
                    ),
            decreases self.progress.len() - i,
        {
            let pct = if self.progress[i].1 > 100 {
                100
            } else {
                self.progress[i].1
            };
            out.push(crate::line::progress_line(self.lang, self.progress[i].0.as_str(), pct));
            i = i + 1;
        }
        out
    }

    /// The running pomodoro as its screen shows it: the phase's label,
    /// whether it is focus, how much of the phase is done (percent), and the
    /// cycle.
    pub fn pomo_run(&self) -> (r: Option<(&'static str, bool, u8, u32)>)
        ensures
            self.pomo is None ==> r is None,
            self.pomo matches Some(p) ==> r matches Some((label, focus, frac, cycle)) && focus
                == p.focus && cycle == p.cycles && frac == phase_done(p, self.now) && label@ == (
            if p.focus {
                table(self.lang).pomo_focus@
            } else {
                table(self.lang).pomo_break@
            }),
    {
        let strings = t(self.lang);
        match self.pomo {
            Some(p) => {
                let length = if p.focus {
                    p.work
                } else {
                    p.rest
                };
                let duration: u64 = if length == 0 {
                    1
                } else {
                    length
                };
                let left = p.until.saturating_sub(self.now);
                let remaining: u64 = if left < duration {
                    left
                } else {
                    duration
                };
                let done: u64 = 100 - remaining_share(remaining, duration);
                let label = if p.focus {
                    strings.pomo_focus
                } else {
                    strings.pomo_break
                };
                Some((label, p.focus, done as u8, p.cycles))
            },
            None => None,
        }
    }
}

/// How much of the pomodoro's phase is done at `now`, in percent: the part
/// left of the phase's length (a length of 0 counting as 1 second), taken
/// from 100.
pub open spec fn phase_done(p: Pomo, now: u64) -> int {
    let length = if p.focus {
        p.work
    } else {
        p.rest
    };
    let duration: int = if length == 0 {
        1
    } else {
        length as int
    };
    let left = sat_sub(p.until, now) as int;
    let remaining = if left < duration {
        left
    } else {
        duration
    };
    100 - (remaining * 100) / duration
}

/// `remaining * 100 / duration`, at most 100.
fn remaining_share(remaining: u64, duration: u64) -> (r: u64)
    requires
        duration > 0,
        remaining <= duration,
    ensures
        r <= 100,
        r == (remaining as int * 100) / duration as int,
{
    let x: u128 = remaining as u128 * 100;
    let d: u128 = duration as u128;
    assert(x / d <= 100) by (nonlinear_arith)
        requires
            x == remaining * 100,
            d == duration,
            remaining <= duration,
            duration > 0,
    ;
    (x / d) as u64
}

} // verus!
