//! The pomodoro cycle: alternating focus and break phases that outlive the
//! process, so it round-trips through `state::PomoState`.

use vstd::prelude::*;
use crate::state::PomoState;
use crate::text::{dec, dec2, push_dec, push_dec2, string_of};

verus! {

/// The presets offered on the pomodoro screen, index-aligned with the
/// preset labels: (focus, break) in seconds.
pub const POMO_PRESETS: [(u64, u64); 3] = [(1500, 300), (3000, 600), (900, 180)];

/// A running pomodoro.
#[derive(Debug, Clone, Copy, PartialEq, Eq, Structural)]
pub struct Pomo {
    pub work: u64,
    pub rest: u64,
    pub focus: bool,
    pub until: u64,
    /// 1-based: which focus block this is.
    pub cycles: u32,
}

/// A pomodoro as the schedule saves it.
pub open spec fn pomo_state(p: Pomo) -> PomoState {
    PomoState { work: p.work, rest: p.rest, focus: p.focus, until: p.until, cycles: p.cycles }
}

/// The pomodoro a saved state describes.
pub open spec fn pomo_from(s: PomoState) -> Pomo {
    Pomo { work: s.work, rest: s.rest, focus: s.focus, until: s.until, cycles: s.cycles }
}

impl Pomo {
    /// The pomodoro as saved in the schedule.
    pub fn saved(&self) -> (r: PomoState)
        ensures
            r == pomo_state(*self),
    {
        PomoState {
            work: self.work,
            rest: self.rest,
            focus: self.focus,
            until: self.until,
            cycles: self.cycles,
        }
    }

    /// The pomodoro a saved schedule holds.
    pub fn from_saved(p: PomoState) -> (r: Pomo)
        ensures
            r == pomo_from(p),
    {
        Pomo { work: p.work, rest: p.rest, focus: p.focus, until: p.until, cycles: p.cycles }
    }
}

impl From<PomoState> for Pomo {
    fn from(p: PomoState) -> (r: Pomo) {
        Pomo { work: p.work, rest: p.rest, focus: p.focus, until: p.until, cycles: p.cycles }
    }
}

impl vstd::std_specs::convert::FromSpecImpl<PomoState> for Pomo {
    open spec fn obeys_from_spec() -> bool {
        true
    }

    open spec fn from_spec(p: PomoState) -> Pomo {
        pomo_from(p)
    }
}

/// Whether the phase running at `now` can flip without overflowing.
pub open spec fn tick_fits(p: Pomo, now: u64) -> bool {
    p.until <= now ==> {
        &&& (p.focus ==> now + p.rest <= u64::MAX)
        &&& (!p.focus ==> now + p.work <= u64::MAX && p.cycles < u32::MAX)
    }
}

/// Flips the phase when the current one has ended: the new phase lasts its
/// own duration from `now`, and entering focus starts the next cycle.
/// Returns the phase just entered (`true` = focus), or `None` while the
/// current one runs.
pub fn pomo_tick(p: &mut Pomo, now: u64) -> (r: Option<bool>)
    requires
        tick_fits(*old(p), now),
    ensures
        old(p).until > now ==> r is None && *final(p) == *old(p),
        old(p).until <= now ==> {
            let focus = !old(p).focus;
            &&& r == Some(focus)
            &&& final(p).focus == focus
            &&& final(p).until == now + if focus {
                old(p).work
            } else {
                old(p).rest
            }
            &&& final(p).cycles == old(p).cycles + if focus {
                1int
            } else {
                0int
            }
            &&& final(p).work == old(p).work
            &&& final(p).rest == old(p).rest
        },
{
    if p.until > now {
        return None;
    }
    p.focus = !p.focus;
    p.until = now + if p.focus {
        p.work
    } else {
        p.rest
    };
    if p.focus {
        p.cycles = p.cycles + 1;
    }
    Some(p.focus)
}

/// `MM:SS`, or `H:MM:SS` from an hour on.
pub open spec fn mmss_text(secs: u64) -> Seq<char> {
    if secs >= 3600 {
        dec((secs / 3600) as nat) + seq![':'] + dec2(((secs % 3600) / 60) as nat) + seq![':']
            + dec2((secs % 60) as nat)
    } else {
        dec2((secs / 60) as nat) + seq![':'] + dec2((secs % 60) as nat)
    }
}

pub fn mmss(secs: u64) -> (r: String)
    ensures
        r@ == mmss_text(secs),
{
    let mut v: Vec<char> = Vec::new();
    if secs >= 3600 {
        push_dec(&mut v, secs / 3600);
        v.push(':');
        push_dec2(&mut v, (secs % 3600) / 60);
        v.push(':');
        push_dec2(&mut v, secs % 60);
    } else {
        push_dec2(&mut v, secs / 60);
        v.push(':');
        push_dec2(&mut v, secs % 60);
    }
    assert(v@ =~= mmss_text(secs));
    string_of(v.as_slice())
}

/// What is saved is what comes back: a pomodoro saved and restored is the
/// same pomodoro, and a saved state restored and saved again is unchanged.
pub proof fn law_pomo_saved_round_trip(p: Pomo, s: PomoState)
    ensures
        pomo_from(pomo_state(p)) == p,
        pomo_state(pomo_from(s)) == s,
{
}

} // verus!
