//! The pet's rules: stats, decay, XP, foods and mood.

use vstd::prelude::*;
use crate::species::Species;

verus! {

/// Seconds between two decay ticks.
pub const DECAY_SECS: u64 = 30;

/// Cap on offline decay: 24h worth of ticks.
pub const MAX_OFFLINE_TICKS: u64 = 24 * 60 * 60 / DECAY_SECS;

/// Number of foods on the menu.
pub const FOOD_COUNT: usize = 4;

/// std `SystemTime::now`, measured from the Unix epoch: whole seconds and
/// the nanoseconds past them (both 0 for a clock set before the epoch). The
/// time is whatever the machine says, so only the range of the nanoseconds
/// is promised.
#[verifier::external_body]
pub(crate) fn system_clock() -> (r: (u64, u32))
    ensures
        r.1 < 1_000_000_000,
{
    match std::time::SystemTime::now().duration_since(std::time::UNIX_EPOCH) {
        Ok(d) => (d.as_secs(), d.subsec_nanos()),
        Err(_) => (0, 0),
    }
}

/// Seconds since the Unix epoch, from the system clock.
pub fn now() -> u64 {
    system_clock().0
}

/// `v + delta`, kept within 0..=100.
pub open spec fn clamp100(x: int) -> u8 {
    if x < 0 {
        0
    } else if x > 100 {
        100
    } else {
        x as u8
    }
}

/// Applies a signed change to a stat, clamping to 0..=100.
pub fn adj(v: u8, delta: i16) -> (r: u8)
    requires
        v + delta <= i16::MAX,
    ensures
        r == clamp100(v + delta),
{
    let x: i16 = v as i16 + delta;
    if x < 0 {
        0
    } else if x > 100 {
        100
    } else {
        x as u8
    }
}

/// What a food does to each stat.
#[derive(Debug, Clone, Copy, PartialEq, Eq, Structural)]
pub struct Food {
    pub hunger: i16,
    pub happiness: i16,
    pub energy: i16,
    pub hygiene: i16,
}

/// The menu; index-aligned with the food names in `i18n`.
pub open spec fn food_at(i: int) -> Food {
    if i == 0 {
        Food { hunger: 15, happiness: 0, energy: 0, hygiene: 0 }
    } else if i == 1 {
        Food { hunger: 25, happiness: 5, energy: 0, hygiene: 0 }
    } else if i == 2 {
        Food { hunger: 35, happiness: 0, energy: 0, hygiene: -10i16 }
    } else {
        Food { hunger: 0, happiness: 0, energy: 10, hygiene: 0 }
    }
}

/// Food `i` of the menu.
pub fn food(i: usize) -> (f: Food)
    requires
        i < FOOD_COUNT,
    ensures
        f == food_at(i as int),
{
    if i == 0 {
        Food { hunger: 15, happiness: 0, energy: 0, hygiene: 0 }
    } else if i == 1 {
        Food { hunger: 25, happiness: 5, energy: 0, hygiene: 0 }
    } else if i == 2 {
        Food { hunger: 35, happiness: 0, energy: 0, hygiene: -10 }
    } else {
        Food { hunger: 0, happiness: 0, energy: 10, hygiene: 0 }
    }
}

#[derive(Debug, Clone, PartialEq)]
pub struct Pet {
    pub species: Species,
    pub name: String,
    /// 100 = fed
    pub hunger: u8,
    /// 100 = happy
    pub happiness: u8,
    /// 100 = rested
    pub energy: u8,
    /// 100 = clean
    pub hygiene: u8,
    pub xp: u32,
    pub level: u32,
    pub born: u64,
    pub last_seen: u64,
    pub zen: bool,
    /// runtime only, not persisted
    pub sleeping: bool,
    /// runtime only: hygiene decays every 2nd tick
    pub tick_parity: bool,
}

#[derive(Debug, Clone, Copy, PartialEq, Eq, Structural)]
pub enum Mood {
    Happy,
    Hungry,
    Dirty,
    Sleepy,
    Sad,
    Sleeping,
}

/// A pet as plain values.
pub struct PetV {
    pub species: Species,
    pub name: Seq<char>,
    pub hunger: u8,
    pub happiness: u8,
    pub energy: u8,
    pub hygiene: u8,
    pub xp: u32,
    pub level: u32,
    pub born: u64,
    pub last_seen: u64,
    pub zen: bool,
    pub sleeping: bool,
    pub tick_parity: bool,
}

impl View for Pet {
    type V = PetV;

    open spec fn view(&self) -> PetV {
        PetV {
            species: self.species,
            name: self.name@,
            hunger: self.hunger,
            happiness: self.happiness,
            energy: self.energy,
            hygiene: self.hygiene,
            xp: self.xp,
            level: self.level,
            born: self.born,
            last_seen: self.last_seen,
            zen: self.zen,
            sleeping: self.sleeping,
            tick_parity: self.tick_parity,
        }
    }
}

/// A freshly hatched, unnamed cat, born at `t`, as plain values.
pub open spec fn newborn(t: u64) -> PetV {
    PetV {
        species: Species::Cat,
        name: Seq::empty(),
        hunger: 80,
        happiness: 90,
        energy: 90,
        hygiene: 80,
        xp: 0,
        level: 1,
        born: t,
        last_seen: t,
        zen: false,
        sleeping: false,
        tick_parity: false,
    }
}

/// A freshly hatched, unnamed cat, born at `t`.
pub open spec fn is_newborn(p: Pet, t: u64) -> bool {
    &&& p.species == Species::Cat
    &&& p.name@ == Seq::<char>::empty()
    &&& p.hunger == 80
    &&& p.happiness == 90
    &&& p.energy == 90
    &&& p.hygiene == 80
    &&& p.xp == 0
    &&& p.level == 1
    &&& p.born == t
    &&& p.last_seen == t
    &&& !p.zen
    &&& !p.sleeping
    &&& !p.tick_parity
}

impl Default for Pet {
    fn default() -> (p: Pet)
        ensures
            is_newborn(p, p.born),
    {
        let t = now();
        Pet {
            species: Species::Cat,
            name: String::new(),
            hunger: 80,
            happiness: 90,
            energy: 90,
            hygiene: 80,
            xp: 0,
            level: 1,
            born: t,
            last_seen: t,
            zen: false,
            sleeping: false,
            tick_parity: false,
        }
    }
}

pub open spec fn dec1(v: u8) -> u8 {
    if v == 0 {
        0
    } else {
        (v - 1) as u8
    }
}

/// One decay tick. Zen freezes everything; a sleeping pet recovers 5 energy
/// and wakes at full; otherwise hunger and energy drop by one, hygiene every
/// other tick, and happiness drops while any need is under 30.
pub open spec fn ticked(p: Pet) -> Pet {
    if p.zen {
        p
    } else if p.sleeping {
        let e: u8 = if p.energy + 5 > 100 {
            100
        } else {
            (p.energy + 5) as u8
        };
        Pet { energy: e, sleeping: e != 100, ..p }
    } else {
        let h = dec1(p.hunger);
        let en = dec1(p.energy);
        let par = !p.tick_parity;
        let hy = if par {
            dec1(p.hygiene)
        } else {
            p.hygiene
        };
        let hap = if h < 30 || en < 30 || hy < 30 {
            dec1(p.happiness)
        } else {
            p.happiness
        };
        Pet { hunger: h, energy: en, tick_parity: par, hygiene: hy, happiness: hap, ..p }
    }
}

/// `n` decay ticks.
pub open spec fn ticked_n(p: Pet, n: nat) -> Pet
    decreases n,
{
    if n == 0 {
        p
    } else {
        ticked(ticked_n(p, (n - 1) as nat))
    }
}

/// A tick does not overflow: a sleeping pet's energy has room for +5.
pub open spec fn tick_ok(p: Pet) -> bool {
    !p.zen && p.sleeping ==> p.energy <= 250
}

/// How many ticks the time away is worth, capped at a day.
pub open spec fn offline_ticks(last_seen: u64, now: u64) -> nat {
    let elapsed: int = if now >= last_seen {
        now - last_seen
    } else {
        0
    };
    let t = elapsed / DECAY_SECS as int;
    if t > MAX_OFFLINE_TICKS {
        MAX_OFFLINE_TICKS as nat
    } else {
        t as nat
    }
}

/// The pet after the decay of its time away, as of `now`.
/// The decay at `now` can be applied: no tick is due, or the pet can tick.
pub open spec fn decay_ok(p: Pet, now: u64) -> bool {
    offline_ticks(p.last_seen, now) > 0 ==> tick_ok(p)
}

pub open spec fn decayed(p: Pet, now: u64) -> Pet {
    Pet { last_seen: now, ..ticked_n(p, offline_ticks(p.last_seen, now)) }
}

/// The XP bar after earning: while the bar is full, spend `level * 100` and
/// level up. (Level 0 needs nothing, so it moves straight to level 1.)
pub open spec fn settle(level: nat, xp: nat) -> (nat, nat)
    decreases xp, if level == 0 {
        1nat
    } else {
        0nat
    },
{
    if xp >= level * 100 {
        if level == 0 {
            settle(1, xp)
        } else {
            settle(level + 1, (xp - level * 100) as nat)
        }
    } else {
        (level, xp)
    }
}

/// XP spent to reach `level` from level 0.
pub open spec fn xp_before(level: nat) -> nat
    decreases level,
{
    if level == 0 {
        0
    } else {
        xp_before((level - 1) as nat) + 100 * (level - 1) as nat
    }
}

/// Lifetime XP: what the levels cost plus what sits in the bar.
pub open spec fn total_xp(level: nat, xp: nat) -> nat {
    xp_before(level) + xp
}

pub proof fn lemma_settle(level: nat, xp: nat)
    ensures
        settle(level, xp).0 >= level,
        total_xp(settle(level, xp).0, settle(level, xp).1) == total_xp(level, xp),
        settle(level, xp).1 < settle(level, xp).0 * 100,
    decreases xp, if level == 0 {
        1nat
    } else {
        0nat
    },
{
    if xp >= level * 100 {
        if level == 0 {
            lemma_settle(1, xp);
            assert(xp_before(1) == 0);
        } else {
            lemma_settle(level + 1, (xp - level * 100) as nat);
            assert(xp_before(level + 1) == xp_before(level) + 100 * level);
        }
    }
}

/// More XP never settles at a lower level.
pub proof fn lemma_settle_mono(level: nat, x1: nat, x2: nat)
    requires
        x1 <= x2,
    ensures
        settle(level, x1).0 <= settle(level, x2).0,
    decreases x2, if level == 0 {
        1nat
    } else {
        0nat
    },
{
    if x1 >= level * 100 {
        if level == 0 {
            lemma_settle_mono(1, x1, x2);
        } else {
            lemma_settle_mono(level + 1, (x1 - level * 100) as nat, (x2 - level * 100) as nat);
        }
    } else {
        lemma_settle(level, x2);
    }
}

/// Whether earning `n` XP keeps every number in range: the bar fits a `u32`
/// and so does the XP the final level needs.
pub open spec fn xp_ok(p: Pet, n: u32) -> bool {
    &&& p.xp + n <= u32::MAX
    &&& settle(p.level as nat, (p.xp + n) as nat).0 * 100 <= u32::MAX
}

/// The pet after earning `n` XP.
pub open spec fn earned(p: Pet, n: u32) -> Pet {
    let s = settle(p.level as nat, (p.xp + n) as nat);
    Pet { level: s.0 as u32, xp: s.1 as u32, ..p }
}

/// The mood: sleeping first, then (unless zen masks needs) hungry, dirty,
/// sleepy, sad; happy otherwise.
pub open spec fn mood_of(p: Pet) -> Mood {
    if p.sleeping {
        Mood::Sleeping
    } else if !p.zen && p.hunger < 30 {
        Mood::Hungry
    } else if !p.zen && p.hygiene < 30 {
        Mood::Dirty
    } else if !p.zen && p.energy < 30 {
        Mood::Sleepy
    } else if !p.zen && p.happiness < 30 {
        Mood::Sad
    } else {
        Mood::Happy
    }
}

/// Day counter: 1 on the day of birth.
pub open spec fn day_of(born: u64, now: u64) -> u64 {
    let elapsed: int = if now >= born {
        now - born
    } else {
        0
    };
    (elapsed / 86400 + 1) as u64
}

/// The pet after eating `f`.
pub open spec fn fed(p: Pet, f: Food) -> Pet {
    Pet {
        hunger: clamp100(p.hunger + f.hunger),
        happiness: clamp100(p.happiness + f.happiness),
        energy: clamp100(p.energy + f.energy),
        hygiene: clamp100(p.hygiene + f.hygiene),
        ..p
    }
}

pub open spec fn food_ok(p: Pet, f: Food) -> bool {
    &&& p.hunger + f.hunger <= i16::MAX
    &&& p.happiness + f.happiness <= i16::MAX
    &&& p.energy + f.energy <= i16::MAX
    &&& p.hygiene + f.hygiene <= i16::MAX
}

impl Pet {
    pub fn tick(&mut self)
        requires
            tick_ok(*old(self)),
        ensures
            *final(self) == ticked(*old(self)),
    {
        if self.zen {
            return;
        }
        if self.sleeping {
            let e: u8 = self.energy + 5;
            self.energy = if e > 100 {
                100
            } else {
                e
            };
            if self.energy == 100 {
                self.sleeping = false;
            }
            return;
        }
        self.hunger = self.hunger.saturating_sub(1);
        self.energy = self.energy.saturating_sub(1);
        self.tick_parity = !self.tick_parity;
        if self.tick_parity {
            self.hygiene = self.hygiene.saturating_sub(1);
        }
        if self.hunger < 30 || self.energy < 30 || self.hygiene < 30 {
            self.happiness = self.happiness.saturating_sub(1);
        }
    }

    /// The decay of the time away, as of `now`: one tick per `DECAY_SECS`
    /// since `last_seen`, at most a day's worth; then `last_seen = now`.
    /// Only a pet that has a tick due must be one that can tick.
    pub fn apply_offline_decay_at(&mut self, now: u64)
        requires
            decay_ok(*old(self), now),
        ensures
            *final(self) == decayed(*old(self), now),
    {
        let elapsed = now.saturating_sub(self.last_seen);
        let t = elapsed / DECAY_SECS;
        let ticks = if t > MAX_OFFLINE_TICKS {
            MAX_OFFLINE_TICKS
        } else {
            t
        };
        assert(ticks == offline_ticks(old(self).last_seen, now));
        let mut i: u64 = 0;
        while i < ticks
            invariant
                i <= ticks,
                *self == ticked_n(*old(self), i as nat),
                ticks > 0 ==> tick_ok(*self),
            decreases ticks - i,
        {
            self.tick();
            i = i + 1;
        }
        self.last_seen = now;
    }

    /// The decay can be applied at `now`: no tick is due, or the pet can
    /// tick.
    pub fn decay_ok_at(&self, now: u64) -> (r: bool)
        ensures
            r == decay_ok(*self, now),
    {
        let elapsed = now.saturating_sub(self.last_seen);
        let t = elapsed / DECAY_SECS;
        assert(t > 0 <==> offline_ticks(self.last_seen, now) > 0);
        t == 0 || self.zen || !self.sleeping || self.energy <= 250
    }

    /// The decay of the time away, as of the system clock. A sleeping pet
    /// whose energy could not take another tick (above 250) is left as it
    /// was when a tick is due, where adding to its energy would overflow.
    pub fn apply_offline_decay(&mut self)
        ensures
            exists|t: u64| {
                &&& decay_ok(*old(self), t) ==> *final(self) == #[trigger] decayed(*old(self), t)
                &&& !decay_ok(*old(self), t) ==> *final(self) == *old(self)
            },
    {
        let t = now();
        if self.decay_ok_at(t) {
            self.apply_offline_decay_at(t);
        }
        assert(decay_ok(*old(self), t) ==> *self == decayed(*old(self), t));
    }

    /// XP the current level needs.
    pub fn xp_needed(&self) -> (r: u32)
        requires
            self.level * 100 <= u32::MAX,
        ensures
            r == self.level * 100,
    {
        self.level * 100
    }

    /// Earns `n` XP, carrying the surplus over each level up; true when the
    /// level went up.
    pub fn gain_xp(&mut self, n: u32) -> (leveled: bool)
        requires
            xp_ok(*old(self), n),
        ensures
            *final(self) == earned(*old(self), n),
            leveled == (final(self).level > old(self).level),
            total_xp(final(self).level as nat, final(self).xp as nat) == total_xp(
                old(self).level as nat,
                old(self).xp as nat,
            ) + n,
            final(self).xp < final(self).level * 100,
    {
        let ghost target = settle(old(self).level as nat, (old(self).xp + n) as nat);
        proof {
            lemma_settle(old(self).level as nat, (old(self).xp + n) as nat);
        }
        self.xp = self.xp + n;
        let mut leveled = false;
        while self.xp >= self.level * 100
            invariant
                settle(self.level as nat, self.xp as nat) == target,
                self.level <= target.0,
                target.0 * 100 <= u32::MAX,
                leveled == (self.level > old(self).level),
                self.level >= old(self).level,
                self.species == old(self).species,
                self.name == old(self).name,
                self.hunger == old(self).hunger,
                self.happiness == old(self).happiness,
                self.energy == old(self).energy,
                self.hygiene == old(self).hygiene,
                self.born == old(self).born,
                self.last_seen == old(self).last_seen,
                self.zen == old(self).zen,
                self.sleeping == old(self).sleeping,
                self.tick_parity == old(self).tick_parity,
            decreases self.xp, if self.level == 0 {
                1nat
            } else {
                0nat
            },
        {
            proof {
                lemma_settle(
                    if self.level == 0 {
                        1
                    } else {
                        (self.level + 1) as nat
                    },
                    (self.xp - self.level * 100) as nat,
                );
            }
            self.xp = self.xp - self.level * 100;
            self.level = self.level + 1;
            leveled = true;
        }
        leveled
    }

    /// Whether earning `n` XP keeps every number in range (see `xp_ok`).
    pub fn can_earn(&self, n: u32) -> (r: bool)
        ensures
            r == xp_ok(*self, n),
    {
        if self.xp as u64 + n as u64 > u32::MAX as u64 {
            return false;
        }
        let mut level: u64 = self.level as u64;
        let mut xp: u64 = self.xp as u64 + n as u64;
        let ghost target = settle(self.level as nat, (self.xp + n) as nat);
        proof {
            lemma_settle(self.level as nat, (self.xp + n) as nat);
        }
        while xp >= level * 100
            invariant
                settle(level as nat, xp as nat) == target,
                level <= target.0,
                xp <= u32::MAX,
                level <= u32::MAX as nat + xp,
            decreases xp, if level == 0 {
                1nat
            } else {
                0nat
            },
        {
            proof {
                lemma_settle(
                    if level == 0 {
                        1
                    } else {
                        (level + 1) as nat
                    },
                    (xp - level * 100) as nat,
                );
            }
            xp = xp - level * 100;
            level = level + 1;
        }
        level * 100 <= u32::MAX as u64
    }

    pub fn eat(&mut self, food: &Food) -> (leveled: bool)
        requires
            food_ok(*old(self), *food),
            xp_ok(fed(*old(self), *food), 5),
        ensures
            *final(self) == earned(fed(*old(self), *food), 5),
            leveled == (final(self).level > old(self).level),
    {
        self.hunger = adj(self.hunger, food.hunger);
        self.happiness = adj(self.happiness, food.happiness);
        self.energy = adj(self.energy, food.energy);
        self.hygiene = adj(self.hygiene, food.hygiene);
        self.gain_xp(5)
    }

    pub fn play(&mut self) -> (leveled: bool)
        requires
            xp_ok(
                Pet {
                    happiness: clamp100(old(self).happiness + 20),
                    energy: clamp100(old(self).energy - 10),
                    ..*old(self)
                },
                10,
            ),
        ensures
            *final(self) == earned(
                Pet {
                    happiness: clamp100(old(self).happiness + 20),
                    energy: clamp100(old(self).energy - 10),
                    ..*old(self)
                },
                10,
            ),
            leveled == (final(self).level > old(self).level),
    {
        self.happiness = adj(self.happiness, 20);
        self.energy = adj(self.energy, -10);
        self.gain_xp(10)
    }

    pub fn bathe(&mut self) -> (leveled: bool)
        requires
            xp_ok(Pet { hygiene: 100, ..*old(self) }, 5),
        ensures
            *final(self) == earned(Pet { hygiene: 100, ..*old(self) }, 5),
            leveled == (final(self).level > old(self).level),
    {
        self.hygiene = 100;
        self.gain_xp(5)
    }

    /// Day counter as of `now`.
    pub fn day_at(&self, now: u64) -> (r: u64)
        ensures
            r == day_of(self.born, now),
    {
        now.saturating_sub(self.born) / 86400 + 1
    }

    /// Day counter as of the system clock: 1 on the day of birth.
    pub fn day(&self) -> (r: u64)
        ensures
            exists|t: u64| r == day_of(self.born, t),
    {
        let t = now();
        self.day_at(t)
    }

    pub fn mood(&self) -> (m: Mood)
        ensures
            m == mood_of(*self),
    {
        if self.sleeping {
            Mood::Sleeping
        } else if !self.zen && self.hunger < 30 {
            Mood::Hungry
        } else if !self.zen && self.hygiene < 30 {
            Mood::Dirty
        } else if !self.zen && self.energy < 30 {
            Mood::Sleepy
        } else if !self.zen && self.happiness < 30 {
            Mood::Sad
        } else {
            Mood::Happy
        }
    }
}

/// Eye and mouth per mood; a blink closes the eyes of every mood but sleep.
pub open spec fn face_of(m: Mood, blink: bool) -> (char, char) {
    let (eye, mouth) = match m {
        Mood::Happy => ('█', 'w'),
        Mood::Hungry => ('O', 'o'),
        Mood::Dirty => (';', 'o'),
        Mood::Sleepy => ('▄', 'o'),
        Mood::Sad => (';', '~'),
        Mood::Sleeping => ('▄', '.'),
    };
    if blink && m != Mood::Sleeping {
        ('▄', mouth)
    } else {
        (eye, mouth)
    }
}

impl Mood {
    pub fn face(self, blink: bool) -> (r: (char, char))
        ensures
            r == face_of(self, blink),
    {
        let (eye, mouth) = match self {
            Mood::Happy => ('█', 'w'),
            Mood::Hungry => ('O', 'o'),
            Mood::Dirty => (';', 'o'),
            Mood::Sleepy => ('▄', 'o'),
            Mood::Sad => (';', '~'),
            Mood::Sleeping => ('▄', '.'),
        };
        if blink && self != Mood::Sleeping {
            ('▄', mouth)
        } else {
            (eye, mouth)
        }
    }
}

/// Zen mode stops all decay: any number of ticks, online or for time away,
/// leaves a zen pet as it was.
pub proof fn law_zen_never_decays(p: Pet, n: nat)
    requires
        p.zen,
    ensures
        ticked_n(p, n) == p,
    decreases n,
{
    if n > 0 {
        law_zen_never_decays(p, (n - 1) as nat);
    }
}

/// On an awake pet outside zen, one tick lowers hunger and energy by one (not
/// below zero) and hygiene by one on every other tick; happiness drops by one
/// (not below zero) exactly when hunger, energy or hygiene ends the tick under
/// 30, and otherwise stays as it was.
pub proof fn law_tick_awake(p: Pet)
    requires
        !p.zen,
        !p.sleeping,
    ensures
        ticked(p).hunger == (if p.hunger > 0 { p.hunger - 1 } else { 0 }),
        ticked(p).energy == (if p.energy > 0 { p.energy - 1 } else { 0 }),
        !p.tick_parity ==> ticked(p).hygiene == (if p.hygiene > 0 { p.hygiene - 1 } else { 0 }),
        p.tick_parity ==> ticked(p).hygiene == p.hygiene,
        ticked(p).hunger < 30 || ticked(p).energy < 30 || ticked(p).hygiene < 30
            ==> ticked(p).happiness == (if p.happiness > 0 { p.happiness - 1 } else { 0 }),
        ticked(p).hunger >= 30 && ticked(p).energy >= 30 && ticked(p).hygiene >= 30
            ==> ticked(p).happiness == p.happiness,
        !ticked(p).sleeping,
        !ticked(p).zen,
{
}

} // verus!
