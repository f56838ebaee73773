//! Persistence formats: the pet save and the schedule (reminders, timer,
//! pomodoro), both as `key=value` lines. Unknown keys and unparsable values
//! fall back to defaults, so old or hand-edited files never crash the app.
//! Reading and writing the files is the application's job.

use vstd::prelude::*;
use crate::pet::{newborn, Pet, PetV};
use crate::species::{species_from_id, species_id, Species};
use crate::text::{
    chars_eq_str, chars_of, dec, lines, lines_of, parse_max, parse_uint_max, push_all, push_dec,
    push_str, split_chars, split_on, split_once, split_once_chars, string_of, views,
};

verus! {

/// One `key=value` line.
pub open spec fn kv(key: Seq<char>, val: Seq<char>) -> Seq<char> {
    key + seq!['='] + val + seq!['\n']
}

pub open spec fn bool_text(b: bool) -> Seq<char> {
    if b {
        "true"@
    } else {
        "false"@
    }
}

/// The save file of a pet: every persisted field, one per line.
pub open spec fn pet_text(p: PetV) -> Seq<char> {
    kv("species"@, species_id(p.species)) + kv("name"@, p.name) + kv(
        "hunger"@,
        dec(p.hunger as nat),
    ) + kv("happiness"@, dec(p.happiness as nat)) + kv("energy"@, dec(p.energy as nat)) + kv(
        "hygiene"@,
        dec(p.hygiene as nat),
    ) + kv("xp"@, dec(p.xp as nat)) + kv("level"@, dec(p.level as nat)) + kv(
        "born"@,
        dec(p.born as nat),
    ) + kv("last_seen"@, dec(p.last_seen as nat)) + kv("zen"@, bool_text(p.zen))
}

fn push_kv(v: &mut Vec<char>, key: &str, val: &[char])
    ensures
        final(v)@ == old(v)@ + kv(key@, val@),
{
    push_str(v, key);
    v.push('=');
    push_all(v, val);
    v.push('\n');
    assert(final(v)@ =~= old(v)@ + kv(key@, val@));
}

fn dec_vec(n: u64) -> (r: Vec<char>)
    ensures
        r@ == dec(n as nat),
{
    let mut r: Vec<char> = Vec::new();
    push_dec(&mut r, n);
    assert(r@ =~= dec(n as nat));
    r
}

fn bool_vec(b: bool) -> (r: Vec<char>)
    ensures
        r@ == bool_text(b),
{
    if b {
        chars_of("true")
    } else {
        chars_of("false")
    }
}

pub fn serialize(pet: &Pet) -> (r: String)
    ensures
        r@ == pet_text(pet@),
{
    let mut v: Vec<char> = Vec::new();
    push_kv(&mut v, "species", chars_of(pet.species.id()).as_slice());
    push_kv(&mut v, "name", chars_of(pet.name.as_str()).as_slice());
    push_kv(&mut v, "hunger", dec_vec(pet.hunger as u64).as_slice());
    push_kv(&mut v, "happiness", dec_vec(pet.happiness as u64).as_slice());
    push_kv(&mut v, "energy", dec_vec(pet.energy as u64).as_slice());
    push_kv(&mut v, "hygiene", dec_vec(pet.hygiene as u64).as_slice());
    push_kv(&mut v, "xp", dec_vec(pet.xp as u64).as_slice());
    push_kv(&mut v, "level", dec_vec(pet.level as u64).as_slice());
    push_kv(&mut v, "born", dec_vec(pet.born).as_slice());
    push_kv(&mut v, "last_seen", dec_vec(pet.last_seen).as_slice());
    push_kv(&mut v, "zen", bool_vec(pet.zen).as_slice());
    assert(v@ =~= pet_text(pet@));
    string_of(v.as_slice())
}

pub open spec fn or_keep(o: Option<nat>, old: nat) -> nat {
    match o {
        Some(v) => v,
        None => old,
    }
}

/// One line of a save file applied to the pet read so far.
pub open spec fn apply_pet_line(p: PetV, line: Seq<char>) -> PetV {
    match split_once(line, '=') {
        None => p,
        Some((key, val)) => {
            if key == "species"@ {
                PetV {
                    species: match species_from_id(val) {
                        Some(s) => s,
                        None => p.species,
                    },
                    ..p
                }
            } else if key == "name"@ {
                PetV { name: val, ..p }
            } else if key == "hunger"@ {
                PetV { hunger: or_keep(parse_max(val, 255), p.hunger as nat) as u8, ..p }
            } else if key == "happiness"@ {
                PetV { happiness: or_keep(parse_max(val, 255), p.happiness as nat) as u8, ..p }
            } else if key == "energy"@ {
                PetV { energy: or_keep(parse_max(val, 255), p.energy as nat) as u8, ..p }
            } else if key == "hygiene"@ {
                PetV { hygiene: or_keep(parse_max(val, 255), p.hygiene as nat) as u8, ..p }
            } else if key == "xp"@ {
                PetV { xp: or_keep(parse_max(val, u32::MAX as nat), p.xp as nat) as u32, ..p }
            } else if key == "level"@ {
                PetV { level: or_keep(parse_max(val, u32::MAX as nat), p.level as nat) as u32, ..p }
            } else if key == "born"@ {
                PetV { born: or_keep(parse_max(val, u64::MAX as nat), p.born as nat) as u64, ..p }
            } else if key == "last_seen"@ {
                PetV {
                    last_seen: or_keep(parse_max(val, u64::MAX as nat), p.last_seen as nat) as u64,
                    ..p
                }
            } else if key == "zen"@ {
                PetV { zen: val == "true"@, ..p }
            } else {
                p
            }
        },
    }
}

/// The lines of a save file applied in order.
pub open spec fn apply_pet_lines(p: PetV, ls: Seq<Seq<char>>) -> PetV
    decreases ls.len(),
{
    if ls.len() == 0 {
        p
    } else {
        apply_pet_line(apply_pet_lines(p, ls.drop_last()), ls.last())
    }
}

fn parse_num(val: &[char], max: u64, old: u64) -> (r: u64)
    requires
        old <= max,
    ensures
        r == or_keep(parse_max(val@, max as nat), old as nat),
        r <= max,
{
    match parse_uint_max(val, max) {
        Some(v) => v,
        None => old,
    }
}

fn apply_line(pet: &mut Pet, line: &[char])
    ensures
        final(pet)@ == apply_pet_line(old(pet)@, line@),
{
    let Some((key, val)) = split_once_chars(line, '=') else { return };
    let k = key.as_slice();
    let v = val.as_slice();
    if chars_eq_str(k, "species") {
        let id = string_of(v);
        if let Some(s) = Species::from_id(id.as_str()) {
            pet.species = s;
        }
    } else if chars_eq_str(k, "name") {
        pet.name = string_of(v);
    } else if chars_eq_str(k, "hunger") {
        pet.hunger = parse_num(v, 255, pet.hunger as u64) as u8;
    } else if chars_eq_str(k, "happiness") {
        pet.happiness = parse_num(v, 255, pet.happiness as u64) as u8;
    } else if chars_eq_str(k, "energy") {
        pet.energy = parse_num(v, 255, pet.energy as u64) as u8;
    } else if chars_eq_str(k, "hygiene") {
        pet.hygiene = parse_num(v, 255, pet.hygiene as u64) as u8;
    } else if chars_eq_str(k, "xp") {
        pet.xp = parse_num(v, 0xffff_ffff, pet.xp as u64) as u32;
    } else if chars_eq_str(k, "level") {
        pet.level = parse_num(v, 0xffff_ffff, pet.level as u64) as u32;
    } else if chars_eq_str(k, "born") {
        pet.born = parse_num(v, u64::MAX, pet.born);
    } else if chars_eq_str(k, "last_seen") {
        pet.last_seen = parse_num(v, u64::MAX, pet.last_seen);
    } else if chars_eq_str(k, "zen") {
        pet.zen = chars_eq_str(v, "true");
    }
}

/// Applies a save file's lines onto `base`.
pub fn parse_onto(base: Pet, s: &str) -> (r: Pet)
    ensures
        r@ == apply_pet_lines(base@, lines(s@)),
{
    let mut pet = base;
    let ls = lines_of(chars_of(s).as_slice());
    let ghost lv = views(ls@);
    let mut i: usize = 0;
    assert(lv.take(0) =~= Seq::<Seq<char>>::empty());
    while i < ls.len()
        invariant
            i <= ls.len(),
            lv == views(ls@),
            pet@ == apply_pet_lines(base@, lv.take(i as int)),
        decreases ls.len() - i,
    {
        apply_line(&mut pet, ls[i].as_slice());
        i = i + 1;
        assert(lv.take(i as int).drop_last() =~= lv.take((i - 1) as int));
        assert(lv.take(i as int).last() == ls@[i - 1]@);
    }
    assert(lv.take(ls.len() as int) =~= lv);
    pet
}

/// Reads a save file: a newborn pet with every recognised line applied.
pub fn parse(s: &str) -> (r: Pet)
    ensures
        exists|t: u64| r@ == #[trigger] apply_pet_lines(newborn(t), lines(s@)),
{
    let base = Pet::default();
    let ghost t = base.born;
    assert(base@ == newborn(t));
    let r = parse_onto(base, s);
    assert(r@ == apply_pet_lines(newborn(t), lines(s@)));
    r
}

// ---------------------------------------------------------------------------
// The schedule

/// Anything overdue by more than this was missed while the app was closed.
pub const STALE_SECS: u64 = 3600;

#[derive(Debug, Clone, Copy, Default, PartialEq, Eq, Structural)]
pub struct PomoState {
    pub work: u64,
    pub rest: u64,
    pub focus: bool,
    pub until: u64,
    pub cycles: u32,
}

/// Everything time-based that outlives the process.
#[derive(Debug, Default, PartialEq)]
pub struct Schedule {
    /// (text, epoch)
    pub reminders: Vec<(String, u64)>,
    /// epoch
    pub timer: Option<u64>,
    pub pomo: Option<PomoState>,
}

pub struct ScheduleV {
    pub reminders: Seq<(Seq<char>, u64)>,
    pub timer: Option<u64>,
    pub pomo: Option<PomoState>,
}

pub open spec fn reminder_views(v: Seq<(String, u64)>) -> Seq<(Seq<char>, u64)> {
    v.map_values(|r: (String, u64)| (r.0@, r.1))
}

impl View for Schedule {
    type V = ScheduleV;

    open spec fn view(&self) -> ScheduleV {
        ScheduleV {
            reminders: reminder_views(self.reminders@),
            timer: self.timer,
            pomo: self.pomo,
        }
    }
}

/// Still worth firing at `now`: not overdue by `STALE_SECS` or more.
pub open spec fn fresh(at: u64, now: u64) -> bool {
    at + STALE_SECS > now
}

fn fresh_exec(at: u64, now: u64) -> (r: bool)
    ensures
        r == fresh(at, now),
{
    if now < STALE_SECS {
        true
    } else {
        at > now - STALE_SECS
    }
}

/// Line breaks in a reminder become spaces so it stays on one line.
pub open spec fn one_line(t: Seq<char>) -> Seq<char> {
    t.map_values(|c: char| if c == '\n' || c == '\r' { ' ' } else { c })
}

pub open spec fn reminders_text(rs: Seq<(Seq<char>, u64)>) -> Seq<char>
    decreases rs.len(),
{
    if rs.len() == 0 {
        Seq::empty()
    } else {
        reminders_text(rs.drop_last()) + "remind="@ + dec(rs.last().1 as nat) + seq![' ']
            + one_line(rs.last().0) + seq!['\n']
    }
}

pub open spec fn pomo_text(p: PomoState) -> Seq<char> {
    "pomo="@ + dec(p.work as nat) + seq![','] + dec(p.rest as nat) + seq![','] + bool_text(
        p.focus,
    ) + seq![','] + dec(p.until as nat) + seq![','] + dec(p.cycles as nat) + seq!['\n']
}

/// The schedule file: one `remind=` line per reminder (epoch, a space, the
/// text), then the timer and the pomodoro when there are any.
pub open spec fn schedule_text(s: ScheduleV) -> Seq<char> {
    reminders_text(s.reminders) + match s.timer {
        Some(u) => "timer="@ + dec(u as nat) + seq!['\n'],
        None => Seq::empty(),
    } + match s.pomo {
        Some(p) => pomo_text(p),
        None => Seq::empty(),
    }
}

fn push_one_line(v: &mut Vec<char>, t: &[char])
    ensures
        final(v)@ == old(v)@ + one_line(t@),
{
    let mut i: usize = 0;
    while i < t.len()
        invariant
            i <= t.len(),
            v@ == old(v)@ + one_line(t@.take(i as int)),
        decreases t.len() - i,
    {
        let c = t[i];
        v.push(
            if c == '\n' || c == '\r' {
                ' '
            } else {
                c
            },
        );
        i = i + 1;
        assert(one_line(t@.take(i as int)) =~= one_line(t@.take((i - 1) as int)).push(
            if c == '\n' || c == '\r' {
                ' '
            } else {
                c
            },
        ));
    }
    assert(t@.take(t.len() as int) =~= t@);
}

fn push_reminders(v: &mut Vec<char>, rs: &Vec<(String, u64)>)
    ensures
        final(v)@ == old(v)@ + reminders_text(reminder_views(rs@)),
{
    let ghost rv = reminder_views(rs@);
    let mut i: usize = 0;
    assert(rv.take(0) =~= Seq::<(Seq<char>, u64)>::empty());
    assert(old(v)@ + reminders_text(rv.take(0)) =~= old(v)@);
    while i < rs.len()
        invariant
            i <= rs.len(),
            rv == reminder_views(rs@),
            v@ == old(v)@ + reminders_text(rv.take(i as int)),
        decreases rs.len() - i,
    {
        let (text, at) = &rs[i];
        let ghost before = v@;
        push_str(v, "remind=");
        push_dec(v, *at);
        v.push(' ');
        push_one_line(v, chars_of(text.as_str()).as_slice());
        v.push('\n');
        i = i + 1;
        assert(rv.take(i as int).drop_last() =~= rv.take((i - 1) as int));
        assert(rv.take(i as int).last() == (text@, *at));
        assert(v@ =~= before + ("remind="@ + dec(*at as nat) + seq![' '] + one_line(text@)
            + seq!['\n']));
        assert(v@ =~= old(v)@ + reminders_text(rv.take(i as int)));
    }
    assert(rv.take(rs.len() as int) =~= rv);
}

fn push_pomo(v: &mut Vec<char>, p: PomoState)
    ensures
        final(v)@ == old(v)@ + pomo_text(p),
{
    push_str(v, "pomo=");
    push_dec(v, p.work);
    v.push(',');
    push_dec(v, p.rest);
    v.push(',');
    push_all(v, bool_vec(p.focus).as_slice());
    v.push(',');
    push_dec(v, p.until);
    v.push(',');
    push_dec(v, p.cycles as u64);
    v.push('\n');
    assert(final(v)@ =~= old(v)@ + pomo_text(p));
}

pub fn serialize_schedule(s: &Schedule) -> (r: String)
    ensures
        r@ == schedule_text(s@),
{
    let mut v: Vec<char> = Vec::new();
    push_reminders(&mut v, &s.reminders);
    let ghost after_reminders = v@;
    assert(after_reminders =~= reminders_text(s@.reminders));
    if let Some(until) = s.timer {
        push_str(&mut v, "timer=");
        push_dec(&mut v, until);
        v.push('\n');
    }
    let ghost after_timer = v@;
    assert(after_timer =~= after_reminders + match s.timer {
        Some(u) => "timer="@ + dec(u as nat) + seq!['\n'],
        None => Seq::<char>::empty(),
    });
    if let Some(p) = s.pomo {
        push_pomo(&mut v, p);
    }
    assert(v@ =~= schedule_text(s@));
    string_of(v.as_slice())
}

/// The five comma-separated pomodoro fields, when they all read.
pub open spec fn pomo_of(val: Seq<char>) -> Option<PomoState> {
    let f = split_on(val, ',');
    if f.len() != 5 {
        None
    } else {
        match (
            parse_max(f[0], u64::MAX as nat),
            parse_max(f[1], u64::MAX as nat),
            parse_max(f[3], u64::MAX as nat),
            parse_max(f[4], u32::MAX as nat),
        ) {
            (Some(work), Some(rest), Some(until), Some(cycles)) => Some(
                PomoState {
                    work: work as u64,
                    rest: rest as u64,
                    focus: f[2] == "true"@,
                    until: until as u64,
                    cycles: cycles as u32,
                },
            ),
            _ => None,
        }
    }
}

/// One line of a schedule file applied to what was read so far. Reminders
/// and a timer that went stale while the app was closed are dropped.
pub open spec fn apply_schedule_line(s: ScheduleV, line: Seq<char>, now: u64) -> ScheduleV {
    match split_once(line, '=') {
        None => s,
        Some((key, val)) => {
            if key == "remind"@ {
                match split_once(val, ' ') {
                    None => s,
                    Some((at, text)) => match parse_max(at, u64::MAX as nat) {
                        None => s,
                        Some(at) => if fresh(at as u64, now) {
                            ScheduleV { reminders: s.reminders.push((text, at as u64)), ..s }
                        } else {
                            s
                        },
                    },
                }
            } else if key == "timer"@ {
                ScheduleV {
                    timer: match parse_max(val, u64::MAX as nat) {
                        Some(at) => if fresh(at as u64, now) {
                            Some(at as u64)
                        } else {
                            None
                        },
                        None => None,
                    },
                    ..s
                }
            } else if key == "pomo"@ {
                match pomo_of(val) {
                    Some(p) => ScheduleV { pomo: Some(p), ..s },
                    None => s,
                }
            } else {
                s
            }
        },
    }
}

pub open spec fn apply_schedule_lines(s: ScheduleV, ls: Seq<Seq<char>>, now: u64) -> ScheduleV
    decreases ls.len(),
{
    if ls.len() == 0 {
        s
    } else {
        apply_schedule_line(apply_schedule_lines(s, ls.drop_last(), now), ls.last(), now)
    }
}

pub open spec fn empty_schedule() -> ScheduleV {
    ScheduleV { reminders: Seq::empty(), timer: None, pomo: None }
}

fn pomo_exec(val: &[char]) -> (r: Option<PomoState>)
    ensures
        r == pomo_of(val@),
{
    let f = split_chars(val, ',');
    let ghost fv = views(f@);
    if f.len() != 5 {
        return None;
    }
    assert(fv[0] == f@[0]@ && fv[1] == f@[1]@ && fv[2] == f@[2]@ && fv[3] == f@[3]@ && fv[4]
        == f@[4]@);
    let work = parse_uint_max(f[0].as_slice(), u64::MAX);
    let rest = parse_uint_max(f[1].as_slice(), u64::MAX);
    let until = parse_uint_max(f[3].as_slice(), u64::MAX);
    let cycles = parse_uint_max(f[4].as_slice(), 0xffff_ffff);
    match (work, rest, until, cycles) {
        (Some(work), Some(rest), Some(until), Some(cycles)) => Some(
            PomoState {
                work,
                rest,
                focus: chars_eq_str(f[2].as_slice(), "true"),
                until,
                cycles: cycles as u32,
            },
        ),
        _ => None,
    }
}

fn apply_schedule_line_exec(out: &mut Schedule, line: &[char], now: u64)
    ensures
        final(out)@ == apply_schedule_line(old(out)@, line@, now),
{
    let Some((key, val)) = split_once_chars(line, '=') else { return };
    let k = key.as_slice();
    let v = val.as_slice();
    if chars_eq_str(k, "remind") {
        let Some((at, text)) = split_once_chars(v, ' ') else { return };
        let Some(at) = parse_uint_max(at.as_slice(), u64::MAX) else { return };
        if fresh_exec(at, now) {
            let ghost before = reminder_views(out.reminders@);
            out.reminders.push((string_of(text.as_slice()), at));
            assert(reminder_views(out.reminders@) =~= before.push((text@, at)));
        }
    } else if chars_eq_str(k, "timer") {
        out.timer = match parse_uint_max(v, u64::MAX) {
            Some(at) => if fresh_exec(at, now) {
                Some(at)
            } else {
                None
            },
            None => None,
        };
    } else if chars_eq_str(k, "pomo") {
        if let Some(p) = pomo_exec(v) {
            out.pomo = Some(p);
        }
    }
}

/// Reads a schedule file as of `now`.
pub fn parse_schedule(s: &str, now: u64) -> (r: Schedule)
    ensures
        r@ == apply_schedule_lines(empty_schedule(), lines(s@), now),
{
    let mut out = Schedule { reminders: Vec::new(), timer: None, pomo: None };
    let ls = lines_of(chars_of(s).as_slice());
    let ghost lv = views(ls@);
    let mut i: usize = 0;
    assert(lv.take(0) =~= Seq::<Seq<char>>::empty());
    assert(reminder_views(out.reminders@) =~= Seq::<(Seq<char>, u64)>::empty());
    while i < ls.len()
        invariant
            i <= ls.len(),
            lv == views(ls@),
            out@ == apply_schedule_lines(empty_schedule(), lv.take(i as int), now),
        decreases ls.len() - i,
    {
        apply_schedule_line_exec(&mut out, ls[i].as_slice(), now);
        i = i + 1;
        assert(lv.take(i as int).drop_last() =~= lv.take((i - 1) as int));
        assert(lv.take(i as int).last() == ls@[i - 1]@);
    }
    assert(lv.take(ls.len() as int) =~= lv);
    out
}

} // verus!

verus! {

/// A name the save file carries unchanged: no line break in it, and no
/// carriage return at its end.
pub open spec fn savable_name(name: Seq<char>) -> bool {
    !name.contains('\n') && crate::text::strip_cr(name) == name
}

pub open spec fn key_line(key: Seq<char>, val: Seq<char>) -> Seq<char> {
    key + seq!['='] + val
}

proof fn lemma_key_line(key: Seq<char>, val: Seq<char>)
    requires
        !key.contains('\n'),
        !key.contains('='),
        !val.contains('\n'),
        key.len() > 0,
        val.len() > 0 ==> val.last() != '\r',
    ensures
        !key_line(key, val).contains('\n'),
        crate::text::strip_cr(key_line(key, val)) == key_line(key, val),
        split_once(key_line(key, val), '=') == Some((key, val)),
{
    let l = key_line(key, val);
    assert forall|k: int| 0 <= k < l.len() implies l[k] != '\n' by {
        if k < key.len() {
            assert(l[k] == key[k]);
            if key[k] == '\n' {
                assert(key.contains('\n'));
            }
        } else if k > key.len() {
            assert(l[k] == val[k - key.len() - 1]);
            if val[k - key.len() - 1] == '\n' {
                assert(val.contains('\n'));
            }
        }
    }
    if val.len() > 0 {
        assert(l.last() == val.last());
    } else {
        assert(l.last() == '=');
    }
    crate::text::lemma_split_once_key(key, val);
}

/// The lines of a pet's save file, in the order `pet_text` writes them.
pub open spec fn pet_lines(p: PetV) -> Seq<Seq<char>> {
    seq![
        key_line("species"@, species_id(p.species)),
        key_line("name"@, p.name),
        key_line("hunger"@, dec(p.hunger as nat)),
        key_line("happiness"@, dec(p.happiness as nat)),
        key_line("energy"@, dec(p.energy as nat)),
        key_line("hygiene"@, dec(p.hygiene as nat)),
        key_line("xp"@, dec(p.xp as nat)),
        key_line("level"@, dec(p.level as nat)),
        key_line("born"@, dec(p.born as nat)),
        key_line("last_seen"@, dec(p.last_seen as nat)),
        key_line("zen"@, bool_text(p.zen)),
    ]
}

/// A key of the save file: lower-case letters and underscores.
pub open spec fn plain_key(k: Seq<char>) -> bool {
    &&& k.len() > 0
    &&& forall|i: int| 0 <= i < k.len() ==> ('a' <= #[trigger] k[i] <= 'z' || k[i] == '_')
}

proof fn lemma_plain_key(k: Seq<char>)
    requires
        plain_key(k),
    ensures
        !k.contains('\n'),
        !k.contains('='),
        k.len() > 0,
{
    if k.contains('\n') {
        let i = choose|i: int| 0 <= i < k.len() && k[i] == '\n';
        assert('a' <= k[i] <= 'z' || k[i] == '_');
    }
    if k.contains('=') {
        let i = choose|i: int| 0 <= i < k.len() && k[i] == '=';
        assert('a' <= k[i] <= 'z' || k[i] == '_');
    }
}

proof fn lemma_keys_plain()
    ensures
        plain_key("species"@),
        plain_key("name"@),
        plain_key("hunger"@),
        plain_key("happiness"@),
        plain_key("energy"@),
        plain_key("hygiene"@),
        plain_key("xp"@),
        plain_key("level"@),
        plain_key("born"@),
        plain_key("last_seen"@),
        plain_key("zen"@),
{
    reveal_strlit("species");
    reveal_strlit("name");
    reveal_strlit("hunger");
    reveal_strlit("happiness");
    reveal_strlit("energy");
    reveal_strlit("hygiene");
    reveal_strlit("xp");
    reveal_strlit("level");
    reveal_strlit("born");
    reveal_strlit("last_seen");
    reveal_strlit("zen");
}

proof fn lemma_bool_text_plain(b: bool)
    ensures
        !bool_text(b).contains('\n'),
        bool_text(b).len() > 0,
        bool_text(b).last() != '\r',
        (bool_text(b) == "true"@) == b,
{
    reveal_strlit("true");
    reveal_strlit("false");
    lemma_plain_key(bool_text(b));
}

proof fn lemma_pet_lines_plain(p: PetV)
    requires
        savable_name(p.name),
    ensures
        forall|i: int|
            0 <= i < pet_lines(p).len() ==> !(#[trigger] pet_lines(p)[i]).contains('\n'),
        forall|i: int|
            0 <= i < pet_lines(p).len() ==> crate::text::strip_cr(#[trigger] pet_lines(p)[i])
                == pet_lines(p)[i],
{
    lemma_keys_plain();
    lemma_plain_key("species"@);
    lemma_plain_key("name"@);
    lemma_plain_key("hunger"@);
    lemma_plain_key("happiness"@);
    lemma_plain_key("energy"@);
    lemma_plain_key("hygiene"@);
    lemma_plain_key("xp"@);
    lemma_plain_key("level"@);
    lemma_plain_key("born"@);
    lemma_plain_key("last_seen"@);
    lemma_plain_key("zen"@);
    lemma_species_id_plain(p.species);
    lemma_bool_text_plain(p.zen);
    lemma_dec_line(p.hunger as nat);
    lemma_dec_line(p.happiness as nat);
    lemma_dec_line(p.energy as nat);
    lemma_dec_line(p.hygiene as nat);
    lemma_dec_line(p.xp as nat);
    lemma_dec_line(p.level as nat);
    lemma_dec_line(p.born as nat);
    lemma_dec_line(p.last_seen as nat);
    if p.name.len() > 0 && p.name.last() == '\r' {
        assert(crate::text::strip_cr(p.name).len() < p.name.len());
    }
    lemma_key_line("species"@, species_id(p.species));
    lemma_key_line("name"@, p.name);
    lemma_key_line("hunger"@, dec(p.hunger as nat));
    lemma_key_line("happiness"@, dec(p.happiness as nat));
    lemma_key_line("energy"@, dec(p.energy as nat));
    lemma_key_line("hygiene"@, dec(p.hygiene as nat));
    lemma_key_line("xp"@, dec(p.xp as nat));
    lemma_key_line("level"@, dec(p.level as nat));
    lemma_key_line("born"@, dec(p.born as nat));
    lemma_key_line("last_seen"@, dec(p.last_seen as nat));
    lemma_key_line("zen"@, bool_text(p.zen));
}

proof fn lemma_dec_line(n: nat)
    ensures
        !dec(n).contains('\n'),
        dec(n).len() > 0,
        dec(n).last() != '\r',
{
    crate::text::lemma_dec_plain(n);
    assert(dec(n)[dec(n).len() - 1] == dec(n).last());
}

proof fn lemma_joined_step(ls: Seq<Seq<char>>, k: int)
    requires
        0 <= k < ls.len(),
    ensures
        crate::text::joined(ls.take(k + 1)) == crate::text::joined(ls.take(k)) + ls[k] + seq![
            '\n',
        ],
{
    assert(ls.take(k + 1).drop_last() =~= ls.take(k));
}

/// The save file's lines, each with its line break, in order.
spec fn pet_kvs(p: PetV) -> Seq<Seq<char>> {
    seq![
        kv("species"@, species_id(p.species)),
        kv("name"@, p.name),
        kv("hunger"@, dec(p.hunger as nat)),
        kv("happiness"@, dec(p.happiness as nat)),
        kv("energy"@, dec(p.energy as nat)),
        kv("hygiene"@, dec(p.hygiene as nat)),
        kv("xp"@, dec(p.xp as nat)),
        kv("level"@, dec(p.level as nat)),
        kv("born"@, dec(p.born as nat)),
        kv("last_seen"@, dec(p.last_seen as nat)),
        kv("zen"@, bool_text(p.zen)),
    ]
}

proof fn lemma_joined_kv(p: PetV, k: int)
    requires
        0 <= k < 11,
    ensures
        crate::text::joined(pet_lines(p).take(k + 1)) == crate::text::joined(pet_lines(p).take(k))
            + pet_kvs(p)[k],
{
    let ls = pet_lines(p);
    lemma_joined_step(ls, k);
    assert(ls[k] + seq!['\n'] =~= pet_kvs(p)[k]);
}

#[verifier::rlimit(40)]
proof fn lemma_pet_joined(p: PetV)
    ensures
        crate::text::joined(pet_lines(p)) == pet_text(p),
{
    let ls = pet_lines(p);
    let kvs = pet_kvs(p);
    assert(crate::text::joined(ls.take(0)) == Seq::<char>::empty());
    lemma_joined_kv(p, 0);
    lemma_joined_kv(p, 1);
    lemma_joined_kv(p, 2);
    lemma_joined_kv(p, 3);
    lemma_joined_kv(p, 4);
    lemma_joined_kv(p, 5);
    lemma_joined_kv(p, 6);
    lemma_joined_kv(p, 7);
    lemma_joined_kv(p, 8);
    lemma_joined_kv(p, 9);
    lemma_joined_kv(p, 10);
    assert(ls.take(11) =~= ls);
    let j = crate::text::joined(ls);
    assert(j == Seq::<char>::empty() + kvs[0] + kvs[1] + kvs[2] + kvs[3] + kvs[4] + kvs[5]
        + kvs[6] + kvs[7] + kvs[8] + kvs[9] + kvs[10]);
    assert(Seq::<char>::empty() + kvs[0] =~= kvs[0]);
}

proof fn lemma_pet_lines(p: PetV)
    requires
        savable_name(p.name),
    ensures
        lines(pet_text(p)) == pet_lines(p),
{
    lemma_pet_lines_plain(p);
    crate::text::lemma_lines_joined(pet_lines(p));
    lemma_pet_joined(p);
}

proof fn lemma_line_parts(key: Seq<char>, val: Seq<char>)
    requires
        plain_key(key),
    ensures
        split_once(key_line(key, val), '=') == Some((key, val)),
{
    lemma_plain_key(key);
    crate::text::lemma_split_once_key(key, val);
}

proof fn lemma_step_species(q: PetV, p: PetV)
    ensures
        apply_pet_line(q, key_line("species"@, species_id(p.species))) == (PetV {
            species: p.species,
            ..q
        }),
{
    lemma_keys_plain();
    lemma_line_parts("species"@, species_id(p.species));
    crate::species::law_species_id_round_trip(p.species);
}

proof fn lemma_step_name(q: PetV, p: PetV)
    ensures
        apply_pet_line(q, key_line("name"@, p.name)) == (PetV { name: p.name, ..q }),
{
    lemma_keys_plain();
    lemma_line_parts("name"@, p.name);
    reveal_strlit("species");
    reveal_strlit("name");
}

proof fn lemma_step_hunger(q: PetV, p: PetV)
    ensures
        apply_pet_line(q, key_line("hunger"@, dec(p.hunger as nat))) == (PetV {
            hunger: p.hunger,
            ..q
        }),
{
    lemma_keys_plain();
    lemma_line_parts("hunger"@, dec(p.hunger as nat));
    crate::text::lemma_parse_dec(p.hunger as nat);
    reveal_strlit("species");
    reveal_strlit("name");
    reveal_strlit("hunger");
}

proof fn lemma_step_happiness(q: PetV, p: PetV)
    ensures
        apply_pet_line(q, key_line("happiness"@, dec(p.happiness as nat))) == (PetV {
            happiness: p.happiness,
            ..q
        }),
{
    lemma_keys_plain();
    lemma_line_parts("happiness"@, dec(p.happiness as nat));
    crate::text::lemma_parse_dec(p.happiness as nat);
    reveal_strlit("species");
    reveal_strlit("name");
    reveal_strlit("hunger");
    reveal_strlit("happiness");
}

proof fn lemma_step_energy(q: PetV, p: PetV)
    ensures
        apply_pet_line(q, key_line("energy"@, dec(p.energy as nat))) == (PetV {
            energy: p.energy,
            ..q
        }),
{
    lemma_keys_plain();
    lemma_line_parts("energy"@, dec(p.energy as nat));
    crate::text::lemma_parse_dec(p.energy as nat);
    reveal_strlit("species");
    reveal_strlit("name");
    reveal_strlit("hunger");
    reveal_strlit("happiness");
    reveal_strlit("energy");
}

proof fn lemma_step_hygiene(q: PetV, p: PetV)
    ensures
        apply_pet_line(q, key_line("hygiene"@, dec(p.hygiene as nat))) == (PetV {
            hygiene: p.hygiene,
            ..q
        }),
{
    lemma_keys_plain();
    lemma_line_parts("hygiene"@, dec(p.hygiene as nat));
    crate::text::lemma_parse_dec(p.hygiene as nat);
    reveal_strlit("species");
    reveal_strlit("name");
    reveal_strlit("hunger");
    reveal_strlit("happiness");
    reveal_strlit("energy");
    reveal_strlit("hygiene");
}

proof fn lemma_step_xp(q: PetV, p: PetV)
    ensures
        apply_pet_line(q, key_line("xp"@, dec(p.xp as nat))) == (PetV { xp: p.xp, ..q }),
{
    lemma_keys_plain();
    lemma_line_parts("xp"@, dec(p.xp as nat));
    crate::text::lemma_parse_dec(p.xp as nat);
    reveal_strlit("species");
    reveal_strlit("name");
    reveal_strlit("hunger");
    reveal_strlit("happiness");
    reveal_strlit("energy");
    reveal_strlit("hygiene");
    reveal_strlit("xp");
}

proof fn lemma_step_level(q: PetV, p: PetV)
    ensures
        apply_pet_line(q, key_line("level"@, dec(p.level as nat))) == (PetV {
            level: p.level,
            ..q
        }),
{
    lemma_keys_plain();
    lemma_line_parts("level"@, dec(p.level as nat));
    crate::text::lemma_parse_dec(p.level as nat);
    reveal_strlit("species");
    reveal_strlit("name");
    reveal_strlit("hunger");
    reveal_strlit("happiness");
    reveal_strlit("energy");
    reveal_strlit("hygiene");
    reveal_strlit("xp");
    reveal_strlit("level");
}

proof fn lemma_step_born(q: PetV, p: PetV)
    ensures
        apply_pet_line(q, key_line("born"@, dec(p.born as nat))) == (PetV {
            born: p.born,
            ..q
        }),
{
    lemma_keys_plain();
    lemma_line_parts("born"@, dec(p.born as nat));
    crate::text::lemma_parse_dec(p.born as nat);
    reveal_strlit("species");
    reveal_strlit("name");
    reveal_strlit("hunger");
    reveal_strlit("happiness");
    reveal_strlit("energy");
    reveal_strlit("hygiene");
    reveal_strlit("xp");
    reveal_strlit("level");
    reveal_strlit("born");
}

proof fn lemma_step_last_seen(q: PetV, p: PetV)
    ensures
        apply_pet_line(q, key_line("last_seen"@, dec(p.last_seen as nat))) == (PetV {
            last_seen: p.last_seen,
            ..q
        }),
{
    lemma_keys_plain();
    lemma_line_parts("last_seen"@, dec(p.last_seen as nat));
    crate::text::lemma_parse_dec(p.last_seen as nat);
    reveal_strlit("species");
    reveal_strlit("name");
    reveal_strlit("hunger");
    reveal_strlit("happiness");
    reveal_strlit("energy");
    reveal_strlit("hygiene");
    reveal_strlit("xp");
    reveal_strlit("level");
    reveal_strlit("born");
    reveal_strlit("last_seen");
}

proof fn lemma_step_zen(q: PetV, p: PetV)
    ensures
        apply_pet_line(q, key_line("zen"@, bool_text(p.zen))) == (PetV { zen: p.zen, ..q }),
{
    lemma_keys_plain();
    lemma_line_parts("zen"@, bool_text(p.zen));
    lemma_bool_text_plain(p.zen);
    reveal_strlit("species");
    reveal_strlit("name");
    reveal_strlit("hunger");
    reveal_strlit("happiness");
    reveal_strlit("energy");
    reveal_strlit("hygiene");
    reveal_strlit("xp");
    reveal_strlit("level");
    reveal_strlit("born");
    reveal_strlit("last_seen");
    reveal_strlit("zen");
}

/// What a read gives back of a write: a pet saved and read back is the same
/// pet (the runtime-only `sleeping` and `tick_parity` read back cleared),
/// whatever the clock says at reading time, for every name that holds no
/// line break and does not end in a carriage return.
pub proof fn law_pet_save_round_trip(p: PetV, t: u64)
    requires
        savable_name(p.name),
    ensures
        apply_pet_lines(newborn(t), lines(pet_text(p))) == (PetV {
            sleeping: false,
            tick_parity: false,
            ..p
        }),
{
    lemma_pet_lines(p);
    let ls = pet_lines(p);
    let p0 = newborn(t);
    lemma_apply_eleven(p0, ls);
    lemma_step_species(p0, p);
    let p1 = apply_pet_line(p0, ls[0]);
    lemma_step_name(p1, p);
    let p2 = apply_pet_line(p1, ls[1]);
    lemma_step_hunger(p2, p);
    let p3 = apply_pet_line(p2, ls[2]);
    lemma_step_happiness(p3, p);
    let p4 = apply_pet_line(p3, ls[3]);
    lemma_step_energy(p4, p);
    let p5 = apply_pet_line(p4, ls[4]);
    lemma_step_hygiene(p5, p);
    let p6 = apply_pet_line(p5, ls[5]);
    lemma_step_xp(p6, p);
    let p7 = apply_pet_line(p6, ls[6]);
    lemma_step_level(p7, p);
    let p8 = apply_pet_line(p7, ls[7]);
    lemma_step_born(p8, p);
    let p9 = apply_pet_line(p8, ls[8]);
    lemma_step_last_seen(p9, p);
    let p10 = apply_pet_line(p9, ls[9]);
    lemma_step_zen(p10, p);
}

proof fn lemma_apply_eleven(p0: PetV, ls: Seq<Seq<char>>)
    requires
        ls.len() == 11,
    ensures
        apply_pet_lines(p0, ls) == apply_pet_line(
            apply_pet_line(
                apply_pet_line(
                    apply_pet_line(
                        apply_pet_line(
                            apply_pet_line(
                                apply_pet_line(
                                    apply_pet_line(
                                        apply_pet_line(
                                            apply_pet_line(apply_pet_line(p0, ls[0]), ls[1]),
                                            ls[2],
                                        ),
                                        ls[3],
                                    ),
                                    ls[4],
                                ),
                                ls[5],
                            ),
                            ls[6],
                        ),
                        ls[7],
                    ),
                    ls[8],
                ),
                ls[9],
            ),
            ls[10],
        ),
{
    assert(apply_pet_lines(p0, ls.take(0)) == p0);
    assert(ls.take(1).drop_last() =~= ls.take(0));
    assert(ls.take(2).drop_last() =~= ls.take(1));
    assert(ls.take(3).drop_last() =~= ls.take(2));
    assert(ls.take(4).drop_last() =~= ls.take(3));
    assert(ls.take(5).drop_last() =~= ls.take(4));
    assert(ls.take(6).drop_last() =~= ls.take(5));
    assert(ls.take(7).drop_last() =~= ls.take(6));
    assert(ls.take(8).drop_last() =~= ls.take(7));
    assert(ls.take(9).drop_last() =~= ls.take(8));
    assert(ls.take(10).drop_last() =~= ls.take(9));
    assert(ls.drop_last() =~= ls.take(10));
    assert(apply_pet_lines(p0, ls.take(1)) == apply_pet_line(p0, ls[0]));
    assert(apply_pet_lines(p0, ls.take(2)) == apply_pet_line(apply_pet_lines(p0, ls.take(1)), ls[1]));
    assert(apply_pet_lines(p0, ls.take(3)) == apply_pet_line(apply_pet_lines(p0, ls.take(2)), ls[2]));
    assert(apply_pet_lines(p0, ls.take(4)) == apply_pet_line(apply_pet_lines(p0, ls.take(3)), ls[3]));
    assert(apply_pet_lines(p0, ls.take(5)) == apply_pet_line(apply_pet_lines(p0, ls.take(4)), ls[4]));
    assert(apply_pet_lines(p0, ls.take(6)) == apply_pet_line(apply_pet_lines(p0, ls.take(5)), ls[5]));
    assert(apply_pet_lines(p0, ls.take(7)) == apply_pet_line(apply_pet_lines(p0, ls.take(6)), ls[6]));
    assert(apply_pet_lines(p0, ls.take(8)) == apply_pet_line(apply_pet_lines(p0, ls.take(7)), ls[7]));
    assert(apply_pet_lines(p0, ls.take(9)) == apply_pet_line(apply_pet_lines(p0, ls.take(8)), ls[8]));
    assert(apply_pet_lines(p0, ls.take(10)) == apply_pet_line(apply_pet_lines(p0, ls.take(9)), ls[9]));
    assert(apply_pet_lines(p0, ls) == apply_pet_line(apply_pet_lines(p0, ls.take(10)), ls[10]));
}

proof fn lemma_species_id_plain(s: Species)
    ensures
        !species_id(s).contains('\n'),
        species_id(s).len() > 0,
        species_id(s).last() != '\r',
{
    reveal_strlit("cat");
    reveal_strlit("dog");
    reveal_strlit("bunny");
    reveal_strlit("dragon");
    reveal_strlit("ghost");
    reveal_strlit("frog");
    reveal_strlit("owl");
    reveal_strlit("fox");
    reveal_strlit("penguin");
    reveal_strlit("octopus");
    assert forall|i: int| 0 <= i < species_id(s).len() implies species_id(s)[i] != '\n' by {}
}

} // verus!

verus! {

// ---------------------------------------------------------------------------
// The schedule file read back

/// A reminder text the schedule file keeps as written: on one line.
pub open spec fn one_line_text(t: Seq<char>) -> bool {
    !t.contains('\n') && !t.contains('\r')
}

spec fn rem_line(r: (Seq<char>, u64)) -> Seq<char> {
    key_line("remind"@, dec(r.1 as nat) + seq![' '] + r.0)
}

spec fn rem_lines(rs: Seq<(Seq<char>, u64)>) -> Seq<Seq<char>> {
    Seq::new(rs.len(), |i: int| rem_line(rs[i]))
}

spec fn pomo_val(p: PomoState) -> Seq<char> {
    dec(p.work as nat) + seq![','] + dec(p.rest as nat) + seq![','] + bool_text(p.focus) + seq![',']
        + dec(p.until as nat) + seq![','] + dec(p.cycles as nat)
}

spec fn sched_lines(s: ScheduleV) -> Seq<Seq<char>> {
    rem_lines(s.reminders) + match s.timer {
        Some(u) => seq![key_line("timer"@, dec(u as nat))],
        None => Seq::empty(),
    } + match s.pomo {
        Some(p) => seq![key_line("pomo"@, pomo_val(p))],
        None => Seq::empty(),
    }
}

proof fn lemma_joined_concat(a: Seq<Seq<char>>, b: Seq<Seq<char>>)
    ensures
        crate::text::joined(a + b) == crate::text::joined(a) + crate::text::joined(b),
    decreases b.len(),
{
    if b.len() == 0 {
        assert(a + b =~= a);
        assert(crate::text::joined(a) + crate::text::joined(b) =~= crate::text::joined(a));
    } else {
        lemma_joined_concat(a, b.drop_last());
        assert((a + b).drop_last() =~= a + b.drop_last());
        assert((a + b).last() == b.last());
    }
}

proof fn lemma_one_line_same(t: Seq<char>)
    requires
        one_line_text(t),
    ensures
        one_line(t) == t,
{
    assert forall|k: int| 0 <= k < t.len() implies one_line(t)[k] == t[k] by {
        if t[k] == '\n' || t[k] == '\r' {
            assert(t.contains(t[k]));
        }
    }
    assert(one_line(t) =~= t);
}

proof fn lemma_rem_joined(rs: Seq<(Seq<char>, u64)>)
    requires
        forall|i: int| 0 <= i < rs.len() ==> one_line_text(#[trigger] rs[i].0),
    ensures
        crate::text::joined(rem_lines(rs)) == reminders_text(rs),
    decreases rs.len(),
{
    if rs.len() > 0 {
        let init = rs.drop_last();
        assert forall|i: int| 0 <= i < init.len() implies one_line_text(#[trigger] init[i].0) by {
            assert(init[i] == rs[i]);
        }
        lemma_rem_joined(init);
        assert(rem_lines(rs).drop_last() =~= rem_lines(init));
        assert(rs[rs.len() - 1] == rs.last());
        lemma_one_line_same(rs.last().0);
        reveal_strlit("remind");
        reveal_strlit("remind=");
        assert(rem_lines(rs).last() + seq!['\n'] =~= "remind="@ + dec(rs.last().1 as nat) + seq![' ']
            + one_line(rs.last().0) + seq!['\n']);
    }
}

proof fn lemma_sched_joined(s: ScheduleV)
    requires
        forall|i: int| 0 <= i < s.reminders.len() ==> one_line_text(#[trigger] s.reminders[i].0),
    ensures
        crate::text::joined(sched_lines(s)) == schedule_text(s),
{
    let r = rem_lines(s.reminders);
    let tl: Seq<Seq<char>> = match s.timer {
        Some(u) => seq![key_line("timer"@, dec(u as nat))],
        None => Seq::empty(),
    };
    let pl: Seq<Seq<char>> = match s.pomo {
        Some(p) => seq![key_line("pomo"@, pomo_val(p))],
        None => Seq::empty(),
    };
    lemma_rem_joined(s.reminders);
    lemma_joined_concat(r, tl);
    lemma_joined_concat(r + tl, pl);
    reveal_strlit("timer");
    reveal_strlit("timer=");
    reveal_strlit("pomo");
    reveal_strlit("pomo=");
    match s.timer {
        Some(u) => {
            assert(tl.drop_last() =~= Seq::<Seq<char>>::empty());
            assert(crate::text::joined(tl.drop_last()) == Seq::<char>::empty());
            assert(tl.last() == key_line("timer"@, dec(u as nat)));
            assert("timer="@ =~= "timer"@ + seq!['=']);
            assert(crate::text::joined(tl) =~= "timer="@ + dec(u as nat) + seq!['\n']);
        },
        None => {
            assert(crate::text::joined(tl) =~= Seq::<char>::empty());
        },
    }
    match s.pomo {
        Some(p) => {
            assert(pl.drop_last() =~= Seq::<Seq<char>>::empty());
            assert(crate::text::joined(pl.drop_last()) == Seq::<char>::empty());
            assert(pl.last() == key_line("pomo"@, pomo_val(p)));
            assert("pomo="@ =~= "pomo"@ + seq!['=']);
            assert(crate::text::joined(pl) =~= pomo_text(p));
        },
        None => {
            assert(crate::text::joined(pl) =~= Seq::<char>::empty());
        },
    }
    assert(crate::text::joined(sched_lines(s)) =~= schedule_text(s));
}

proof fn lemma_bool_no_comma(b: bool)
    ensures
        !bool_text(b).contains(','),
        !bool_text(b).contains('\n'),
{
    reveal_strlit("true");
    reveal_strlit("false");
    if bool_text(b).contains(',') {
        let k = choose|k: int| 0 <= k < bool_text(b).len() && bool_text(b)[k] == ',';
        assert(false);
    }
    if bool_text(b).contains('\n') {
        let k = choose|k: int| 0 <= k < bool_text(b).len() && bool_text(b)[k] == '\n';
        assert(false);
    }
}

/// No line break in any piece means none in the whole.
proof fn lemma_no_break(a: Seq<char>, b: Seq<char>, c: char)
    requires
        !a.contains(c),
        !b.contains(c),
    ensures
        !(a + b).contains(c),
{
    if (a + b).contains(c) {
        let k = choose|k: int| 0 <= k < (a + b).len() && (a + b)[k] == c;
        if k < a.len() {
            assert(a[k] == c);
        } else {
            assert(b[k - a.len()] == c);
        }
    }
}

proof fn lemma_sched_lines_plain(s: ScheduleV)
    requires
        forall|i: int| 0 <= i < s.reminders.len() ==> one_line_text(#[trigger] s.reminders[i].0),
    ensures
        forall|i: int|
            0 <= i < sched_lines(s).len() ==> !(#[trigger] sched_lines(s)[i]).contains('\n'),
        forall|i: int|
            0 <= i < sched_lines(s).len() ==> crate::text::strip_cr(#[trigger] sched_lines(s)[i])
                == sched_lines(s)[i],
{
    let ls = sched_lines(s);
    let nr = s.reminders.len();
    reveal_strlit("remind");
    reveal_strlit("timer");
    reveal_strlit("pomo");
    assert(plain_key("remind"@));
    assert(plain_key("timer"@));
    assert(plain_key("pomo"@));
    lemma_plain_key("remind"@);
    lemma_plain_key("timer"@);
    lemma_plain_key("pomo"@);
    assert forall|i: int| 0 <= i < ls.len() implies !(#[trigger] ls[i]).contains('\n')
        && crate::text::strip_cr(ls[i]) == ls[i] by {
        if i < nr {
            let r = s.reminders[i];
            assert(ls[i] == rem_line(r));
            crate::text::lemma_dec_plain(r.1 as nat);
            let v = dec(r.1 as nat) + seq![' '] + r.0;
            assert(!seq![' '].contains('\n')) by {
                if seq![' '].contains('\n') {
                    let k = choose|k: int| 0 <= k < 1 && seq![' '][k] == '\n';
                }
            }
            lemma_no_break(dec(r.1 as nat), seq![' '], '\n');
            lemma_no_break(dec(r.1 as nat) + seq![' '], r.0, '\n');
            if r.0.len() > 0 {
                assert(v.last() == r.0.last());
                assert(r.0[r.0.len() - 1] == r.0.last());
                if r.0.last() == '\r' {
                    assert(r.0.contains('\r'));
                }
            } else {
                assert(v.last() == ' ');
            }
            lemma_key_line("remind"@, v);
        } else {
            match s.timer {
                Some(u) => {
                    if i == nr {
                        assert(ls[i] == key_line("timer"@, dec(u as nat)));
                        lemma_dec_line(u as nat);
                        lemma_key_line("timer"@, dec(u as nat));
                    } else {
                        let p = s.pomo.unwrap();
                        assert(ls[i] == key_line("pomo"@, pomo_val(p)));
                        lemma_pomo_val_plain(p);
                        lemma_key_line("pomo"@, pomo_val(p));
                    }
                },
                None => {
                    let p = s.pomo.unwrap();
                    assert(ls[i] == key_line("pomo"@, pomo_val(p)));
                    lemma_pomo_val_plain(p);
                    lemma_key_line("pomo"@, pomo_val(p));
                },
            }
        }
    }
}

proof fn lemma_pomo_val_plain(p: PomoState)
    ensures
        !pomo_val(p).contains('\n'),
        pomo_val(p).len() > 0,
        pomo_val(p).last() != '\r',
{
    let c = seq![','];
    assert(!c.contains('\n')) by {
        if c.contains('\n') {
            let k = choose|k: int| 0 <= k < 1 && c[k] == '\n';
        }
    }
    crate::text::lemma_dec_plain(p.work as nat);
    crate::text::lemma_dec_plain(p.rest as nat);
    crate::text::lemma_dec_plain(p.until as nat);
    lemma_dec_line(p.cycles as nat);
    lemma_bool_no_comma(p.focus);
    let a1 = dec(p.work as nat) + c;
    lemma_no_break(dec(p.work as nat), c, '\n');
    let a2 = a1 + dec(p.rest as nat);
    lemma_no_break(a1, dec(p.rest as nat), '\n');
    let a3 = a2 + c;
    lemma_no_break(a2, c, '\n');
    let a4 = a3 + bool_text(p.focus);
    lemma_no_break(a3, bool_text(p.focus), '\n');
    let a5 = a4 + c;
    lemma_no_break(a4, c, '\n');
    let a6 = a5 + dec(p.until as nat);
    lemma_no_break(a5, dec(p.until as nat), '\n');
    let a7 = a6 + c;
    lemma_no_break(a6, c, '\n');
    lemma_no_break(a7, dec(p.cycles as nat), '\n');
    assert(pomo_val(p) == a7 + dec(p.cycles as nat));
    assert(pomo_val(p).last() == dec(p.cycles as nat).last());
}

/// `a`, the separator and `b` split back at that separator when `a` holds
/// none.
proof fn lemma_split_once_at(a: Seq<char>, c: char, b: Seq<char>)
    requires
        !a.contains(c),
    ensures
        split_once(a + seq![c] + b, c) == Some((a, b)),
{
    let s = a + seq![c] + b;
    assert(s[a.len() as int] == c);
    assert forall|k: int| 0 <= k < a.len() implies s[k] != c by {
        assert(s[k] == a[k]);
        if a[k] == c {
            assert(a.contains(c));
        }
    }
    crate::text::lemma_find_some(s, c, a.len() as int);
    assert(s.take(a.len() as int) =~= a);
    assert(s.skip(a.len() as int + 1) =~= b);
}

/// A piece then the separator then a piece without it: one more piece.
proof fn lemma_split_more(x: Seq<char>, sep: char, l: Seq<char>)
    requires
        !l.contains(sep),
    ensures
        split_on(x + seq![sep] + l, sep) == split_on(x, sep).push(l),
{
    let y = x + seq![sep];
    assert(y.drop_last() =~= x);
    assert(y.last() == sep);
    assert(split_on(y, sep) == split_on(x, sep).push(Seq::<char>::empty()));
    crate::text::lemma_split_append(y, l, sep);
    assert(Seq::<char>::empty() + l =~= l);
    assert(split_on(y, sep).update(split_on(y, sep).len() - 1, split_on(y, sep).last() + l)
        =~= split_on(x, sep).push(l));
}

proof fn lemma_split_single(l: Seq<char>, sep: char)
    requires
        !l.contains(sep),
    ensures
        split_on(l, sep) == seq![l],
{
    let e = Seq::<char>::empty();
    crate::text::lemma_split_append(e, l, sep);
    assert(e + l =~= l);
    assert(split_on(e, sep) == seq![e]);
    assert(seq![e].update(0, e + l) =~= seq![l]);
}

proof fn lemma_parse_back(n: nat, max: nat)
    requires
        n <= max,
    ensures
        parse_max(dec(n), max) == Some(n),
{
    crate::text::lemma_parse_dec(n);
}

proof fn lemma_pomo_back(p: PomoState)
    ensures
        pomo_of(pomo_val(p)) == Some(p),
{
    let d0 = dec(p.work as nat);
    let d1 = dec(p.rest as nat);
    let b = bool_text(p.focus);
    let d3 = dec(p.until as nat);
    let d4 = dec(p.cycles as nat);
    crate::text::lemma_dec_plain(p.work as nat);
    crate::text::lemma_dec_plain(p.rest as nat);
    crate::text::lemma_dec_plain(p.until as nat);
    crate::text::lemma_dec_plain(p.cycles as nat);
    lemma_bool_no_comma(p.focus);
    lemma_bool_text_plain(p.focus);
    lemma_split_single(d0, ',');
    lemma_split_more(d0, ',', d1);
    lemma_split_more(d0 + seq![','] + d1, ',', b);
    lemma_split_more(d0 + seq![','] + d1 + seq![','] + b, ',', d3);
    lemma_split_more(d0 + seq![','] + d1 + seq![','] + b + seq![','] + d3, ',', d4);
    let f = split_on(pomo_val(p), ',');
    assert(f =~= seq![d0, d1, b, d3, d4]);
    lemma_parse_back(p.work as nat, u64::MAX as nat);
    lemma_parse_back(p.rest as nat, u64::MAX as nat);
    lemma_parse_back(p.until as nat, u64::MAX as nat);
    lemma_parse_back(p.cycles as nat, u32::MAX as nat);
}

proof fn lemma_apply_concat(q: ScheduleV, a: Seq<Seq<char>>, b: Seq<Seq<char>>, now: u64)
    ensures
        apply_schedule_lines(q, a + b, now) == apply_schedule_lines(apply_schedule_lines(q, a, now), b, now),
    decreases b.len(),
{
    if b.len() == 0 {
        assert(a + b =~= a);
    } else {
        lemma_apply_concat(q, a, b.drop_last(), now);
        assert((a + b).drop_last() =~= a + b.drop_last());
        assert((a + b).last() == b.last());
    }
}

proof fn lemma_apply_one(q: ScheduleV, l: Seq<char>, now: u64)
    ensures
        apply_schedule_lines(q, seq![l], now) == apply_schedule_line(q, l, now),
{
    assert(seq![l].drop_last() =~= Seq::<Seq<char>>::empty());
    assert(apply_schedule_lines(q, seq![l].drop_last(), now) == q);
    assert(seq![l].last() == l);
}

proof fn lemma_keys_differ()
    ensures
        "remind"@ != "timer"@,
        "remind"@ != "pomo"@,
        "timer"@ != "pomo"@,
        plain_key("remind"@),
        plain_key("timer"@),
        plain_key("pomo"@),
{
    reveal_strlit("remind");
    reveal_strlit("timer");
    reveal_strlit("pomo");
    assert("remind"@.len() != "timer"@.len());
    assert("remind"@.len() != "pomo"@.len());
    assert("timer"@.len() != "pomo"@.len());
}

proof fn lemma_rem_applied(rs: Seq<(Seq<char>, u64)>, now: u64)
    requires
        forall|i: int| 0 <= i < rs.len() ==> fresh(#[trigger] rs[i].1, now),
    ensures
        apply_schedule_lines(empty_schedule(), rem_lines(rs), now) == (ScheduleV {
            reminders: rs,
            ..empty_schedule()
        }),
    decreases rs.len(),
{
    if rs.len() == 0 {
        assert(rem_lines(rs) =~= Seq::<Seq<char>>::empty());
        assert(rs =~= Seq::<(Seq<char>, u64)>::empty());
    } else {
        let init = rs.drop_last();
        assert forall|i: int| 0 <= i < init.len() implies fresh(#[trigger] init[i].1, now) by {
            assert(init[i] == rs[i]);
        }
        lemma_rem_applied(init, now);
        assert(rem_lines(rs).drop_last() =~= rem_lines(init));
        let r = rs.last();
        assert(rs[rs.len() - 1] == r);
        assert(rem_lines(rs).last() == rem_line(r));
        lemma_keys_differ();
        lemma_line_parts("remind"@, dec(r.1 as nat) + seq![' '] + r.0);
        crate::text::lemma_dec_plain(r.1 as nat);
        lemma_split_once_at(dec(r.1 as nat), ' ', r.0);
        lemma_parse_back(r.1 as nat, u64::MAX as nat);
        assert(init.push(r) =~= rs);
    }
}

/// What `serialize_schedule` writes, `parse_schedule` reads back: the same
/// reminders in the same order, the timer and the pomodoro, as long as no
/// reminder text holds a line break and nothing has gone stale by `now`.
pub proof fn law_schedule_round_trip(s: ScheduleV, now: u64)
    requires
        forall|i: int| 0 <= i < s.reminders.len() ==> one_line_text(#[trigger] s.reminders[i].0),
        forall|i: int| 0 <= i < s.reminders.len() ==> fresh(#[trigger] s.reminders[i].1, now),
        s.timer matches Some(u) ==> fresh(u, now),
    ensures
        apply_schedule_lines(empty_schedule(), lines(schedule_text(s)), now) == s,
{
    lemma_sched_lines_plain(s);
    crate::text::lemma_lines_joined(sched_lines(s));
    lemma_sched_joined(s);
    let r = rem_lines(s.reminders);
    let tl: Seq<Seq<char>> = match s.timer {
        Some(u) => seq![key_line("timer"@, dec(u as nat))],
        None => Seq::empty(),
    };
    let pl: Seq<Seq<char>> = match s.pomo {
        Some(p) => seq![key_line("pomo"@, pomo_val(p))],
        None => Seq::empty(),
    };
    let e = empty_schedule();
    lemma_apply_concat(e, r + tl, pl, now);
    lemma_apply_concat(e, r, tl, now);
    lemma_rem_applied(s.reminders, now);
    let s1 = ScheduleV { reminders: s.reminders, ..e };
    lemma_keys_differ();
    let s2 = apply_schedule_lines(s1, tl, now);
    match s.timer {
        Some(u) => {
            lemma_apply_one(s1, key_line("timer"@, dec(u as nat)), now);
            lemma_line_parts("timer"@, dec(u as nat));
            lemma_parse_back(u as nat, u64::MAX as nat);
            assert(s2 == ScheduleV { timer: Some(u), ..s1 });
        },
        None => {
            assert(s2 == s1);
        },
    }
    let s3 = apply_schedule_lines(s2, pl, now);
    match s.pomo {
        Some(p) => {
            lemma_apply_one(s2, key_line("pomo"@, pomo_val(p)), now);
            lemma_line_parts("pomo"@, pomo_val(p));
            lemma_pomo_back(p);
            assert(s3 == ScheduleV { pomo: Some(p), ..s2 });
        },
        None => {
            assert(s3 == s2);
        },
    }
    assert(sched_lines(s) == r + tl + pl);
    assert(s3 == s);
}

} // verus!
