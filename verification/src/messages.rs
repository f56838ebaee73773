//! Bookkeeping for what arrives and comes due: progress bars per source and
//! reminders.

use vstd::prelude::*;
use crate::text::{chars_eq, chars_of};

verus! {

pub open spec fn progress_views(v: Seq<(String, u8)>) -> Seq<(Seq<char>, u8)> {
    v.map_values(|e: (String, u8)| (e.0@, e.1))
}

/// The entries of other sources, in order.
pub open spec fn without(p: Seq<(Seq<char>, u8)>, from: Seq<char>) -> Seq<(Seq<char>, u8)>
    decreases p.len(),
{
    if p.len() == 0 {
        Seq::empty()
    } else if p.last().0 == from {
        without(p.drop_last(), from)
    } else {
        without(p.drop_last(), from).push(p.last())
    }
}

/// Where `from`'s entry is.
pub open spec fn entry_of(p: Seq<(Seq<char>, u8)>, from: Seq<char>) -> Option<int>
    decreases p.len(),
{
    if p.len() == 0 {
        None
    } else if p[0].0 == from {
        Some(0)
    } else {
        match entry_of(p.drop_first(), from) {
            Some(i) => Some(i + 1),
            None => None,
        }
    }
}

/// The progress list after `from` reports `pct`: a finished task (100% or
/// more) leaves the list, a known source is updated where it stands, a new
/// one goes last.
pub open spec fn progressed(p: Seq<(Seq<char>, u8)>, from: Seq<char>, pct: u8) -> Seq<
    (Seq<char>, u8),
> {
    if pct >= 100 {
        without(p, from)
    } else {
        match entry_of(p, from) {
            Some(i) => p.update(i, (p[i].0, pct)),
            None => p.push((from, pct)),
        }
    }
}

/// Updates the per-source progress list in place, keeping the order on
/// screen stable; true when the task finished and left the list.
pub fn update_progress(progress: &mut Vec<(String, u8)>, from: &str, pct: u8) -> (done: bool)
    ensures
        done == (pct >= 100),
        progress_views(final(progress)@) == progressed(progress_views(old(progress)@), from@, pct),
{
    let ghost p0 = progress_views(progress@);
    let fc = chars_of(from);
    if pct >= 100 {
        let mut kept: Vec<(String, u8)> = Vec::new();
        let mut i: usize = 0;
        while i < progress.len()
            invariant
                i <= progress.len(),
                p0 == progress_views(progress@),
                fc@ == from@,
                progress_views(kept@) == without(p0.take(i as int), from@),
            decreases progress.len() - i,
        {
            let ghost kv = progress_views(kept@);
            let name = chars_of(progress[i].0.as_str());
            assert(p0.take(i + 1).drop_last() =~= p0.take(i as int));
            assert(p0.take(i + 1).last() == p0[i as int]);
            if !chars_eq(name.as_slice(), fc.as_slice()) {
                kept.push((progress[i].0.as_str().to_owned(), progress[i].1));
                assert(progress_views(kept@) =~= kv.push(p0[i as int]));
            }
            i = i + 1;
        }
        assert(p0.take(progress.len() as int) =~= p0);
        *progress = kept;
        return true;
    }
    let mut i: usize = 0;
    assert(p0.skip(0) =~= p0);
    while i < progress.len()
        invariant
            i <= progress.len(),
            pct < 100,
            p0 == progress_views(progress@),
            p0 == progress_views(old(progress)@),
            fc@ == from@,
            entry_of(p0, from@) == match entry_of(p0.skip(i as int), from@) {
                Some(k) => Some(k + i),
                None => None,
            },
        decreases progress.len() - i,
    {
        let name = chars_of(progress[i].0.as_str());
        assert(p0.skip(i as int)[0] == p0[i as int]);
        if chars_eq(name.as_slice(), fc.as_slice()) {
            let n = progress[i].0.as_str().to_owned();
            progress.set(i, (n, pct));
            assert(progress_views(progress@) =~= p0.update(i as int, (p0[i as int].0, pct)));
            return false;
        }
        assert(p0.skip(i as int).drop_first() =~= p0.skip(i + 1));
        i = i + 1;
    }
    progress.push((from.to_owned(), pct));
    assert(progress_views(progress@) =~= p0.push((from@, pct)));
    false
}

pub open spec fn reminder_views(v: Seq<(String, u64)>) -> Seq<(Seq<char>, u64)> {
    v.map_values(|e: (String, u64)| (e.0@, e.1))
}

/// The texts of the reminders due at `now`, in order.
pub open spec fn due_texts(r: Seq<(Seq<char>, u64)>, now: u64) -> Seq<Seq<char>>
    decreases r.len(),
{
    if r.len() == 0 {
        Seq::empty()
    } else if r.last().1 <= now {
        due_texts(r.drop_last(), now).push(r.last().0)
    } else {
        due_texts(r.drop_last(), now)
    }
}

/// The reminders still ahead of `now`, in order.
pub open spec fn ahead(r: Seq<(Seq<char>, u64)>, now: u64) -> Seq<(Seq<char>, u64)>
    decreases r.len(),
{
    if r.len() == 0 {
        Seq::empty()
    } else if r.last().1 <= now {
        ahead(r.drop_last(), now)
    } else {
        ahead(r.drop_last(), now).push(r.last())
    }
}

/// Removes and returns the reminders that are due.
pub fn due_reminders(reminders: &mut Vec<(String, u64)>, now: u64) -> (fired: Vec<String>)
    ensures
        crate::assistant::string_views(fired@) == due_texts(reminder_views(old(reminders)@), now),
        reminder_views(final(reminders)@) == ahead(reminder_views(old(reminders)@), now),
{
    let ghost r0 = reminder_views(reminders@);
    let mut fired: Vec<String> = Vec::new();
    let mut kept: Vec<(String, u64)> = Vec::new();
    let mut i: usize = 0;
    while i < reminders.len()
        invariant
            i <= reminders.len(),
            r0 == reminder_views(reminders@),
            crate::assistant::string_views(fired@) == due_texts(r0.take(i as int), now),
            reminder_views(kept@) == ahead(r0.take(i as int), now),
        decreases reminders.len() - i,
    {
        assert(r0.take(i + 1).drop_last() =~= r0.take(i as int));
        assert(r0.take(i + 1).last() == r0[i as int]);
        let text = reminders[i].0.as_str().to_owned();
        let at = reminders[i].1;
        if at <= now {
            let ghost fv = crate::assistant::string_views(fired@);
            fired.push(text);
            assert(crate::assistant::string_views(fired@) =~= fv.push(r0[i as int].0));
        } else {
            let ghost kv = reminder_views(kept@);
            kept.push((text, at));
            assert(reminder_views(kept@) =~= kv.push(r0[i as int]));
        }
        i = i + 1;
    }
    assert(r0.take(reminders.len() as int) =~= r0);
    *reminders = kept;
    fired
}

/// A reminder fires once: what fires at `now` is gone from the list, and
/// nothing left is due at `now`.
pub proof fn law_reminders_fire_once(r: Seq<(Seq<char>, u64)>, now: u64)
    ensures
        due_texts(ahead(r, now), now) == Seq::<Seq<char>>::empty(),
        ahead(ahead(r, now), now) == ahead(r, now),
    decreases r.len(),
{
    if r.len() > 0 {
        law_reminders_fire_once(r.drop_last(), now);
        if r.last().1 > now {
            let a = ahead(r.drop_last(), now);
            assert(a.push(r.last()).drop_last() =~= a);
        }
    }
}

/// The bar `from` has in the list, if it has one.
pub open spec fn bar_of(p: Seq<(Seq<char>, u8)>, from: Seq<char>) -> Option<u8> {
    match entry_of(p, from) {
        Some(i) => Some(p[i].1),
        None => None,
    }
}

proof fn lemma_entry_of(p: Seq<(Seq<char>, u8)>, from: Seq<char>)
    ensures
        match entry_of(p, from) {
            Some(i) => 0 <= i < p.len() && p[i].0 == from && forall|j: int|
                0 <= j < i ==> #[trigger] p[j].0 != from,
            None => forall|j: int| 0 <= j < p.len() ==> #[trigger] p[j].0 != from,
        },
    decreases p.len(),
{
    if p.len() > 0 && p[0].0 != from {
        lemma_entry_of(p.drop_first(), from);
        assert forall|j: int| 1 <= j < p.len() implies #[trigger] p[j].0 == p.drop_first()[j - 1].0 by {}
    }
}

/// The first entry of `from` is found where it stands.
proof fn lemma_entry_at(p: Seq<(Seq<char>, u8)>, from: Seq<char>, i: int)
    requires
        0 <= i < p.len(),
        p[i].0 == from,
        forall|j: int| 0 <= j < i ==> #[trigger] p[j].0 != from,
    ensures
        entry_of(p, from) == Some(i),
{
    lemma_entry_of(p, from);
    match entry_of(p, from) {
        Some(k) => {
            if k < i {
                assert(p[k].0 != from);
            } else if k > i {
                assert(p[i].0 != from);
            }
        },
        None => {
            assert(p[i].0 != from);
        },
    }
}

proof fn lemma_without(p: Seq<(Seq<char>, u8)>, from: Seq<char>, b: Seq<char>)
    requires
        b != from,
    ensures
        bar_of(without(p, from), b) == bar_of(p, b),
        entry_of(without(p, from), from) is None,
    decreases p.len(),
{
    if p.len() > 0 {
        let q = p.drop_last();
        lemma_without(q, from, b);
        let w = without(q, from);
        lemma_entry_of(w, from);
        lemma_entry_of(w, b);
        lemma_entry_of(q, b);
        lemma_entry_of(p, b);
        if p.last().0 != from {
            let wp = w.push(p.last());
            lemma_entry_of(wp, from);
            lemma_entry_of(wp, b);
            assert forall|j: int| 0 <= j < wp.len() implies #[trigger] wp[j].0 != from by {
                if j < w.len() {
                    assert(wp[j] == w[j]);
                }
            }
            match entry_of(w, b) {
                Some(i) => {
                    assert(wp[i] == w[i]);
                    assert forall|j: int| 0 <= j < i implies #[trigger] wp[j].0 != b by {
                        assert(wp[j] == w[j]);
                    }
                    lemma_entry_at(wp, b, i);
                    match entry_of(q, b) {
                        Some(k) => {
                            assert(p[k] == q[k]);
                            assert forall|j: int| 0 <= j < k implies #[trigger] p[j].0 != b by {
                                assert(p[j] == q[j]);
                            }
                            lemma_entry_at(p, b, k);
                        },
                        None => {},
                    }
                },
                None => {
                    match entry_of(q, b) {
                        Some(k) => {},
                        None => {
                            assert forall|j: int| 0 <= j < q.len() implies #[trigger] p[j].0 != b by {
                                assert(p[j] == q[j]);
                            }
                            if p.last().0 == b {
                                lemma_entry_at(p, b, q.len() as int);
                                assert forall|j: int| 0 <= j < w.len() implies #[trigger] wp[j].0 != b by {
                                    assert(wp[j] == w[j]);
                                }
                                lemma_entry_at(wp, b, w.len() as int);
                            } else {
                                assert forall|j: int| 0 <= j < wp.len() implies #[trigger] wp[j].0 != b by {
                                    if j < w.len() {
                                        assert(wp[j] == w[j]);
                                    }
                                }
                            }
                        },
                    }
                },
            }
        } else {
            match entry_of(q, b) {
                Some(k) => {
                    assert(p[k] == q[k]);
                    assert forall|j: int| 0 <= j < k implies #[trigger] p[j].0 != b by {
                        assert(p[j] == q[j]);
                    }
                    lemma_entry_at(p, b, k);
                },
                None => {
                    assert forall|j: int| 0 <= j < p.len() implies #[trigger] p[j].0 != b by {
                        if j < q.len() {
                            assert(p[j] == q[j]);
                        }
                    }
                },
            }
        }
    }
}

/// Progress is per source: a report from one source moves only its own
/// bar — to the new percentage, or off the list once it reaches 100% — and
/// every other source's bar stays as it was.
pub proof fn law_progress_per_source(
    p: Seq<(Seq<char>, u8)>,
    from: Seq<char>,
    pct: u8,
    other: Seq<char>,
)
    requires
        other != from,
    ensures
        bar_of(progressed(p, from, pct), from) == if pct >= 100 {
            None
        } else {
            Some(pct)
        },
        bar_of(progressed(p, from, pct), other) == bar_of(p, other),
{
    lemma_entry_of(p, from);
    lemma_entry_of(p, other);
    if pct >= 100 {
        lemma_without(p, from, other);
    } else {
        match entry_of(p, from) {
            Some(i) => {
                let u = p.update(i, (p[i].0, pct));
                assert forall|j: int| 0 <= j < i implies #[trigger] u[j].0 != from by {
                    assert(u[j] == p[j]);
                }
                lemma_entry_at(u, from, i);
                lemma_entry_of(u, other);
                match entry_of(p, other) {
                    Some(k) => {
                        assert(u[k] == p[k]);
                        assert forall|j: int| 0 <= j < k implies #[trigger] u[j].0 != other by {
                            if j != i {
                                assert(u[j] == p[j]);
                            }
                        }
                        lemma_entry_at(u, other, k);
                    },
                    None => {
                        assert forall|j: int| 0 <= j < u.len() implies #[trigger] u[j].0 != other by {
                            if j != i {
                                assert(u[j] == p[j]);
                            }
                        }
                    },
                }
            },
            None => {
                let u = p.push((from, pct));
                assert forall|j: int| 0 <= j < p.len() implies #[trigger] u[j].0 != from by {
                    assert(u[j] == p[j]);
                }
                lemma_entry_at(u, from, p.len() as int);
                lemma_entry_of(u, other);
                match entry_of(p, other) {
                    Some(k) => {
                        assert(u[k] == p[k]);
                        assert forall|j: int| 0 <= j < k implies #[trigger] u[j].0 != other by {
                            assert(u[j] == p[j]);
                        }
                        lemma_entry_at(u, other, k);
                    },
                    None => {
                        assert forall|j: int| 0 <= j < u.len() implies #[trigger] u[j].0 != other by {
                            if j < p.len() {
                                assert(u[j] == p[j]);
                            }
                        }
                    },
                }
            },
        }
    }
}

} // verus!
