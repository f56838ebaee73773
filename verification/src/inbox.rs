//! The message inbox: one message on screen at a time, the rest queued.
//! Questions jump the queue, because a question blocks the program that
//! asked. A question that leaves unanswered is answered "ignored" by the
//! program, so its sender never hangs: the operations that drop questions
//! return their ids.

use std::collections::VecDeque;
use vstd::prelude::*;
use crate::answer::{labels_of, option_labels};
use crate::assistant::{msg_views, now_epoch, string_views, Msg, MsgV};
use crate::text::{chars_of, push_str, string_of};

verus! {

pub struct Inbox {
    pub queue: VecDeque<Msg>,
    /// The message on screen and when it went up (seconds since the epoch).
    pub current: Option<(Msg, u64)>,
}

pub struct InboxV {
    pub queue: Seq<MsgV>,
    pub current: Option<(MsgV, u64)>,
}

impl View for Inbox {
    type V = InboxV;

    open spec fn view(&self) -> InboxV {
        InboxV {
            queue: msg_views(self.queue@),
            current: match self.current {
                Some((m, t)) => Some((m@, t)),
                None => None,
            },
        }
    }
}

/// The message on screen.
pub open spec fn shown(i: InboxV) -> Option<MsgV> {
    match i.current {
        Some((m, _)) => Some(m),
        None => None,
    }
}

/// An ask whose deadline has come.
pub open spec fn expired(m: MsgV, now: u64) -> bool {
    m matches MsgV::Ask { expires: Some(e), .. } && e <= now
}

/// The message on screen is an ask whose deadline has come.
pub open spec fn shown_expired(i: InboxV, now: u64) -> bool {
    match shown(i) {
        Some(m) => expired(m, now),
        None => false,
    }
}

/// The messages that outlive `now`, in order.
pub open spec fn alive(q: Seq<MsgV>, now: u64) -> Seq<MsgV>
    decreases q.len(),
{
    if q.len() == 0 {
        Seq::empty()
    } else if expired(q.last(), now) {
        alive(q.drop_last(), now)
    } else {
        alive(q.drop_last(), now).push(q.last())
    }
}

/// The senders of the asks that expire at `now`, in order.
pub open spec fn expired_senders(q: Seq<MsgV>, now: u64) -> Seq<Seq<char>>
    decreases q.len(),
{
    if q.len() == 0 {
        Seq::empty()
    } else if expired(q.last(), now) {
        expired_senders(q.drop_last(), now).push(q.last()->Ask_from)
    } else {
        expired_senders(q.drop_last(), now)
    }
}

/// The ids of the asks among `q`, in order.
pub open spec fn ask_ids(q: Seq<MsgV>) -> Seq<Seq<char>>
    decreases q.len(),
{
    if q.len() == 0 {
        Seq::empty()
    } else if q.last() is Ask {
        ask_ids(q.drop_last()).push(q.last()->Ask_id)
    } else {
        ask_ids(q.drop_last())
    }
}

/// How a message reads in the queue: `sender: text`, or the text alone
/// when nobody signed it; only spoken messages and asks are shown.
pub open spec fn preview_of(m: MsgV) -> Option<Seq<char>> {
    match m {
        MsgV::Say { text, from, .. } => Some(
            if from.len() == 0 {
                text
            } else {
                from + ": "@ + text
            },
        ),
        MsgV::Ask { text, from, .. } => Some(
            if from.len() == 0 {
                text
            } else {
                from + ": "@ + text
            },
        ),
        _ => None,
    }
}

/// The first ask in `q`.
pub open spec fn first_ask(q: Seq<MsgV>) -> Option<MsgV>
    decreases q.len(),
{
    if q.len() == 0 {
        None
    } else if q[0] is Ask {
        Some(q[0])
    } else {
        first_ask(q.drop_first())
    }
}

/// The question waiting for an answer, as the notification shows it: the
/// one on screen, else the first one queued.
pub open spec fn pending_of(i: InboxV) -> Option<Seq<char>> {
    match shown(i) {
        Some(m) if m is Ask => preview_of(m),
        _ => match first_ask(i.queue) {
            Some(m) => preview_of(m),
            None => None,
        },
    }
}

fn preview_text(text: &String, from: &String) -> (r: String)
    ensures
        r@ == if from@.len() == 0 {
            text@
        } else {
            from@ + ": "@ + text@
        },
{
    if from.as_str().is_empty() {
        text.as_str().to_owned()
    } else {
        let mut v = chars_of(from.as_str());
        push_str(&mut v, ": ");
        push_str(&mut v, text.as_str());
        string_of(v.as_slice())
    }
}

/// How a message reads in the queue.
pub fn queue_preview(m: &Msg) -> (r: Option<String>)
    ensures
        match r {
            Some(p) => preview_of(m@) == Some(p@),
            None => preview_of(m@) is None,
        },
{
    match m {
        Msg::Say { text, from, .. } => Some(preview_text(text, from)),
        Msg::Ask { text, from, .. } => Some(preview_text(text, from)),
        _ => None,
    }
}

impl Inbox {
    pub fn new() -> (r: Inbox)
        ensures
            r@.queue == Seq::<MsgV>::empty(),
            r@.current is None,
    {
        let q: VecDeque<Msg> = VecDeque::new();
        let r = Inbox { queue: q, current: None };
        assert(r@.queue =~= Seq::<MsgV>::empty());
        r
    }

    /// With nothing on screen, the first queued message goes up at `now`.
    pub fn promote_at(&mut self, now: u64)
        ensures
            old(self)@.current is None && old(self)@.queue.len() > 0 ==> final(self)@ == (InboxV {
                queue: old(self)@.queue.drop_first(),
                current: Some((old(self)@.queue[0], now)),
            }),
            !(old(self)@.current is None && old(self)@.queue.len() > 0) ==> final(self)@ == old(
                self,
            )@,
    {
        if self.current.is_none() {
            let ghost q = self.queue@;
            if let Some(m) = self.queue.pop_front() {
                assert(msg_views(self.queue@) =~= msg_views(q).drop_first());
                self.current = Some((m, now));
            }
        }
    }

    /// With nothing on screen, the first queued message goes up now.
    pub fn promote(&mut self)
        ensures
            old(self)@.current is None && old(self)@.queue.len() > 0 ==> {
                &&& final(self)@.queue == old(self)@.queue.drop_first()
                &&& shown(final(self)@) == Some(old(self)@.queue[0])
            },
            !(old(self)@.current is None && old(self)@.queue.len() > 0) ==> final(self)@ == old(
                self,
            )@,
    {
        if self.current.is_none() && self.queue.len() > 0 {
            let now = now_epoch();
            self.promote_at(now);
        }
    }

    /// Drops the message on screen; returns the id of the ask it was, which
    /// still needs an answer.
    pub fn advance(&mut self) -> (r: Option<String>)
        ensures
            final(self)@.queue == old(self)@.queue,
            final(self)@.current is None,
            match r {
                Some(id) => shown(old(self)@) matches Some(MsgV::Ask { id: i, .. }) && i == id@,
                None => !(shown(old(self)@) matches Some(MsgV::Ask { .. })),
            },
    {
        let cur = self.current.take();
        match cur {
            Some((Msg::Ask { id, .. }, _)) => Some(id),
            _ => None,
        }
    }

    /// Empties the inbox; returns the ids of the asks dropped (the one on
    /// screen first, then the queued ones in order).
    pub fn clear(&mut self) -> (r: Vec<String>)
        ensures
            final(self)@.queue == Seq::<MsgV>::empty(),
            final(self)@.current is None,
            string_views(r@) == (match shown(old(self)@) {
                Some(MsgV::Ask { id, .. }) => seq![id],
                _ => Seq::empty(),
            }) + ask_ids(old(self)@.queue),
    {
        let ghost q0 = self@.queue;
        let mut ids: Vec<String> = Vec::new();
        if let Some(id) = self.advance() {
            ids.push(id);
        }
        let ghost head = string_views(ids@);
        assert(head =~= match shown(old(self)@) {
            Some(MsgV::Ask { id, .. }) => seq![id],
            _ => Seq::<Seq<char>>::empty(),
        });
        let ghost mut done: Seq<MsgV> = Seq::empty();
        while self.queue.len() > 0
            invariant
                self.current is None,
                q0 == done + self@.queue,
                string_views(ids@) == head + ask_ids(done),
            decreases self.queue.len(),
        {
            let ghost before = self@.queue;
            let m = self.queue.pop_front();
            if let Some(m) = m {
                proof {
                    assert(msg_views(self.queue@) =~= before.drop_first());
                    assert(before[0] == m@);
                    assert((done.push(m@)).drop_last() =~= done);
                    assert(q0 =~= done.push(m@) + self@.queue);
                    done = done.push(m@);
                }
                if let Msg::Ask { id, .. } = m {
                    let ghost sv = string_views(ids@);
                    ids.push(id);
                    assert(string_views(ids@) =~= sv.push(done.last()->Ask_id));
                }
            }
        }
        assert(done =~= q0) by {
            assert(self@.queue.len() == 0);
        }
        ids
    }

    /// Nothing on screen and nothing queued.
    pub fn is_empty(&self) -> (r: bool)
        ensures
            r == (self@.current is None && self@.queue.len() == 0),
    {
        self.current.is_none() && self.queue.len() == 0
    }

    /// Drops the asks whose deadline has come, WITHOUT answering them (their
    /// senders already gave up); returns the senders, the one on screen
    /// first. Everything else stays, in order.
    pub fn purge_expired(&mut self, now: u64) -> (r: Vec<String>)
        ensures
            final(self)@.queue == alive(old(self)@.queue, now),
            final(self)@.current == if shown_expired(old(self)@, now) {
                None
            } else {
                old(self)@.current
            },
            string_views(r@) == (if shown_expired(old(self)@, now) {
                seq![shown(old(self)@)->Some_0->Ask_from]
            } else {
                Seq::empty()
            }) + expired_senders(old(self)@.queue, now),
    {
        let ghost q0 = self@.queue;
        let mut froms: Vec<String> = Vec::new();
        let cur = self.current.take();
        match cur {
            Some((Msg::Ask { text, options, id, from, expires: Some(e), input }, at)) => {
                if e <= now {
                    froms.push(from);
                } else {
                    self.current = Some(
                        (Msg::Ask { text, options, id, from, expires: Some(e), input }, at),
                    );
                }
            },
            other => {
                self.current = other;
            },
        }
        let ghost head = string_views(froms@);
        let ghost c1 = self@.current;
        let mut kept: VecDeque<Msg> = VecDeque::new();
        let ghost mut done: Seq<MsgV> = Seq::empty();
        assert(msg_views(kept@) =~= alive(done, now));
        while self.queue.len() > 0
            invariant
                self@.current == c1,
                q0 == done + self@.queue,
                msg_views(kept@) == alive(done, now),
                string_views(froms@) == head + expired_senders(done, now),
            decreases self.queue.len(),
        {
            let ghost before = self@.queue;
            let m = self.queue.pop_front();
            if let Some(m) = m {
                proof {
                    assert(msg_views(self.queue@) =~= before.drop_first());
                    assert(before[0] == m@);
                    assert((done.push(m@)).drop_last() =~= done);
                    assert(q0 =~= done.push(m@) + self@.queue);
                    done = done.push(m@);
                }
                let gone = match &m {
                    Msg::Ask { expires: Some(e), .. } => *e <= now,
                    _ => false,
                };
                assert(gone == expired(m@, now));
                if gone {
                    if let Msg::Ask { from, .. } = m {
                        let ghost sv = string_views(froms@);
                        froms.push(from);
                        assert(string_views(froms@) =~= sv.push(done.last()->Ask_from));
                    }
                } else {
                    let ghost kv = msg_views(kept@);
                    kept.push_back(m);
                    assert(msg_views(kept@) =~= kv.push(done.last()));
                }
            }
        }
        assert(done =~= q0) by {
            assert(self@.queue.len() == 0);
        }
        self.queue = kept;
        froms
    }
}

fn first_ask_exec(q: &VecDeque<Msg>) -> (r: Option<usize>)
    ensures
        match r {
            Some(i) => i < q@.len() && first_ask(msg_views(q@)) == Some(q@[i as int]@),
            None => first_ask(msg_views(q@)) is None,
        },
{
    let ghost qv = msg_views(q@);
    let mut i: usize = 0;
    assert(qv.skip(0) =~= qv);
    while i < q.len()
        invariant
            i <= q@.len(),
            qv == msg_views(q@),
            first_ask(qv) == first_ask(qv.skip(i as int)),
        decreases q@.len() - i,
    {
        assert(qv.skip(i as int)[0] == q@[i as int]@);
        if let Msg::Ask { .. } = &q[i] {
            return Some(i);
        }
        assert(qv.skip(i as int).drop_first() =~= qv.skip(i + 1));
        i = i + 1;
    }
    None
}

/// The question waiting for an answer, as the notification shows it.
pub fn pending_ask(inbox: &Inbox) -> (r: Option<String>)
    ensures
        match r {
            Some(p) => pending_of(inbox@) == Some(p@),
            None => pending_of(inbox@) is None,
        },
{
    if let Some((m, _)) = &inbox.current {
        if let Msg::Ask { text, from, .. } = m {
            return Some(preview_text(text, from));
        }
    }
    match first_ask_exec(&inbox.queue) {
        Some(i) => queue_preview(&inbox.queue[i]),
        None => None,
    }
}

/// The choices of the question on screen.
pub fn ask_options(lang: crate::i18n::Lang, inbox: &Inbox) -> (r: Option<Vec<String>>)
    ensures
        match r {
            Some(l) => shown(inbox@) matches Some(MsgV::Ask { options, input, .. })
                && string_views(l@) == labels_of(lang, options, input),
            None => !(shown(inbox@) matches Some(MsgV::Ask { .. })),
        },
{
    match &inbox.current {
        Some((Msg::Ask { options, input, .. }, _)) => Some(option_labels(lang, options.as_slice(), *input)),
        _ => None,
    }
}

} // verus!
