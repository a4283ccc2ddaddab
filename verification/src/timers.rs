//! The pending timers: at most one per connection.
//!
//! Time is a count of milliseconds that the caller supplies; the set only
//! compares and adds.

use vstd::prelude::*;
use crate::segment::ConnectionQuad;

verus! {

/// How long an unacknowledged SYN+ACK or FIN waits before it is sent
/// again, in milliseconds.
pub const RETRANSMISSION_TIMEOUT: u64 = 1_000;

/// The longest time a segment is assumed to stay in the network, in
/// milliseconds.
pub const MAX_SEGMENT_LIFETIME: u64 = 120_000;

/// How long a connection stays in `TimeWait`: twice the longest segment
/// lifetime, in milliseconds.
pub const QUIET_TIME: u64 = 240_000;

/// What a timer is for.
#[derive(Clone, Copy, Debug, PartialEq, Eq, Structural)]
pub enum TimerKind {
    /// Sends again what is unacknowledged.
    Retransmission,
    /// Ends the quiet time of a connection in `TimeWait`.
    QuietTime,
}

impl TimerKind {
    /// How long a timer of this kind runs.
    pub open spec fn spec_duration(self) -> u64 {
        match self {
            TimerKind::Retransmission => RETRANSMISSION_TIMEOUT,
            TimerKind::QuietTime => QUIET_TIME,
        }
    }

    /// How long a timer of this kind runs.
    pub fn duration(&self) -> (r: u64)
        ensures
            r == self.spec_duration(),
    {
        match self {
            TimerKind::Retransmission => RETRANSMISSION_TIMEOUT,
            TimerKind::QuietTime => QUIET_TIME,
        }
    }
}

/// A pending timer.
#[derive(Clone, Copy, Debug, PartialEq, Eq, Structural)]
pub struct Timer {
    pub quad: ConnectionQuad,
    pub kind: TimerKind,
    /// The time at which the timer fires.
    pub deadline: u64,
}

/// The time `duration` after `now`, or the last representable time where
/// that lies beyond it.
pub open spec fn deadline_after(now: u64, duration: u64) -> u64 {
    if now + duration > u64::MAX {
        u64::MAX
    } else {
        (now + duration) as u64
    }
}

/// The timer of kind `kind` for `quad`, started at `now`.
pub open spec fn started(quad: ConnectionQuad, kind: TimerKind, now: u64) -> Timer {
    Timer { quad, kind, deadline: deadline_after(now, kind.spec_duration()) }
}

/// Timers that are not for `quad`.
pub open spec fn not_of(quad: ConnectionQuad) -> spec_fn(Timer) -> bool {
    |t: Timer| t.quad != quad
}

/// Timers that are for `quad`.
pub open spec fn is_of(quad: ConnectionQuad) -> spec_fn(Timer) -> bool {
    |t: Timer| t.quad == quad
}

/// Timers that have reached their deadline at `now`.
pub open spec fn is_due(now: u64) -> spec_fn(Timer) -> bool {
    |t: Timer| t.deadline <= now
}

/// The first timer of `timers` that is for `quad`.
pub open spec fn timer_of(timers: Seq<Timer>, quad: ConnectionQuad) -> Option<Timer> {
    let found = timers.filter(is_of(quad));
    if found.len() > 0 {
        Some(found[0])
    } else {
        None
    }
}

/// The timers without those of `quad`, in their order.
pub open spec fn cancelled(timers: Seq<Timer>, quad: ConnectionQuad) -> Seq<Timer> {
    timers.filter(not_of(quad))
}

/// The timers after `quad` has been given a timer of kind `kind` at `now`:
/// where its pending timer is of that kind, nothing changes; otherwise a
/// new one, added at the end, replaces whatever was pending for `quad`.
pub open spec fn armed(timers: Seq<Timer>, quad: ConnectionQuad, kind: TimerKind, now: u64) -> Seq<
    Timer,
> {
    if timer_of(timers, quad).is_some() && timer_of(timers, quad)->Some_0.kind == kind {
        timers
    } else {
        cancelled(timers, quad).push(started(quad, kind, now))
    }
}

/// The timers that have reached their deadline at `now`, in their order.
pub open spec fn due_at(timers: Seq<Timer>, now: u64) -> Seq<Timer> {
    timers.filter(is_due(now))
}

/// The pending timers, in the order in which they were started.
pub struct Timers {
    pending: Vec<Timer>,
}

impl View for Timers {
    type V = Seq<Timer>;

    closed spec fn view(&self) -> Seq<Timer> {
        self.pending@
    }
}

impl Timers {
    /// No timers.
    pub fn new() -> (r: Timers)
        ensures
            r@ == Seq::<Timer>::empty(),
    {
        Timers { pending: Vec::new() }
    }

    /// How many timers are pending.
    pub fn len(&self) -> (r: usize)
        ensures
            r == self@.len(),
    {
        self.pending.len()
    }

    /// The timer pending for `quad`, if there is one.
    pub fn get(&self, quad: &ConnectionQuad) -> (r: Option<Timer>)
        ensures
            r == timer_of(self@, *quad),
            r matches Some(t) ==> t.quad == *quad && self@.contains(t),
    {
        let ghost s = self.pending@;
        let mut i: usize = 0;
        while i < self.pending.len()
            invariant
                i <= s.len(),
                s == self.pending@,
                s.take(i as int).filter(is_of(*quad)).len() == 0,
            decreases s.len() - i,
        {
            proof {
                s.lemma_take_succ_push(i as int);
                s.take(i as int).lemma_filter_push(s[i as int], is_of(*quad));
            }
            if self.pending[i].quad == *quad {
                proof {
                    let front = s.take(i + 1);
                    let back = s.skip(i + 1);
                    assert(s =~= front + back);
                    Seq::filter_distributes_over_add(front, back, is_of(*quad));
                    assert(front.filter(is_of(*quad)) =~= seq![s[i as int]]);
                    assert(s.filter(is_of(*quad))[0] == s[i as int]);
                }
                return Some(self.pending[i]);
            }
            i += 1;
        }
        proof {
            assert(s.take(s.len() as int) =~= s);
        }
        None
    }

    /// The pending timers without those of `quad`.
    fn others(&self, quad: &ConnectionQuad) -> (kept: Vec<Timer>)
        ensures
            kept@ == cancelled(self@, *quad),
    {
        let ghost s = self.pending@;
        let mut kept: Vec<Timer> = Vec::new();
        let mut i: usize = 0;
        while i < self.pending.len()
            invariant
                i <= s.len(),
                s == self.pending@,
                kept@ == s.take(i as int).filter(not_of(*quad)),
            decreases s.len() - i,
        {
            proof {
                s.lemma_take_succ_push(i as int);
                s.take(i as int).lemma_filter_push(s[i as int], not_of(*quad));
            }
            let timer = self.pending[i];
            if timer.quad != *quad {
                kept.push(timer);
            }
            i += 1;
        }
        proof {
            assert(s.take(s.len() as int) =~= s);
        }
        kept
    }

    /// Cancels the timers of `quad`. The others stay, in their order.
    pub fn cancel(&mut self, quad: &ConnectionQuad)
        ensures
            final(self)@ == cancelled(old(self)@, *quad),
    {
        let kept = self.others(quad);
        self.pending = kept;
    }

    /// Gives `quad` a timer of kind `kind`. Where its pending timer is of
    /// that kind, it keeps its deadline; otherwise a new one, started at
    /// `now`, replaces whatever was pending for `quad`.
    pub fn arm(&mut self, quad: &ConnectionQuad, kind: TimerKind, now: u64)
        ensures
            final(self)@ == armed(old(self)@, *quad, kind, now),
    {
        if let Some(pending) = self.get(quad) {
            if pending.kind == kind {
                return ;
            }
        }
        let mut kept = self.others(quad);
        kept.push(Timer { quad: *quad, kind, deadline: now.saturating_add(kind.duration()) });
        self.pending = kept;
    }

    /// The timers that have reached their deadline at `now`, in the order
    /// in which they were started.
    pub fn due(&self, now: u64) -> (r: Vec<Timer>)
        ensures
            r@ == due_at(self@, now),
    {
        let ghost s = self.pending@;
        let mut found: Vec<Timer> = Vec::new();
        let mut i: usize = 0;
        while i < self.pending.len()
            invariant
                i <= s.len(),
                s == self.pending@,
                found@ == s.take(i as int).filter(is_due(now)),
            decreases s.len() - i,
        {
            proof {
                s.lemma_take_succ_push(i as int);
                s.take(i as int).lemma_filter_push(s[i as int], is_due(now));
            }
            let timer = self.pending[i];
            if timer.deadline <= now {
                found.push(timer);
            }
            i += 1;
        }
        proof {
            assert(s.take(s.len() as int) =~= s);
        }
        found
    }

    /// The earliest deadline among the pending timers: until then nothing
    /// is due.
    pub fn next_deadline(&self) -> (r: Option<u64>)
        ensures
            r.is_none() <==> self@.len() == 0,
            r matches Some(d) ==> {
                &&& exists|i: int| 0 <= i < self@.len() && self@[i].deadline == d
                &&& forall|i: int| 0 <= i < self@.len() ==> d <= self@[i].deadline
            },
    {
        let mut earliest: Option<u64> = None;
        let mut i: usize = 0;
        while i < self.pending.len()
            invariant
                i <= self.pending@.len(),
                earliest.is_none() <==> i == 0,
                earliest matches Some(d) ==> {
                    &&& exists|j: int| 0 <= j < i && self.pending@[j].deadline == d
                    &&& forall|j: int| 0 <= j < i ==> d <= self.pending@[j].deadline
                },
            decreases self.pending@.len() - i,
        {
            let deadline = self.pending[i].deadline;
            earliest = match earliest {
                Some(d) => if d <= deadline {
                    Some(d)
                } else {
                    Some(deadline)
                },
                None => Some(deadline),
            };
            i += 1;
        }
        earliest
    }
}

} // verus!
