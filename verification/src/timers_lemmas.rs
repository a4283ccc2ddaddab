//! What holds of timer lists in which no quad has two timers.

use vstd::prelude::*;
use crate::segment::ConnectionQuad;
use crate::timers::{armed, cancelled, due_at, is_due, is_of, not_of, started, timer_of, Timer, TimerKind};

verus! {

/// No two timers of `s` are for the same quad.
pub open spec fn distinct(s: Seq<Timer>) -> bool {
    forall|i: int, j: int| 0 <= i < j < s.len() ==> (#[trigger] s[i]).quad != (#[trigger] s[j]).quad
}

/// Whether `s` holds a timer for `quad`.
pub open spec fn holds(s: Seq<Timer>, quad: ConnectionQuad) -> bool {
    exists|i: int| 0 <= i < s.len() && (#[trigger] s[i]).quad == quad
}

/// A selection holds exactly the timers of the list that it selects.
pub proof fn lemma_filter_members(s: Seq<Timer>, p: spec_fn(Timer) -> bool)
    ensures
        forall|x: Timer| #[trigger] s.filter(p).contains(x) <==> s.contains(x) && p(x),
    decreases s.len(),
{
    reveal(Seq::filter);
    if s.len() == 0 {
        assert(s.filter(p) =~= Seq::<Timer>::empty());
    } else {
        let front = s.drop_last();
        let last = s.last();
        lemma_filter_members(front, p);
        assert(s =~= front.push(last));
        front.lemma_filter_push(last, p);
        let out = s.filter(p);
        assert forall|x: Timer| #[trigger] out.contains(x) <==> s.contains(x) && p(x) by {
            if out.contains(x) {
                let k = choose|k: int| 0 <= k < out.len() && out[k] == x;
                if p(last) && k == out.len() - 1 {
                    assert(s[s.len() - 1] == x);
                } else {
                    assert(front.filter(p)[k] == x);
                    assert(front.filter(p).contains(x));
                    let j = choose|j: int| 0 <= j < front.len() && front[j] == x;
                    assert(s[j] == x);
                }
            }
            if s.contains(x) && p(x) {
                let j = choose|j: int| 0 <= j < s.len() && s[j] == x;
                if j == s.len() - 1 {
                    assert(out[out.len() - 1] == x);
                } else {
                    assert(front[j] == x);
                    assert(front.filter(p).contains(x));
                    let k = choose|k: int| 0 <= k < front.filter(p).len() && front.filter(p)[k]
                        == x;
                    assert(out[k] == x);
                }
            }
        }
    }
}

/// A selection from a list without repeated quads has no repeated quads.
pub proof fn lemma_filter_distinct(s: Seq<Timer>, p: spec_fn(Timer) -> bool)
    requires
        distinct(s),
    ensures
        distinct(s.filter(p)),
    decreases s.len(),
{
    reveal(Seq::filter);
    if s.len() == 0 {
        assert(s.filter(p) =~= Seq::<Timer>::empty());
    } else {
        let front = s.drop_last();
        let last = s.last();
        assert(distinct(front)) by {
            assert forall|i: int, j: int| 0 <= i < j < front.len() implies (#[trigger] front[i]).quad
                != (#[trigger] front[j]).quad by {
                assert(s[i].quad != s[j].quad);
            }
        }
        lemma_filter_distinct(front, p);
        lemma_filter_members(front, p);
        assert(s =~= front.push(last));
        front.lemma_filter_push(last, p);
        let kept = front.filter(p);
        let out = s.filter(p);
        if p(last) {
            assert forall|i: int, j: int| 0 <= i < j < out.len() implies (#[trigger] out[i]).quad
                != (#[trigger] out[j]).quad by {
                if j == out.len() - 1 {
                    assert(kept.contains(kept[i]));
                    let k = choose|k: int| 0 <= k < front.len() && front[k] == kept[i];
                    assert(s[k].quad != s[s.len() - 1].quad);
                } else {
                    assert(kept[i].quad != kept[j].quad);
                }
            }
        }
    }
}

/// In a list without repeated quads, the timer of a quad is the one timer
/// that is for it.
pub proof fn lemma_timer_of(s: Seq<Timer>, quad: ConnectionQuad)
    ensures
        timer_of(s, quad).is_some() <==> holds(s, quad),
        timer_of(s, quad) matches Some(t) ==> t.quad == quad && s.contains(t),
        distinct(s) ==> forall|i: int|
            0 <= i < s.len() && (#[trigger] s[i]).quad == quad ==> timer_of(s, quad) == Some(s[i]),
{
    lemma_filter_members(s, is_of(quad));
    let found = s.filter(is_of(quad));
    if found.len() > 0 {
        assert(found.contains(found[0]));
        let k = choose|k: int| 0 <= k < s.len() && s[k] == found[0];
        assert(s[k].quad == quad);
    }
    if holds(s, quad) {
        let i = choose|i: int| 0 <= i < s.len() && (#[trigger] s[i]).quad == quad;
        assert(s.contains(s[i]));
        assert(found.contains(s[i]));
    }
    if distinct(s) {
        assert forall|i: int| 0 <= i < s.len() && (#[trigger] s[i]).quad == quad implies timer_of(
            s,
            quad,
        ) == Some(s[i]) by {
            assert(s.contains(s[i]));
            assert(found.contains(s[i]));
            assert(found.contains(found[0]));
            let k = choose|k: int| 0 <= k < s.len() && s[k] == found[0];
            if k < i {
                assert(s[k].quad != s[i].quad);
            } else if i < k {
                assert(s[i].quad != s[k].quad);
            }
        }
    }
}

/// Cancelling the timers of a quad leaves it without one and every other
/// quad with what it had.
pub proof fn lemma_cancelled(s: Seq<Timer>, quad: ConnectionQuad, other: ConnectionQuad)
    requires
        distinct(s),
    ensures
        distinct(cancelled(s, quad)),
        timer_of(cancelled(s, quad), quad).is_none(),
        other != quad ==> timer_of(cancelled(s, quad), other) == timer_of(s, other),
        forall|x: Timer| #[trigger] cancelled(s, quad).contains(x) <==> s.contains(x) && x.quad != quad,
{
    let c = cancelled(s, quad);
    lemma_filter_distinct(s, not_of(quad));
    lemma_filter_members(s, not_of(quad));
    lemma_timer_of(c, quad);
    if holds(c, quad) {
        let i = choose|i: int| 0 <= i < c.len() && (#[trigger] c[i]).quad == quad;
        assert(c.contains(c[i]));
    }
    if other != quad {
        lemma_timer_of(c, other);
        lemma_timer_of(s, other);
        if holds(s, other) {
            let i = choose|i: int| 0 <= i < s.len() && (#[trigger] s[i]).quad == other;
            assert(s.contains(s[i]));
            assert(c.contains(s[i]));
            let k = choose|k: int| 0 <= k < c.len() && c[k] == s[i];
            assert(c[k].quad == other);
        }
        if holds(c, other) {
            let k = choose|k: int| 0 <= k < c.len() && (#[trigger] c[k]).quad == other;
            assert(c.contains(c[k]));
            let i = choose|i: int| 0 <= i < s.len() && s[i] == c[k];
            assert(s[i].quad == other);
        }
    }
}

/// Arming a timer for a quad leaves it with exactly one timer, of the kind
/// asked for, and every other quad with what it had.
pub proof fn lemma_armed(
    s: Seq<Timer>,
    quad: ConnectionQuad,
    kind: TimerKind,
    now: u64,
    other: ConnectionQuad,
)
    requires
        distinct(s),
    ensures
        distinct(armed(s, quad, kind, now)),
        timer_of(armed(s, quad, kind, now), quad).is_some(),
        timer_of(armed(s, quad, kind, now), quad)->Some_0.kind == kind,
        timer_of(armed(s, quad, kind, now), quad)->Some_0.quad == quad,
        timer_of(s, quad).is_some() && timer_of(s, quad)->Some_0.kind == kind ==> armed(
            s,
            quad,
            kind,
            now,
        ) == s,
        !(timer_of(s, quad).is_some() && timer_of(s, quad)->Some_0.kind == kind) ==> timer_of(
            armed(s, quad, kind, now),
            quad,
        ) == Some(started(quad, kind, now)),
        other != quad ==> timer_of(armed(s, quad, kind, now), other) == timer_of(s, other),
        forall|x: Timer| #[trigger]
            armed(s, quad, kind, now).contains(x) ==> (s.contains(x) && x.quad != quad) || (x.quad
                == quad && x.kind == kind),
{
    let a = armed(s, quad, kind, now);
    lemma_timer_of(s, quad);
    if timer_of(s, quad).is_some() && timer_of(s, quad)->Some_0.kind == kind {
        assert(a == s);
        assert forall|x: Timer| #[trigger] a.contains(x) implies (s.contains(x) && x.quad != quad)
            || (x.quad == quad && x.kind == kind) by {
            let i = choose|i: int| 0 <= i < s.len() && s[i] == x;
            if x.quad == quad {
                assert(s[i].quad == quad);
                assert(timer_of(s, quad) == Some(s[i]));
            }
        }
    } else {
        let c = cancelled(s, quad);
        let t = started(quad, kind, now);
        lemma_cancelled(s, quad, other);
        assert(a == c.push(t));
        assert(distinct(a)) by {
            assert forall|i: int, j: int| 0 <= i < j < a.len() implies (#[trigger] a[i]).quad != (
            #[trigger] a[j]).quad by {
                if j == a.len() - 1 {
                    assert(c.contains(c[i]));
                } else {
                    assert(c[i].quad != c[j].quad);
                }
            }
        }
        assert(a[a.len() - 1] == t);
        lemma_timer_of(a, quad);
        assert forall|x: Timer| #[trigger] a.contains(x) implies (s.contains(x) && x.quad != quad)
            || (x.quad == quad && x.kind == kind) by {
            let i = choose|i: int| 0 <= i < a.len() && a[i] == x;
            if i < c.len() {
                assert(c.contains(c[i]));
            }
        }
        if other != quad {
            lemma_timer_of(a, other);
            lemma_timer_of(c, other);
            if holds(c, other) {
                let k = choose|k: int| 0 <= k < c.len() && (#[trigger] c[k]).quad == other;
                assert(a[k].quad == other);
                assert(timer_of(a, other) == Some(a[k]));
                assert(timer_of(c, other) == Some(c[k]));
            }
            if holds(a, other) {
                let k = choose|k: int| 0 <= k < a.len() && (#[trigger] a[k]).quad == other;
                assert(k < c.len());
                assert(c[k].quad == other);
            }
        }
    }
}

/// The timers that are due are exactly the pending ones whose deadline
/// has come.
pub proof fn lemma_due(s: Seq<Timer>, now: u64)
    ensures
        forall|x: Timer| #[trigger] due_at(s, now).contains(x) <==> s.contains(x) && x.deadline <= now,
        distinct(s) ==> distinct(due_at(s, now)),
{
    lemma_filter_members(s, is_due(now));
    if distinct(s) {
        lemma_filter_distinct(s, is_due(now));
    }
}

} // verus!
