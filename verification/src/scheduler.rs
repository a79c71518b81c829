//! One-shot deadlines, at most one pending per kind, kept in deadline order.
use vstd::prelude::*;

use crate::event::{ScheduledEvent, ScheduledEventKind};

verus! {

/// Pending deadlines are ordered by due time, and no two share a kind.
pub open spec fn deadline_ordered(s: Seq<ScheduledEvent>) -> bool {
    &&& forall|i: int, j: int|
        0 <= i < j < s.len() ==> #[trigger] s[i].due_at_seconds <= #[trigger] s[j].due_at_seconds
    &&& forall|i: int, j: int|
        0 <= i < s.len() && 0 <= j < s.len() && i != j ==> #[trigger] s[i].kind != #[trigger] s[j].kind
}

/// The deadlines that remain once every deadline of `kind` is dropped.
pub open spec fn without_kind(s: Seq<ScheduledEvent>, kind: ScheduledEventKind) -> Seq<ScheduledEvent> {
    s.filter(|e: ScheduledEvent| e.kind != kind)
}

/// Inserts `e` after every deadline due no later than it and before the
/// first one due later.
pub open spec fn insert_by_deadline(s: Seq<ScheduledEvent>, e: ScheduledEvent) -> Seq<ScheduledEvent>
    decreases s.len(),
{
    if s.len() == 0 {
        seq![e]
    } else if s[0].due_at_seconds <= e.due_at_seconds {
        seq![s[0]] + insert_by_deadline(s.drop_first(), e)
    } else {
        seq![e] + s
    }
}

/// The due time of a deadline set `after_seconds` from `now_seconds`,
/// saturating at the end of the clock's range.
pub open spec fn due_after(now_seconds: u64, after_seconds: u32) -> u64 {
    if now_seconds + after_seconds > u64::MAX {
        u64::MAX
    } else {
        (now_seconds + after_seconds) as u64
    }
}

/// The deadlines after scheduling `kind` `after_seconds` from
/// `now_seconds`: the previous deadline of that kind is replaced.
pub open spec fn scheduled(
    s: Seq<ScheduledEvent>,
    now_seconds: u64,
    after_seconds: u32,
    kind: ScheduledEventKind,
) -> Seq<ScheduledEvent> {
    insert_by_deadline(
        without_kind(s, kind),
        ScheduledEvent { due_at_seconds: due_after(now_seconds, after_seconds), kind },
    )
}

/// How many leading deadlines are due at `now_seconds`.
pub open spec fn due_count(s: Seq<ScheduledEvent>, now_seconds: u64) -> nat
    decreases s.len(),
{
    if s.len() == 0 {
        0
    } else if s[0].due_at_seconds <= now_seconds {
        1 + due_count(s.drop_first(), now_seconds)
    } else {
        0
    }
}

/// The kinds of a sequence of deadlines, in order.
pub open spec fn kinds_of(s: Seq<ScheduledEvent>) -> Seq<ScheduledEventKind> {
    s.map_values(|e: ScheduledEvent| e.kind)
}

/// Whether a deadline of `kind` is pending.
pub open spec fn has_kind(s: Seq<ScheduledEvent>, kind: ScheduledEventKind) -> bool {
    exists|i: int| 0 <= i < s.len() && #[trigger] s[i].kind == kind
}

// ---------------------------------------------------------------------------
// Lemmas about the model.

/// Filtering keeps the deadline order and only keeps pending deadlines.
proof fn lemma_filter_ordered(s: Seq<ScheduledEvent>, p: spec_fn(ScheduledEvent) -> bool)
    requires
        deadline_ordered(s),
    ensures
        deadline_ordered(s.filter(p)),
        forall|x: ScheduledEvent| #[trigger] s.filter(p).contains(x) ==> s.contains(x) && p(x),
    decreases s.len(),
{
    reveal_with_fuel(Seq::filter, 1);
    if s.len() > 0 {
        let d = s.drop_last();
        assert(deadline_ordered(d));
        lemma_filter_ordered(d, p);
        let fd = d.filter(p);
        if p(s.last()) {
            let f = fd.push(s.last());
            assert forall|x: ScheduledEvent| #[trigger] f.contains(x) implies s.contains(x) && p(x) by {
                if x != s.last() {
                    let k = choose|k: int| 0 <= k < f.len() && f[k] == x;
                    assert(fd.contains(x)) by { assert(fd[k] == x); }
                    let j = choose|j: int| 0 <= j < d.len() && d[j] == x;
                    assert(s[j] == x);
                } else {
                    assert(s[s.len() - 1] == x);
                }
            }
            assert forall|i: int, j: int| 0 <= i < j < f.len() implies #[trigger] f[i].due_at_seconds
                <= #[trigger] f[j].due_at_seconds by {
                if j == f.len() - 1 {
                    assert(fd.contains(f[i])) by { assert(fd[i] == f[i]); }
                    let k = choose|k: int| 0 <= k < d.len() && d[k] == f[i];
                    assert(s[k] == f[i]);
                } else {
                    assert(fd[i] == f[i] && fd[j] == f[j]);
                }
            }
            assert forall|i: int, j: int|
                0 <= i < f.len() && 0 <= j < f.len() && i != j implies #[trigger] f[i].kind
                != #[trigger] f[j].kind by {
                if j == f.len() - 1 {
                    assert(fd.contains(f[i])) by { assert(fd[i] == f[i]); }
                    let k = choose|k: int| 0 <= k < d.len() && d[k] == f[i];
                    assert(s[k] == f[i]);
                } else if i == f.len() - 1 {
                    assert(fd.contains(f[j])) by { assert(fd[j] == f[j]); }
                    let k = choose|k: int| 0 <= k < d.len() && d[k] == f[j];
                    assert(s[k] == f[j]);
                } else {
                    assert(fd[i] == f[i] && fd[j] == f[j]);
                }
            }
        }
    }
}

/// Dropping every deadline of `kind` leaves none of that kind.
proof fn lemma_without_kind(s: Seq<ScheduledEvent>, kind: ScheduledEventKind)
    requires
        deadline_ordered(s),
    ensures
        deadline_ordered(without_kind(s, kind)),
        !has_kind(without_kind(s, kind), kind),
        forall|x: ScheduledEvent| #[trigger] without_kind(s, kind).contains(x) ==> s.contains(x),
{
    let p = |e: ScheduledEvent| e.kind != kind;
    lemma_filter_ordered(s, p);
    let f = without_kind(s, kind);
    if has_kind(f, kind) {
        let i = choose|i: int| 0 <= i < f.len() && #[trigger] f[i].kind == kind;
        assert(f.contains(f[i]));
    }
}

/// Inserting at the first later deadline is the deadline-order insertion.
proof fn lemma_insert_by_deadline_at(s: Seq<ScheduledEvent>, e: ScheduledEvent, p: int)
    requires
        0 <= p <= s.len(),
        forall|i: int| 0 <= i < p ==> #[trigger] s[i].due_at_seconds <= e.due_at_seconds,
        p < s.len() ==> s[p].due_at_seconds > e.due_at_seconds,
    ensures
        insert_by_deadline(s, e) == s.insert(p, e),
    decreases s.len(),
{
    if s.len() == 0 {
        assert(s.insert(p, e) =~= seq![e]);
    } else if p == 0 {
        assert(s.insert(p, e) =~= seq![e] + s);
    } else {
        let t = s.drop_first();
        assert forall|i: int| 0 <= i < p - 1 implies #[trigger] t[i].due_at_seconds
            <= e.due_at_seconds by {
            assert(t[i] == s[i + 1]);
        }
        lemma_insert_by_deadline_at(t, e, p - 1);
        assert(s.insert(p, e) =~= seq![s[0]] + t.insert(p - 1, e));
    }
}

/// Inserting a deadline of a kind not yet pending keeps the deadline order.
proof fn lemma_insert_ordered(s: Seq<ScheduledEvent>, e: ScheduledEvent, p: int)
    requires
        deadline_ordered(s),
        !has_kind(s, e.kind),
        0 <= p <= s.len(),
        forall|i: int| 0 <= i < p ==> #[trigger] s[i].due_at_seconds <= e.due_at_seconds,
        forall|i: int| p <= i < s.len() ==> #[trigger] s[i].due_at_seconds > e.due_at_seconds,
    ensures
        deadline_ordered(s.insert(p, e)),
        s.insert(p, e)[p] == e,
        s.insert(p, e).len() == s.len() + 1,
{
    let r = s.insert(p, e);
    assert forall|i: int| 0 <= i < r.len() implies #[trigger] r[i] == (if i < p {
        s[i]
    } else if i == p {
        e
    } else {
        s[i - 1]
    }) by {}
    assert forall|i: int, j: int| 0 <= i < j < r.len() implies #[trigger] r[i].due_at_seconds
        <= #[trigger] r[j].due_at_seconds by {
        if i < p && j > p {
            assert(r[j] == s[j - 1]);
        } else if j > p {
            assert(r[i] == s[i - 1] || r[i] == e);
        }
    }
    assert forall|i: int, j: int| 0 <= i < r.len() && 0 <= j < r.len() && i != j implies #[trigger] r[i].kind
        != #[trigger] r[j].kind by {
        if i == p {
            let jj = if j < p { j } else { j - 1 };
            assert(r[j] == s[jj]);
        } else if j == p {
            let ii = if i < p { i } else { i - 1 };
            assert(r[i] == s[ii]);
        }
    }
}

/// The number of due deadlines is the first index not due.
proof fn lemma_due_count_at(s: Seq<ScheduledEvent>, now_seconds: u64, p: int)
    requires
        0 <= p <= s.len(),
        forall|i: int| 0 <= i < p ==> #[trigger] s[i].due_at_seconds <= now_seconds,
        p < s.len() ==> s[p].due_at_seconds > now_seconds,
    ensures
        due_count(s, now_seconds) == p,
    decreases s.len(),
{
    if s.len() > 0 && p > 0 {
        let t = s.drop_first();
        assert forall|i: int| 0 <= i < p - 1 implies #[trigger] t[i].due_at_seconds
            <= now_seconds by {
            assert(t[i] == s[i + 1]);
        }
        lemma_due_count_at(t, now_seconds, p - 1);
    }
}

/// The index at which [`insert_by_deadline`] places `e` in an ordered
/// sequence.
proof fn lemma_insert_position(s: Seq<ScheduledEvent>, e: ScheduledEvent) -> (p: int)
    requires
        deadline_ordered(s),
    ensures
        0 <= p <= s.len(),
        forall|i: int| 0 <= i < p ==> #[trigger] s[i].due_at_seconds <= e.due_at_seconds,
        forall|i: int| p <= i < s.len() ==> #[trigger] s[i].due_at_seconds > e.due_at_seconds,
        insert_by_deadline(s, e) == s.insert(p, e),
    decreases s.len(),
{
    if s.len() == 0 {
        assert(s.insert(0, e) =~= seq![e]);
        0
    } else if s[0].due_at_seconds <= e.due_at_seconds {
        let t = s.drop_first();
        assert(deadline_ordered(t)) by {
            assert forall|i: int, j: int| 0 <= i < j < t.len() implies #[trigger] t[i].due_at_seconds
                <= #[trigger] t[j].due_at_seconds by {
                assert(t[i] == s[i + 1] && t[j] == s[j + 1]);
            }
            assert forall|i: int, j: int|
                0 <= i < t.len() && 0 <= j < t.len() && i != j implies #[trigger] t[i].kind
                != #[trigger] t[j].kind by {
                assert(t[i] == s[i + 1] && t[j] == s[j + 1]);
            }
        }
        let q = lemma_insert_position(t, e);
        assert forall|i: int| 0 <= i < q + 1 implies #[trigger] s[i].due_at_seconds
            <= e.due_at_seconds by {
            if i > 0 {
                assert(s[i] == t[i - 1]);
            }
        }
        assert forall|i: int| q + 1 <= i < s.len() implies #[trigger] s[i].due_at_seconds
            > e.due_at_seconds by {
            assert(s[i] == t[i - 1]);
        }
        assert(s.insert(q + 1, e) =~= seq![s[0]] + t.insert(q, e));
        q + 1
    } else {
        assert forall|i: int| 0 <= i < s.len() implies #[trigger] s[i].due_at_seconds
            > e.due_at_seconds by {
            assert(s[0].due_at_seconds <= s[i].due_at_seconds);
        }
        assert(s.insert(0, e) =~= seq![e] + s);
        0
    }
}

/// Filtering a sequence whose every element passes the filter changes
/// nothing.
proof fn lemma_filter_all_pass(s: Seq<ScheduledEvent>, p: spec_fn(ScheduledEvent) -> bool)
    requires
        forall|i: int| 0 <= i < s.len() ==> p(#[trigger] s[i]),
    ensures
        s.filter(p) == s,
    decreases s.len(),
{
    reveal_with_fuel(Seq::filter, 1);
    if s.len() > 0 {
        let d = s.drop_last();
        assert forall|i: int| 0 <= i < d.len() implies p(#[trigger] d[i]) by {
            assert(d[i] == s[i]);
        }
        lemma_filter_all_pass(d, p);
        assert(p(s[s.len() - 1]));
        assert(d.push(s.last()) =~= s);
    }
}

/// Scheduling keeps the pending deadlines in deadline order with at most one
/// per kind.
pub proof fn lemma_schedule_keeps_order(
    s: Seq<ScheduledEvent>,
    now_seconds: u64,
    after_seconds: u32,
    kind: ScheduledEventKind,
)
    requires
        deadline_ordered(s),
    ensures
        deadline_ordered(scheduled(s, now_seconds, after_seconds, kind)),
{
    lemma_without_kind(s, kind);
    let f = without_kind(s, kind);
    let e = ScheduledEvent { due_at_seconds: due_after(now_seconds, after_seconds), kind };
    let p = lemma_insert_position(f, e);
    lemma_insert_ordered(f, e, p);
}

/// Dropping `e.kind` from a sequence with `e` inserted into a sequence free
/// of that kind gives back the sequence.
proof fn lemma_without_inserted_kind(f: Seq<ScheduledEvent>, p: int, e: ScheduledEvent)
    requires
        0 <= p <= f.len(),
        !has_kind(f, e.kind),
    ensures
        without_kind(f.insert(p, e), e.kind) == f,
    decreases f.len(),
{
    reveal_with_fuel(Seq::filter, 1);
    let r = f.insert(p, e);
    if p == f.len() {
        assert(r =~= f.push(e));
        assert(r.drop_last() =~= f);
        assert forall|i: int| 0 <= i < f.len() implies (|x: ScheduledEvent| x.kind != e.kind)(
            #[trigger] f[i],
        ) by {
            if f[i].kind == e.kind {
                assert(has_kind(f, e.kind));
            }
        }
        lemma_filter_all_pass(f, |x: ScheduledEvent| x.kind != e.kind);
    } else {
        let d = f.drop_last();
        assert(!has_kind(d, e.kind)) by {
            if has_kind(d, e.kind) {
                let i = choose|i: int| 0 <= i < d.len() && #[trigger] d[i].kind == e.kind;
                assert(f[i].kind == e.kind);
            }
        }
        lemma_without_inserted_kind(d, p, e);
        assert(r.drop_last() =~= d.insert(p, e));
        assert(r.last() == f.last());
        assert(f.last().kind != e.kind) by {
            if f.last().kind == e.kind {
                assert(f[f.len() - 1].kind == e.kind);
            }
        }
        assert(d.push(f.last()) =~= f);
    }
}

/// After scheduling `kind`, exactly one deadline of `kind` is pending, due
/// `after_seconds` after `now_seconds` (saturating), and the deadlines of
/// every other kind are exactly those pending before, in the same order.
/// Cancelling `kind` right after therefore undoes the scheduling.
pub proof fn lemma_schedule_then_cancel(
    s: Seq<ScheduledEvent>,
    now_seconds: u64,
    after_seconds: u32,
    kind: ScheduledEventKind,
)
    requires
        deadline_ordered(s),
    ensures
        has_kind(scheduled(s, now_seconds, after_seconds, kind), kind),
        scheduled(s, now_seconds, after_seconds, kind).contains(
            ScheduledEvent { due_at_seconds: due_after(now_seconds, after_seconds), kind },
        ),
        without_kind(scheduled(s, now_seconds, after_seconds, kind), kind) == without_kind(s, kind),
{
    lemma_without_kind(s, kind);
    let f = without_kind(s, kind);
    let e = ScheduledEvent { due_at_seconds: due_after(now_seconds, after_seconds), kind };
    let p = lemma_insert_position(f, e);
    let r = f.insert(p, e);
    assert(r[p] == e);
    lemma_without_inserted_kind(f, p, e);
}

/// Scheduling the same kind twice leaves only the second deadline: the
/// result is as if the first had never been scheduled.
pub proof fn lemma_reschedule_replaces(
    s: Seq<ScheduledEvent>,
    first_now: u64,
    first_after: u32,
    now_seconds: u64,
    after_seconds: u32,
    kind: ScheduledEventKind,
)
    requires
        deadline_ordered(s),
    ensures
        scheduled(scheduled(s, first_now, first_after, kind), now_seconds, after_seconds, kind)
            == scheduled(s, now_seconds, after_seconds, kind),
{
    lemma_schedule_then_cancel(s, first_now, first_after, kind);
}

/// Cancelling keeps the deadline order and leaves nothing of the cancelled
/// kind; the deadlines of other kinds are untouched.
pub proof fn lemma_cancel_keeps_others(s: Seq<ScheduledEvent>, kind: ScheduledEventKind)
    requires
        deadline_ordered(s),
    ensures
        deadline_ordered(without_kind(s, kind)),
        !has_kind(without_kind(s, kind), kind),
        forall|i: int|
            0 <= i < s.len() && #[trigger] s[i].kind != kind ==> without_kind(s, kind).contains(
                s[i],
            ),
{
    lemma_without_kind(s, kind);
    assert forall|i: int| 0 <= i < s.len() && #[trigger] s[i].kind != kind implies without_kind(
        s,
        kind,
    ).contains(s[i]) by {
        s.lemma_filter_contains(|e: ScheduledEvent| e.kind != kind, i);
    }
}

/// Taking the due deadlines returns them in deadline order, every one due;
/// everything left is due later, still in deadline order.
pub proof fn lemma_take_due_splits(s: Seq<ScheduledEvent>, now_seconds: u64)
    requires
        deadline_ordered(s),
    ensures
        due_count(s, now_seconds) <= s.len(),
        forall|i: int|
            0 <= i < due_count(s, now_seconds) ==> #[trigger] s[i].due_at_seconds <= now_seconds,
        forall|i: int|
            due_count(s, now_seconds) <= i < s.len() ==> #[trigger] s[i].due_at_seconds
                > now_seconds,
        deadline_ordered(s.skip(due_count(s, now_seconds) as int)),
    decreases s.len(),
{
    if s.len() > 0 && s[0].due_at_seconds <= now_seconds {
        let t = s.drop_first();
        assert(deadline_ordered(t)) by {
            assert forall|i: int, j: int| 0 <= i < j < t.len() implies #[trigger] t[i].due_at_seconds
                <= #[trigger] t[j].due_at_seconds by {
                assert(t[i] == s[i + 1] && t[j] == s[j + 1]);
            }
            assert forall|i: int, j: int|
                0 <= i < t.len() && 0 <= j < t.len() && i != j implies #[trigger] t[i].kind
                != #[trigger] t[j].kind by {
                assert(t[i] == s[i + 1] && t[j] == s[j + 1]);
            }
        }
        lemma_take_due_splits(t, now_seconds);
        let n = due_count(s, now_seconds);
        assert forall|i: int| 0 <= i < n implies #[trigger] s[i].due_at_seconds <= now_seconds by {
            if i > 0 {
                assert(s[i] == t[i - 1]);
            }
        }
        assert forall|i: int| n <= i < s.len() implies #[trigger] s[i].due_at_seconds
            > now_seconds by {
            assert(s[i] == t[i - 1]);
        }
        assert(s.skip(n as int) =~= t.skip(n - 1));
    } else if s.len() > 0 {
        assert forall|i: int| 0 <= i < s.len() implies #[trigger] s[i].due_at_seconds
            > now_seconds by {
            assert(s[0].due_at_seconds <= s[i].due_at_seconds);
        }
        assert(s.skip(0) =~= s);
    } else {
        assert(s.skip(0) =~= s);
    }
}

// ---------------------------------------------------------------------------
// The scheduler.

/// The pending one-shot deadlines of the control runtime.
#[derive(Debug, PartialEq, Eq)]
pub struct DeadlineScheduler {
    events: Vec<ScheduledEvent>,
}

impl View for DeadlineScheduler {
    type V = Seq<ScheduledEvent>;

    closed spec fn view(&self) -> Seq<ScheduledEvent> {
        self.events@
    }
}

impl DeadlineScheduler {
    #[verifier::type_invariant]
    spec fn well_formed(self) -> bool {
        deadline_ordered(self.events@)
    }
}

impl Clone for DeadlineScheduler {
    /// A scheduler with the same pending deadlines.
    fn clone(&self) -> (copy: Self)
        ensures
            copy@ == self@,
    {
        proof {
            use_type_invariant(self);
        }
        let mut events: Vec<ScheduledEvent> = Vec::new();
        let mut index: usize = 0;
        while index < self.events.len()
            invariant
                index <= self.events@.len(),
                events@ == self.events@.take(index as int),
            decreases self.events@.len() - index,
        {
            events.push(self.events[index]);
            proof {
                assert(self.events@.take(index + 1) =~= self.events@.take(index as int).push(
                    self.events@[index as int],
                ));
            }
            index += 1;
        }
        proof {
            assert(events@ =~= self.events@);
        }
        DeadlineScheduler { events }
    }
}

impl Default for DeadlineScheduler {
    /// A scheduler with nothing pending.
    fn default() -> (scheduler: Self)
        ensures
            scheduler@ == Seq::<ScheduledEvent>::empty(),
    {
        DeadlineScheduler { events: Vec::new() }
    }
}

impl DeadlineScheduler {
    /// Sets the deadline of `kind` to `after_seconds` from `now_seconds`
    /// (saturating), replacing any pending deadline of the same kind.
    pub fn schedule_after(&mut self, now_seconds: u64, after_seconds: u32, kind: ScheduledEventKind)
        ensures
            final(self)@ == scheduled(old(self)@, now_seconds, after_seconds, kind),
            deadline_ordered(final(self)@),
    {
        self.cancel(kind);
        let due_at_seconds = now_seconds.saturating_add(after_seconds as u64);
        let event = ScheduledEvent { due_at_seconds, kind };
        let mut position: usize = 0;
        while position < self.events.len() && self.events[position].due_at_seconds <= due_at_seconds
            invariant
                position <= self.events@.len(),
                forall|i: int| 0 <= i < position ==> #[trigger] self.events@[i].due_at_seconds
                    <= due_at_seconds,
            decreases self.events@.len() - position,
        {
            position += 1;
        }
        proof {
            let s = self.events@;
            assert forall|i: int| position <= i < s.len() implies #[trigger] s[i].due_at_seconds
                > due_at_seconds by {
                assert(s[position as int].due_at_seconds <= s[i].due_at_seconds);
            }
            lemma_insert_ordered(s, event, position as int);
            lemma_insert_by_deadline_at(s, event, position as int);
        }
        let mut events = Vec::new();
        std::mem::swap(&mut events, &mut self.events);
        events.insert(position, event);
        self.events = events;
    }

    /// Drops the pending deadline of `kind`, if any; the others keep their
    /// order.
    pub fn cancel(&mut self, kind: ScheduledEventKind)
        ensures
            final(self)@ == without_kind(old(self)@, kind),
            deadline_ordered(final(self)@),
            !has_kind(final(self)@, kind),
    {
        proof {
            use_type_invariant(&*self);
        }
        let mut kept: Vec<ScheduledEvent> = Vec::new();
        let mut index: usize = 0;
        while index < self.events.len()
            invariant
                index <= self.events@.len(),
                self.events@ == old(self)@,
                kept@ == without_kind(self.events@.take(index as int), kind),
            decreases self.events@.len() - index,
        {
            let event = self.events[index];
            proof {
                let s = self.events@;
                let t = s.take(index + 1);
                assert(t.drop_last() =~= s.take(index as int));
                assert(t.last() == event);
                reveal_with_fuel(Seq::filter, 1);
                assert(without_kind(t, kind) == (if event.kind != kind {
                    without_kind(s.take(index as int), kind).push(event)
                } else {
                    without_kind(s.take(index as int), kind)
                }));
            }
            if event.kind != kind {
                kept.push(event);
            }
            index += 1;
        }
        proof {
            assert(self.events@.take(self.events@.len() as int) =~= self.events@);
            lemma_without_kind(old(self)@, kind);
        }
        self.events = kept;
    }

    /// Removes and returns, in deadline order, the kinds of every deadline
    /// due at `now_seconds`.
    pub fn take_due(&mut self, now_seconds: u64) -> (due: Vec<ScheduledEventKind>)
        ensures
            due@ == kinds_of(old(self)@.take(due_count(old(self)@, now_seconds) as int)),
            final(self)@ == old(self)@.skip(due_count(old(self)@, now_seconds) as int),
            forall|i: int| 0 <= i < final(self)@.len() ==> now_seconds
                < #[trigger] final(self)@[i].due_at_seconds,
            deadline_ordered(final(self)@),
    {
        proof {
            use_type_invariant(&*self);
        }
        let mut due: Vec<ScheduledEventKind> = Vec::new();
        let mut split: usize = 0;
        while split < self.events.len() && self.events[split].due_at_seconds <= now_seconds
            invariant
                split <= self.events@.len(),
                self.events@ == old(self)@,
                forall|i: int| 0 <= i < split ==> #[trigger] self.events@[i].due_at_seconds
                    <= now_seconds,
                due@ == kinds_of(self.events@.take(split as int)),
            decreases self.events@.len() - split,
        {
            due.push(self.events[split].kind);
            proof {
                assert(kinds_of(self.events@.take(split + 1)) =~= kinds_of(
                    self.events@.take(split as int),
                ).push(self.events@[split as int].kind));
            }
            split += 1;
        }
        let mut rest: Vec<ScheduledEvent> = Vec::new();
        let mut index: usize = split;
        while index < self.events.len()
            invariant
                split <= index <= self.events@.len(),
                self.events@ == old(self)@,
                rest@ == self.events@.subrange(split as int, index as int),
            decreases self.events@.len() - index,
        {
            rest.push(self.events[index]);
            proof {
                assert(self.events@.subrange(split as int, index + 1) =~= self.events@.subrange(
                    split as int,
                    index as int,
                ).push(self.events@[index as int]));
            }
            index += 1;
        }
        proof {
            let s = self.events@;
            lemma_due_count_at(s, now_seconds, split as int);
            assert(rest@ =~= s.skip(split as int));
            if split < s.len() {
                assert forall|i: int| 0 <= i < rest@.len() implies now_seconds
                    < #[trigger] rest@[i].due_at_seconds by {
                    assert(rest@[i] == s[split + i]);
                    assert(s[split as int].due_at_seconds <= s[split + i].due_at_seconds);
                }
            }
            assert forall|i: int, j: int| 0 <= i < j < rest@.len() implies #[trigger] rest@[i].due_at_seconds
                <= #[trigger] rest@[j].due_at_seconds by {
                assert(rest@[i] == s[split + i] && rest@[j] == s[split + j]);
            }
            assert forall|i: int, j: int|
                0 <= i < rest@.len() && 0 <= j < rest@.len() && i != j implies #[trigger] rest@[i].kind
                != #[trigger] rest@[j].kind by {
                assert(rest@[i] == s[split + i] && rest@[j] == s[split + j]);
            }
        }
        self.events = rest;
        due
    }

    /// The earliest pending deadline, if any.
    pub fn next_due_at(&self) -> (next: Option<u64>)
        ensures
            next == (if self@.len() == 0 {
                None
            } else {
                Some(self@[0].due_at_seconds)
            }),
            forall|i: int| 0 <= i < self@.len() ==> next.unwrap() <= #[trigger] self@[i].due_at_seconds,
            deadline_ordered(self@),
    {
        proof {
            use_type_invariant(self);
        }
        if self.events.len() == 0 {
            None
        } else {
            Some(self.events[0].due_at_seconds)
        }
    }

    /// Whether a deadline of `kind` is pending.
    pub fn contains(&self, kind: ScheduledEventKind) -> (pending: bool)
        ensures
            pending == has_kind(self@, kind),
            deadline_ordered(self@),
    {
        proof {
            use_type_invariant(self);
        }
        let mut index: usize = 0;
        while index < self.events.len()
            invariant
                index <= self.events@.len(),
                deadline_ordered(self@),
                forall|i: int| 0 <= i < index ==> #[trigger] self.events@[i].kind != kind,
            decreases self.events@.len() - index,
        {
            if self.events[index].kind == kind {
                return true;
            }
            index += 1;
        }
        false
    }
}

} // verus!
