//! The append-only event log and its watermark queries.

use crate::event::{format_timestamp_millis, rfc3339_of, StoredEvent};
use vstd::prelude::*;

verus! {

/// Events ordered by ingestion instant, earliest first.
pub open spec fn ordered(s: Seq<StoredEvent>) -> bool {
    forall|i: int, j: int| 0 <= i < j < s.len() ==> s[i].recorded_at <= s[j].recorded_at
}

/// No two events share an identifier.
pub open spec fn ids_unique(s: Seq<StoredEvent>) -> bool {
    forall|i: int, j: int| 0 <= i < j < s.len() ==> s[i].id@ != s[j].id@
}

/// An event recorded at `at` is past the watermark `since` (every event is
/// past an unset watermark).
pub open spec fn past(at: i64, since: Option<i64>) -> bool {
    match since {
        None => true,
        Some(w) => at > w,
    }
}

/// The events of `events` past the watermark `since`, in log order.
pub open spec fn delta_of(events: Seq<StoredEvent>, since: Option<i64>) -> Seq<StoredEvent> {
    events.filter(|e: StoredEvent| past(e.recorded_at, since))
}

/// Whether `at` is at or before the read mark `mark` (nothing is before an
/// unset mark).
pub open spec fn sealed(at: i64, mark: Option<i64>) -> bool {
    match mark {
        None => false,
        Some(m) => at <= m,
    }
}

/// The read mark after a cycle reads the log at `at`: never lowered.
pub open spec fn raised(mark: Option<i64>, at: i64) -> Option<i64> {
    match mark {
        None => Some(at),
        Some(m) => if m < at {
            Some(at)
        } else {
            Some(m)
        },
    }
}

/// Why an insert was refused.
#[derive(Debug)]
pub enum LogError {
    /// The event is recorded before the last event of the log.
    OutOfOrder,
    /// The event is recorded at or before an instant from which an export
    /// cycle has already read the log.
    Sealed,
    /// The event's instant has no RFC 3339 form.
    Unrepresentable,
    /// An event with the same identifier is already in the log.
    DuplicateId,
}

/// Append-only store of ingested events, ordered by ingestion instant.
pub struct EventLog {
    rows: Vec<StoredEvent>,
    read_mark: Option<i64>,
}

impl View for EventLog {
    type V = Seq<StoredEvent>;

    closed spec fn view(&self) -> Seq<StoredEvent> {
        self.rows@
    }
}

impl EventLog {
    /// The latest instant at which an export cycle has read the log; events
    /// recorded at or before it are refused.
    pub closed spec fn read_mark(&self) -> Option<i64> {
        self.read_mark
    }

    /// The log's invariant: ordered by ingestion instant, identifiers
    /// unique, every instant with an RFC 3339 form.
    pub open spec fn wf(&self) -> bool {
        &&& ordered(self@)
        &&& ids_unique(self@)
        &&& forall|i: int| 0 <= i < self@.len() ==> (#[trigger] rfc3339_of(self@[i].recorded_at)) is Some
    }

    /// An empty log that no cycle has read.
    pub fn new() -> (r: EventLog)
        ensures
            r@ == Seq::<StoredEvent>::empty(),
            r.read_mark() is None,
            r.wf(),
    {
        EventLog { rows: Vec::new(), read_mark: None }
    }

    /// The number of events held.
    pub fn len(&self) -> (r: usize)
        ensures
            r == self@.len(),
    {
        self.rows.len()
    }

    /// Records that an export cycle read the log at `at`.
    pub fn mark_read(&mut self, at: i64)
        ensures
            final(self)@ == old(self)@,
            final(self).read_mark() == raised(old(self).read_mark(), at),
            old(self).wf() ==> final(self).wf(),
    {
        self.read_mark = match self.read_mark {
            None => Some(at),
            Some(m) => if m < at {
                Some(at)
            } else {
                Some(m)
            },
        };
    }

    /// An ingestion instant for an event arriving at `now` that the log
    /// accepts: `now`, raised to the last event's instant and past the read
    /// mark. `None` only when the read mark is the largest instant.
    pub fn stamp(&self, now: i64) -> (r: Option<i64>)
        ensures
            r is None <==> self.read_mark() == Some(i64::MAX),
            r matches Some(t) ==> {
                &&& t >= now
                &&& (self@.len() > 0 ==> t >= self@.last().recorded_at)
                &&& !sealed(t, self.read_mark())
            },
    {
        let mut t = now;
        let n = self.rows.len();
        if n > 0 && self.rows[n - 1].recorded_at > t {
            t = self.rows[n - 1].recorded_at;
        }
        match self.read_mark {
            None => Some(t),
            Some(m) => if m == i64::MAX {
                None
            } else if m >= t {
                Some(m + 1)
            } else {
                Some(t)
            },
        }
    }

    /// Appends `e`, leaving the read mark as it is. Refused, leaving the log
    /// as it was, when `e` is recorded before the last event, at or before
    /// the read mark, at an instant without RFC 3339 form, or when its
    /// identifier is already present.
    pub fn insert(&mut self, e: StoredEvent) -> (r: Result<(), LogError>)
        requires
            old(self).wf(),
        ensures
            final(self).wf(),
            final(self).read_mark() == old(self).read_mark(),
            r matches Err(LogError::OutOfOrder) ==> old(self)@.len() > 0 && e.recorded_at
                < old(self)@.last().recorded_at,
            r matches Err(LogError::Sealed) ==> sealed(e.recorded_at, old(self).read_mark()),
            r matches Err(LogError::Unrepresentable) ==> rfc3339_of(e.recorded_at) is None,
            r matches Err(LogError::DuplicateId) ==> exists|i: int|
                0 <= i < old(self)@.len() && old(self)@[i].id@ == e.id@,
            r is Ok <==> {
                &&& !(old(self)@.len() > 0 && e.recorded_at < old(self)@.last().recorded_at)
                &&& !sealed(e.recorded_at, old(self).read_mark())
                &&& rfc3339_of(e.recorded_at) is Some
                &&& forall|i: int| 0 <= i < old(self)@.len() ==> old(self)@[i].id@ != e.id@
            },
            r is Ok ==> final(self)@ == old(self)@.push(e),
            r is Err ==> final(self)@ == old(self)@,
    {
        let n = self.rows.len();
        if n > 0 && e.recorded_at < self.rows[n - 1].recorded_at {
            return Err(LogError::OutOfOrder);
        }
        if let Some(m) = self.read_mark {
            if e.recorded_at <= m {
                return Err(LogError::Sealed);
            }
        }
        if format_timestamp_millis(e.recorded_at).is_none() {
            return Err(LogError::Unrepresentable);
        }
        let mut i: usize = 0;
        while i < n
            invariant
                self.rows@ == old(self).rows@,
                self.read_mark == old(self).read_mark,
                old(self).wf(),
                n == self.rows@.len(),
                !(n > 0 && e.recorded_at < self.rows@[n - 1].recorded_at),
                forall|k: int| 0 <= k < i ==> self.rows@[k].id@ != e.id@,
            decreases n - i,
        {
            if self.rows[i].id == e.id {
                return Err(LogError::DuplicateId);
            }
            i += 1;
        }
        let ghost before = self.rows@;
        self.rows.push(e);
        proof {
            assert(forall|k: int| 0 <= k < before.len() ==> self.rows@[k] == before[k]);
            assert(forall|k: int| 0 <= k < before.len() ==> before[k].recorded_at <= e.recorded_at);
        }
        Ok(())
    }

    /// The events recorded strictly after `since` (all events when `since` is
    /// unset), earliest first.
    pub fn query_since(&self, since: Option<i64>) -> (r: Vec<StoredEvent>)
        ensures
            r@ == delta_of(self@, since),
    {
        let mut out: Vec<StoredEvent> = Vec::new();
        let mut i: usize = 0;
        while i < self.rows.len()
            invariant
                i <= self.rows@.len(),
                out@ == delta_of(self.rows@.take(i as int), since),
            decreases self.rows@.len() - i,
        {
            let e = self.rows[i].copy();
            proof {
                reveal(Seq::filter);
                assert(self.rows@.take(i + 1).drop_last() =~= self.rows@.take(i as int));
                assert(self.rows@.take(i + 1).last() == e);
            }
            let keep = match since {
                None => true,
                Some(w) => e.recorded_at > w,
            };
            if keep {
                out.push(e);
            }
            i += 1;
        }
        assert(self.rows@.take(i as int) =~= self.rows@);
        out
    }

    /// Every event of the log, earliest first.
    pub fn scan_all(&self) -> (r: Vec<StoredEvent>)
        ensures
            r@ == self@,
    {
        let mut out: Vec<StoredEvent> = Vec::new();
        let mut i: usize = 0;
        while i < self.rows.len()
            invariant
                i <= self.rows@.len(),
                out@ == self.rows@.take(i as int),
            decreases self.rows@.len() - i,
        {
            out.push(self.rows[i].copy());
            i += 1;
            assert(out@ =~= self.rows@.take(i as int));
        }
        assert(self.rows@.take(i as int) =~= self.rows@);
        out
    }
}

/// A delta holds exactly the events of the log that are past the watermark,
/// and, the log being ordered, it is ordered too.
pub proof fn lemma_delta_exact(events: Seq<StoredEvent>, since: Option<i64>)
    requires
        ordered(events),
    ensures
        forall|e: StoredEvent|
            delta_of(events, since).contains(e) <==> (events.contains(e) && past(
                e.recorded_at,
                since,
            )),
        ordered(delta_of(events, since)),
    decreases events.len(),
{
    let pred = |e: StoredEvent| past(e.recorded_at, since);
    let d = delta_of(events, since);
    assert forall|e: StoredEvent| d.contains(e) <==> (events.contains(e) && past(
        e.recorded_at,
        since,
    )) by {
        if d.contains(e) {
            events.lemma_filter_contains_rev(pred, e);
            let k = choose|k: int| 0 <= k < d.len() && d[k] == e;
            events.lemma_filter_pred(pred, k);
        }
        if events.contains(e) && past(e.recorded_at, since) {
            let i = choose|i: int| 0 <= i < events.len() && events[i] == e;
            events.lemma_filter_contains(pred, i);
        }
    }
    if events.len() > 0 {
        let rest = events.drop_last();
        assert(ordered(rest));
        lemma_delta_exact(rest, since);
        let sub = delta_of(rest, since);
        assert forall|k: int| 0 <= k < sub.len() implies sub[k].recorded_at
            <= events.last().recorded_at by {
            assert(sub.contains(sub[k]));
            assert(rest.contains(sub[k]));
            let j = choose|j: int| 0 <= j < rest.len() && rest[j] == sub[k];
            assert(events[j] == rest[j]);
        }
        assert(d == if pred(events.last()) {
            sub.push(events.last())
        } else {
            sub
        }) by {
            reveal(Seq::filter);
        }
    } else {
        assert(d.len() == 0) by {
            reveal(Seq::filter);
        }
    }
}

/// When the log only grows, a later delta from the same watermark starts
/// with the earlier one: every event that an earlier delta offered is
/// offered again.
pub proof fn lemma_delta_grows(before: Seq<StoredEvent>, after: Seq<StoredEvent>, since: Option<i64>)
    requires
        before.len() <= after.len(),
        after.take(before.len() as int) == before,
    ensures
        delta_of(before, since).len() <= delta_of(after, since).len(),
        delta_of(after, since).take(delta_of(before, since).len() as int) == delta_of(before, since),
        forall|e: StoredEvent| delta_of(before, since).contains(e) ==> delta_of(after, since).contains(e),
{
    let pred = |e: StoredEvent| past(e.recorded_at, since);
    let rest = after.skip(before.len() as int);
    assert(after =~= before + rest);
    Seq::filter_distributes_over_add(before, rest, pred);
    let d1 = delta_of(before, since);
    let d2 = delta_of(after, since);
    assert(d2 == d1 + rest.filter(pred));
    assert(d2.take(d1.len() as int) =~= d1);
    assert forall|e: StoredEvent| d1.contains(e) implies d2.contains(e) by {
        let k = choose|k: int| 0 <= k < d1.len() && d1[k] == e;
        assert(d2[k] == e);
    }
}

} // verus!
