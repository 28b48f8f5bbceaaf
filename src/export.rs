//! The per-sink export cursor: one watermark and at most one cycle in flight.

use crate::event::StoredEvent;
use crate::log::{delta_of, past, raised, sealed, EventLog};
use vstd::prelude::*;

verus! {

/// How long before the shutdown instant the final drain starts reading, in
/// milliseconds.
pub const DRAIN_MARGIN_MILLIS: i64 = 60_000;

/// How a sink's write phase ended.
pub enum WriteOutcome {
    Succeeded,
    Failed,
}

/// What a tick of the export loop is to do.
pub enum CycleStart {
    /// A cycle of this sink is still in flight: the tick is skipped.
    Busy,
    /// Nothing past the watermark: no write, the watermark stays.
    Idle,
    /// Hand these events to the sink, then report the outcome.
    Work(Vec<StoredEvent>),
}

/// The watermark of one sink: every event recorded at or before it has been
/// handed to the sink at least once.
pub struct ExportCursor {
    /// The watermark; unset before the first successful cycle.
    pub watermark: Option<i64>,
    /// The start instant of the cycle in flight, if any.
    pub in_flight: Option<i64>,
    /// The delta handed out by the cycle in flight.
    pub pending: Ghost<Seq<StoredEvent>>,
    /// Every event handed out by a cycle whose write succeeded.
    pub delivered: Ghost<Set<StoredEvent>>,
}

/// The watermark after a successful cycle that started at `start`: the
/// cycle's start, never below the previous watermark.
pub open spec fn advanced(w: Option<i64>, start: i64) -> Option<i64> {
    match w {
        None => Some(start),
        Some(v) => if v < start {
            Some(start)
        } else {
            Some(v)
        },
    }
}

/// Watermark order: unset is below every instant.
pub open spec fn at_or_after(later: Option<i64>, earlier: Option<i64>) -> bool {
    match (later, earlier) {
        (_, None) => true,
        (None, Some(_)) => false,
        (Some(a), Some(b)) => a >= b,
    }
}

/// Whether an event recorded at `at` lies at or below the watermark `w`.
pub open spec fn reached(at: i64, w: Option<i64>) -> bool {
    match w {
        None => false,
        Some(v) => at <= v,
    }
}

/// The cursor after a cycle of `c` ends with `outcome`: on success the
/// cycle's delta joins the delivered events and the watermark advances.
pub open spec fn finished(c: ExportCursor, outcome: WriteOutcome) -> ExportCursor {
    match (c.in_flight, outcome) {
        (Some(start), WriteOutcome::Succeeded) => ExportCursor {
            watermark: advanced(c.watermark, start),
            in_flight: None,
            pending: Ghost(Seq::empty()),
            delivered: Ghost(c.delivered@ + c.pending@.to_set()),
        },
        _ => ExportCursor {
            watermark: c.watermark,
            in_flight: None,
            pending: Ghost(Seq::empty()),
            delivered: c.delivered,
        },
    }
}

/// No event is skipped: with the log `events` whose read mark is `mark`,
/// every event at or below the watermark was delivered by a successful
/// cycle, and every event past the watermark and at or before the start of
/// the cycle in flight is in that cycle's delta. Both starts lie at or
/// before the read mark, so no later insert can fall below them.
pub open spec fn covers(c: ExportCursor, events: Seq<StoredEvent>, mark: Option<i64>) -> bool {
    &&& (c.watermark matches Some(w) ==> mark matches Some(m) && w <= m)
    &&& (c.in_flight matches Some(s) ==> mark matches Some(m) && s <= m)
    &&& forall|i: int|
        0 <= i < events.len() && reached(#[trigger] events[i].recorded_at, c.watermark)
            ==> c.delivered@.contains(events[i])
    &&& forall|i: int|
        0 <= i < events.len() && c.in_flight is Some && past(#[trigger] events[i].recorded_at, c.watermark)
            && reached(events[i].recorded_at, c.in_flight) ==> c.pending@.contains(events[i])
}

impl ExportCursor {
    /// A cursor with an unset watermark: the first cycle reads every event.
    pub fn new() -> (r: ExportCursor)
        ensures
            r.watermark is None,
            r.in_flight is None,
            forall|events: Seq<StoredEvent>, mark: Option<i64>| covers(r, events, mark),
    {
        ExportCursor { watermark: None, in_flight: None, pending: Ghost(Seq::empty()), delivered: Ghost(Set::empty()) }
    }

    /// A cursor whose watermark is `w`, with nothing delivered through it.
    pub fn starting_at(w: i64) -> (r: ExportCursor)
        ensures
            r.watermark == Some(w),
            r.in_flight is None,
    {
        ExportCursor { watermark: Some(w), in_flight: None, pending: Ghost(Seq::empty()), delivered: Ghost(Set::empty()) }
    }

    /// The cursor of the final drain at shutdown: its watermark lies a fixed
    /// margin before `now` (at the earliest representable instant when that
    /// would underflow). It delivers best effort only: nothing is known of
    /// what earlier cycles handed out.
    pub fn for_drain(now: i64) -> (r: ExportCursor)
        ensures
            r.watermark == Some(
                if now >= i64::MIN + DRAIN_MARGIN_MILLIS {
                    (now - DRAIN_MARGIN_MILLIS) as i64
                } else {
                    i64::MIN
                },
            ),
            r.in_flight is None,
    {
        let w = if now >= i64::MIN + DRAIN_MARGIN_MILLIS {
            now - DRAIN_MARGIN_MILLIS
        } else {
            i64::MIN
        };
        ExportCursor { watermark: Some(w), in_flight: None, pending: Ghost(Seq::empty()), delivered: Ghost(Set::empty()) }
    }

    /// Starts a cycle at `now`: skipped while another is in flight; idle when
    /// no event of `log` is past the watermark; otherwise the delta, with the
    /// cycle marked in flight from `now`. The log is marked read at `now`
    /// unless the tick is skipped. The watermark does not move here.
    pub fn start_cycle(&mut self, log: &mut EventLog, now: i64) -> (r: CycleStart)
        ensures
            final(log)@ == old(log)@,
            old(log).wf() ==> final(log).wf(),
            old(self).in_flight is Some ==> r is Busy && *final(self) == *old(self) && final(log).read_mark()
                == old(log).read_mark(),
            old(self).in_flight is None ==> {
                &&& final(log).read_mark() == raised(old(log).read_mark(), now)
                &&& final(self).watermark == old(self).watermark
                &&& final(self).delivered == old(self).delivered
                &&& delta_of(old(log)@, old(self).watermark).len() == 0 ==> r is Idle
                    && final(self).in_flight is None
                &&& delta_of(old(log)@, old(self).watermark).len() > 0 ==> {
                    &&& r matches CycleStart::Work(d)
                    &&& d@ == delta_of(old(log)@, old(self).watermark)
                    &&& final(self).pending@ == d@
                    &&& final(self).in_flight == Some(now)
                }
            },
            covers(*old(self), old(log)@, old(log).read_mark()) ==> covers(
                *final(self),
                final(log)@,
                final(log).read_mark(),
            ),
    {
        if self.in_flight.is_some() {
            return CycleStart::Busy;
        }
        let delta = log.query_since(self.watermark);
        log.mark_read(now);
        if delta.len() == 0 {
            proof {
                if covers(*old(self), old(log)@, old(log).read_mark()) {
                    lemma_raised_mark_keeps_cover(*old(self), old(log)@, old(log).read_mark(), now);
                }
            }
            CycleStart::Idle
        } else {
            self.in_flight = Some(now);
            self.pending = Ghost(delta@);
            proof {
                let ev = old(log)@;
                let w = old(self).watermark;
                assert forall|i: int|
                    0 <= i < ev.len() && self.in_flight is Some && past(#[trigger] ev[i].recorded_at, w)
                        && reached(ev[i].recorded_at, self.in_flight) implies self.pending@.contains(ev[i]) by {
                    ev.lemma_filter_contains(|e: StoredEvent| past(e.recorded_at, w), i);
                }
            }
            CycleStart::Work(delta)
        }
    }

    /// Ends the cycle in flight: on success the watermark moves to the
    /// cycle's start (never backwards); on failure it stays, so that the
    /// same events are offered again.
    pub fn finish_cycle(&mut self, outcome: WriteOutcome)
        ensures
            *final(self) == finished(*old(self), outcome),
            forall|events: Seq<StoredEvent>, mark: Option<i64>|
                covers(*old(self), events, mark) ==> #[trigger] covers(*final(self), events, mark),
    {
        let ghost c = *self;
        let succeeded = match outcome {
            WriteOutcome::Succeeded => true,
            WriteOutcome::Failed => false,
        };
        if let Some(start) = self.in_flight {
            if succeeded {
                self.watermark = match self.watermark {
                    None => Some(start),
                    Some(v) => if v < start {
                        Some(start)
                    } else {
                        Some(v)
                    },
                };
                self.delivered = Ghost(self.delivered@ + self.pending@.to_set());
            }
        }
        self.in_flight = None;
        self.pending = Ghost(Seq::empty());
        proof {
            assert forall|events: Seq<StoredEvent>, mark: Option<i64>|
                covers(c, events, mark) implies #[trigger] covers(*self, events, mark) by {
                lemma_finish_keeps_cover(c, outcome, events, mark);
            }
        }
    }
}

/// Raising the log's read mark keeps a cursor's coverage.
pub proof fn lemma_raised_mark_keeps_cover(c: ExportCursor, events: Seq<StoredEvent>, mark: Option<i64>, at: i64)
    requires
        covers(c, events, mark),
    ensures
        covers(c, events, raised(mark, at)),
{
}

/// Ending a cycle, whatever its outcome, keeps a cursor's coverage.
pub proof fn lemma_finish_keeps_cover(
    c: ExportCursor,
    outcome: WriteOutcome,
    events: Seq<StoredEvent>,
    mark: Option<i64>,
)
    requires
        covers(c, events, mark),
    ensures
        covers(finished(c, outcome), events, mark),
{
    let f = finished(c, outcome);
    assert forall|i: int| 0 <= i < events.len() && reached(#[trigger] events[i].recorded_at, f.watermark)
        implies f.delivered@.contains(events[i]) by {
        if !reached(events[i].recorded_at, c.watermark) {
            assert(c.pending@.contains(events[i]));
        }
    }
}

/// An event that the log accepts keeps every cursor's coverage: it is
/// recorded past the read mark, hence past every watermark and cycle start.
pub proof fn lemma_insert_keeps_cover(c: ExportCursor, events: Seq<StoredEvent>, mark: Option<i64>, e: StoredEvent)
    requires
        covers(c, events, mark),
        !sealed(e.recorded_at, mark),
    ensures
        covers(c, events.push(e), mark),
{
    let ev2 = events.push(e);
    assert forall|i: int| 0 <= i < ev2.len() && reached(#[trigger] ev2[i].recorded_at, c.watermark)
        implies c.delivered@.contains(ev2[i]) by {
        if i < events.len() {
            assert(ev2[i] == events[i]);
        }
    }
    assert forall|i: int| 0 <= i < ev2.len() && c.in_flight is Some && past(#[trigger] ev2[i].recorded_at, c.watermark)
        && reached(ev2[i].recorded_at, c.in_flight) implies c.pending@.contains(ev2[i]) by {
        if i < events.len() {
            assert(ev2[i] == events[i]);
        }
    }
}

/// No event is ever skipped: under coverage, every event of the log at or
/// below the watermark was handed to the sink by a cycle whose write
/// succeeded.
pub proof fn lemma_no_event_skipped(c: ExportCursor, events: Seq<StoredEvent>, mark: Option<i64>, i: int)
    requires
        covers(c, events, mark),
        0 <= i < events.len(),
        reached(events[i].recorded_at, c.watermark),
    ensures
        c.delivered@.contains(events[i]),
{
}

/// The watermark never moves backwards, whatever a cycle's outcome.
pub proof fn lemma_watermark_monotone(c: ExportCursor, outcome: WriteOutcome)
    ensures
        at_or_after(finished(c, outcome).watermark, c.watermark),
{
}

/// After a failed cycle the watermark is where it was, so the next cycle's
/// delta, read from a log that has only grown since, holds every event that
/// the failed cycle's delta held.
pub proof fn lemma_failed_cycle_retried(
    c: ExportCursor,
    before: Seq<StoredEvent>,
    after: Seq<StoredEvent>,
)
    requires
        before.len() <= after.len(),
        after.take(before.len() as int) == before,
    ensures
        finished(c, WriteOutcome::Failed).watermark == c.watermark,
        forall|e: StoredEvent|
            delta_of(before, c.watermark).contains(e) ==> delta_of(
                after,
                finished(c, WriteOutcome::Failed).watermark,
            ).contains(e),
{
    crate::log::lemma_delta_grows(before, after, c.watermark);
}

} // verus!
