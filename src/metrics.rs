//! The metrics view: every buffered event whose payload carries the label
//! fields is counted under its label set by a `prometheus_client` counter
//! family; the others are skipped.

use crate::event::{json_member, opt_view, string_member, StoredEvent};
use crate::log::EventLog;
use crate::text::decimal_text;
use prometheus_client::encoding::text::encode;
use prometheus_client::metrics::counter::Counter;
use prometheus_client::metrics::family::Family;
use prometheus_client::registry::Registry;
use vstd::prelude::*;

verus! {

/// The label set of one counter.
pub struct MetricLabels {
    pub entity: String,
    pub action: String,
    pub app_id: String,
    /// The instance that serves the metrics, merged into every label set.
    pub instance_id: Option<String>,
    pub path: Option<String>,
}

pub struct LabelsView {
    pub entity: Seq<char>,
    pub action: Seq<char>,
    pub app_id: Seq<char>,
    pub instance_id: Option<Seq<char>>,
    pub path: Option<Seq<char>>,
}

impl View for MetricLabels {
    type V = LabelsView;

    open spec fn view(&self) -> LabelsView {
        LabelsView {
            entity: self.entity@,
            action: self.action@,
            app_id: self.app_id@,
            instance_id: opt_view(self.instance_id),
            path: opt_view(self.path),
        }
    }
}

/// The label set of a payload served by `instance`: the payload must be a
/// JSON object whose `entity`, `action` and `app_id` members are strings and
/// whose `instance_id` and `path` members are strings, null or absent; the
/// instance replaces the payload's own `instance_id`.
pub open spec fn labels_of(payload: Seq<char>, instance: Seq<char>) -> Option<LabelsView> {
    match (
        json_member(payload, "entity"@),
        json_member(payload, "action"@),
        json_member(payload, "app_id"@),
        json_member(payload, "instance_id"@),
        json_member(payload, "path"@),
    ) {
        (Some(Some(entity)), Some(Some(action)), Some(Some(app_id)), Some(_), Some(path)) => Some(
            LabelsView { entity, action, app_id, instance_id: Some(instance), path },
        ),
        _ => None,
    }
}

pub open spec fn labels_view(r: Option<MetricLabels>) -> Option<LabelsView> {
    match r {
        None => None,
        Some(l) => Some(l@),
    }
}

/// Reads the label set of a payload; `None` when it does not carry one.
pub fn parse_labels(payload: &str, instance_id: &str) -> (r: Option<MetricLabels>)
    ensures
        labels_view(r) == labels_of(payload@, instance_id@),
{
    let entity = match string_member(payload, "entity") {
        Some(Some(s)) => s,
        _ => { return None; },
    };
    let action = match string_member(payload, "action") {
        Some(Some(s)) => s,
        _ => { return None; },
    };
    let app_id = match string_member(payload, "app_id") {
        Some(Some(s)) => s,
        _ => { return None; },
    };
    match string_member(payload, "instance_id") {
        Some(_) => {},
        None => { return None; },
    }
    let path = match string_member(payload, "path") {
        Some(p) => p,
        None => { return None; },
    };
    Some(
        MetricLabels {
            entity,
            action,
            app_id,
            instance_id: Some(String::from_str(instance_id)),
            path,
        },
    )
}

/// A label set as the counter family keys it: label names and values.
pub type LabelPairs = Seq<(Seq<char>, Seq<char>)>;

pub open spec fn text_or_empty(o: Option<Seq<char>>) -> Seq<char> {
    match o {
        Some(t) => t,
        None => Seq::empty(),
    }
}

/// The labels of a label set, in order; an absent value is written empty,
/// as the family encodes an absent label value.
pub open spec fn label_key(l: LabelsView) -> LabelPairs {
    seq![
        ("entity"@, l.entity),
        ("action"@, l.action),
        ("app_id"@, l.app_id),
        ("instance_id"@, text_or_empty(l.instance_id)),
        ("path"@, text_or_empty(l.path)),
    ]
}

pub open spec fn pairs_view(v: Seq<(String, String)>) -> LabelPairs {
    v.map_values(|p: (String, String)| (p.0@, p.1@))
}

/// How many of `events` are counted under the labels `k`.
pub open spec fn key_count(events: Seq<StoredEvent>, instance: Seq<char>, k: LabelPairs) -> nat
    decreases events.len(),
{
    if events.len() == 0 {
        0
    } else {
        key_count(events.drop_last(), instance, k) + match labels_of(events.last().payload@, instance) {
            Some(l) => if label_key(l) == k {
                1nat
            } else {
                0nat
            },
            None => 0nat,
        }
    }
}

proof fn lemma_key_count_bounded(events: Seq<StoredEvent>, instance: Seq<char>, k: LabelPairs)
    ensures
        key_count(events, instance, k) <= events.len(),
    decreases events.len(),
{
    if events.len() > 0 {
        lemma_key_count_bounded(events.drop_last(), instance, k);
    }
}

/// The counters of the `events` family, keyed by label set.
#[verifier::external_body]
pub struct EventCounters {
    family: Family<Vec<(String, String)>, Counter>,
}

/// What the family holds: the value of the counter of each label set.
pub uninterp spec fn counter_values(c: EventCounters) -> Map<LabelPairs, nat>;

/// The family counts `events` exactly: a counter for each label set that
/// some event carries, whose value is the number of events that carry it,
/// and no other counter.
pub open spec fn counts_exactly(m: Map<LabelPairs, nat>, events: Seq<StoredEvent>, instance: Seq<char>) -> bool {
    forall|k: LabelPairs|
        #![trigger m.contains_key(k)]
        #![trigger key_count(events, instance, k)]
        (m.contains_key(k) <==> key_count(events, instance, k) > 0) && (m.contains_key(k) ==> m[k]
            == key_count(events, instance, k))
}

/// Relies on `Family::default`: a family without counters.
#[verifier::external_body]
fn empty_counters() -> (r: EventCounters)
    ensures
        counter_values(r).dom() == Set::<LabelPairs>::empty(),
{
    EventCounters { family: Family::default() }
}

/// Relies on `Family::get_or_create` and `Counter::inc`: the counter of
/// `labels`, created at zero when absent, goes up by one.
#[verifier::external_body]
fn increment(c: &mut EventCounters, labels: &Vec<(String, String)>)
    requires
        counter_values(*old(c)).contains_key(pairs_view(labels@)) ==> counter_values(*old(c))[pairs_view(labels@)] < u64::MAX,
    ensures
        counter_values(*final(c)) == counter_values(*old(c)).insert(
            pairs_view(labels@),
            if counter_values(*old(c)).contains_key(pairs_view(labels@)) {
                counter_values(*old(c))[pairs_view(labels@)] + 1
            } else {
                1
            },
        ),
{
    c.family.get_or_create(labels).inc();
}

/// Relies on `Family::get` and `Counter::get`: the value of the counter of
/// `labels`, if there is one.
#[verifier::external_body]
fn counter_value(c: &EventCounters, labels: &Vec<(String, String)>) -> (r: Option<u64>)
    ensures
        r is Some <==> counter_values(*c).contains_key(pairs_view(labels@)),
        r matches Some(v) ==> v == counter_values(*c)[pairs_view(labels@)],
{
    c.family.get(labels).map(|m| m.get())
}

/// One label as the text format writes it: `name="value"`.
pub open spec fn label_text(p: (Seq<char>, Seq<char>)) -> Seq<char> {
    p.0 + "=\""@ + p.1 + "\""@
}

/// The labels of a label set, joined by commas.
pub open spec fn labels_text(k: LabelPairs) -> Seq<char>
    decreases k.len(),
{
    if k.len() == 0 {
        Seq::empty()
    } else if k.len() == 1 {
        label_text(k[0])
    } else {
        labels_text(k.drop_last()) + ","@ + label_text(k.last())
    }
}

/// The sample line of the counter labelled `k` with value `n`.
pub open spec fn sample_line(name: Seq<char>, k: LabelPairs, n: nat) -> Seq<char> {
    name + "_total{"@ + labels_text(k) + "} "@ + decimal_text(n) + "\n"@
}

/// The sample lines of the counters of `m`, in the order `order`.
pub open spec fn sample_lines(name: Seq<char>, order: Seq<LabelPairs>, m: Map<LabelPairs, nat>) -> Seq<char>
    decreases order.len(),
{
    if order.len() == 0 {
        Seq::empty()
    } else {
        sample_lines(name, order.drop_last(), m) + sample_line(name, order.last(), m[order.last()])
    }
}

/// The text exposition of a counter family: the `HELP` and `TYPE` lines,
/// one sample line per counter in the order `order`, and the `EOF` marker.
pub open spec fn exposition(name: Seq<char>, help: Seq<char>, order: Seq<LabelPairs>, m: Map<LabelPairs, nat>) -> Seq<char> {
    "# HELP "@ + name + " "@ + help + ".\n# TYPE "@ + name + " counter\n"@ + sample_lines(name, order, m)
        + "# EOF\n"@
}

/// `text` is the exposition of the counters `m`, the sample lines in some
/// order, each counter once.
pub open spec fn exposes(name: Seq<char>, help: Seq<char>, m: Map<LabelPairs, nat>, text: Seq<char>) -> bool {
    exists|order: Seq<LabelPairs>|
        order.no_duplicates() && order.to_set() == m.dom() && text == #[trigger] exposition(name, help, order, m)
}

/// Relies on `Registry::register` and `prometheus_client::encoding::text::encode`:
/// the family, registered under `name` with the help text `help`, in the
/// text exposition format. Writing to a `String` does not fail. The sample
/// lines follow the order of the family's hash map, so the order is left
/// open.
#[verifier::external_body]
fn encode_counters(c: &EventCounters, name: &str, help: &str) -> (r: Option<String>)
    ensures
        r is Some,
        r matches Some(t) ==> exposes(name@, help@, counter_values(*c), t@),
{
    let mut registry = Registry::default();
    registry.register(name, help, c.family.clone());
    let mut out = String::new();
    encode(&mut out, &registry).ok()?;
    Some(out)
}

/// The labels under which a label set is counted.
pub fn label_pairs(l: &MetricLabels) -> (r: Vec<(String, String)>)
    ensures
        pairs_view(r@) == label_key(l@),
{
    let instance = match &l.instance_id {
        Some(t) => t.clone(),
        None => String::new(),
    };
    let path = match &l.path {
        Some(t) => t.clone(),
        None => String::new(),
    };
    let r = vec![
        (String::from_str("entity"), l.entity.clone()),
        (String::from_str("action"), l.action.clone()),
        (String::from_str("app_id"), l.app_id.clone()),
        (String::from_str("instance_id"), instance),
        (String::from_str("path"), path),
    ];
    assert(pairs_view(r@) =~= label_key(l@));
    r
}

impl EventCounters {
    /// The value of the counter of `labels`, if there is one.
    pub fn count_of(&self, labels: &MetricLabels) -> (r: Option<u64>)
        ensures
            r is Some <==> counter_values(*self).contains_key(label_key(labels@)),
            r matches Some(v) ==> v == counter_values(*self)[label_key(labels@)],
    {
        counter_value(self, &label_pairs(labels))
    }

    /// The counters as the text exposition of the `events` counter family
    /// with the help text `analytics`.
    pub fn render(&self) -> (r: Option<String>)
        ensures
            r is Some,
            r matches Some(t) ==> exposes("events"@, "analytics"@, counter_values(*self), t@),
    {
        encode_counters(self, "events", "analytics")
    }
}

/// The metrics sink: aggregates the whole buffer on every read.
pub struct PrometheusExporter {
    /// The instance identifier merged into every label set.
    pub instance_id: String,
}

impl PrometheusExporter {
    /// Counts `events` by label set, skipping those whose payload carries
    /// none.
    pub fn aggregate(&self, events: &Vec<StoredEvent>) -> (r: EventCounters)
        ensures
            counts_exactly(counter_values(r), events@, self.instance_id@),
    {
        let ghost inst = self.instance_id@;
        let mut counters = empty_counters();
        let mut i: usize = 0;
        while i < events.len()
            invariant
                i <= events@.len(),
                inst == self.instance_id@,
                counts_exactly(counter_values(counters), events@.take(i as int), inst),
            decreases events@.len() - i,
        {
            let ghost pre = events@.take(i as int);
            let ghost post = events@.take(i + 1);
            let ghost m0 = counter_values(counters);
            proof {
                assert(post.drop_last() =~= pre);
                assert(post.last() == events@[i as int]);
            }
            match parse_labels(events[i].payload.as_str(), self.instance_id.as_str()) {
                None => {
                    assert forall|k: LabelPairs| key_count(post, inst, k) == key_count(pre, inst, k) by {}
                },
                Some(l) => {
                    let pairs = label_pairs(&l);
                    proof {
                        lemma_key_count_bounded(pre, inst, label_key(l@));
                        assert(key_count(pre, inst, label_key(l@)) == key_count(pre, inst, pairs_view(pairs@)));
                    }
                    increment(&mut counters, &pairs);
                    proof {
                        let m1 = counter_values(counters);
                        let kk = label_key(l@);
                        assert forall|k: LabelPairs|
                            (m1.contains_key(k) <==> key_count(post, inst, k) > 0) && (m1.contains_key(k)
                                ==> m1[k] == key_count(post, inst, k)) by {
                            if k == kk {
                                assert(key_count(post, inst, k) == key_count(pre, inst, k) + 1);
                            } else {
                                assert(key_count(post, inst, k) == key_count(pre, inst, k));
                                assert(m1.contains_key(k) == m0.contains_key(k));
                            }
                        }
                    }
                },
            }
            i += 1;
        }
        assert(events@.take(i as int) =~= events@);
        counters
    }

    /// Reads the whole log and counts it by label set.
    pub fn publish(&self, log: &EventLog) -> (r: EventCounters)
        ensures
            counts_exactly(counter_values(r), log@, self.instance_id@),
    {
        let events = log.scan_all();
        self.aggregate(&events)
    }
}

/// A row whose payload carries no label set changes no count, wherever it
/// stands in the log.
pub proof fn lemma_unparsable_row_ignored(
    before: Seq<StoredEvent>,
    row: StoredEvent,
    after: Seq<StoredEvent>,
    instance: Seq<char>,
    k: LabelPairs,
)
    requires
        labels_of(row.payload@, instance) is None,
    ensures
        key_count(before + seq![row] + after, instance, k) == key_count(before + after, instance, k),
    decreases after.len(),
{
    if after.len() == 0 {
        assert((before + seq![row] + after).drop_last() =~= before);
        assert(before + after =~= before);
    } else {
        lemma_unparsable_row_ignored(before, row, after.drop_last(), instance, k);
        assert((before + seq![row] + after).drop_last() =~= before + seq![row] + after.drop_last());
        assert((before + after).drop_last() =~= before + after.drop_last());
    }
}

} // verus!
