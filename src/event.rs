//! Events as the log stores them, and their parsed payload.

use vstd::prelude::*;

verus! {

/// What `serde_json` finds under `key` when `text` is parsed as a JSON value:
/// `None` when the text is not a JSON object or the member is neither a
/// string nor null; `Some(None)` when the member is absent or null;
/// `Some(Some(s))` when it is the string `s`.
pub uninterp spec fn json_member(text: Seq<char>, key: Seq<char>) -> Option<Option<Seq<char>>>;

/// The instant, in milliseconds since the Unix epoch, that `chrono` reads
/// from `text` as an RFC 3339 date-time, or `None` when it reads none.
pub uninterp spec fn timestamp_millis_of(text: Seq<char>) -> Option<i64>;

/// The RFC 3339 text that `chrono` writes for an instant given in
/// milliseconds since the Unix epoch, or `None` when the instant is out of
/// its range.
pub uninterp spec fn rfc3339_of(millis: i64) -> Option<Seq<char>>;

pub open spec fn text_member_view(r: Option<Option<String>>) -> Option<Option<Seq<char>>> {
    match r {
        None => None,
        Some(None) => Some(None),
        Some(Some(s)) => Some(Some(s@)),
    }
}

/// Relies on `serde_json::from_str` into a `serde_json::Value`, then
/// `serde_json::Map::get`: reads one string member of a JSON object.
#[verifier::external_body]
pub(crate) fn string_member(text: &str, key: &str) -> (r: Option<Option<String>>)
    ensures
        text_member_view(r) == json_member(text@, key@),
{
    match serde_json::from_str::<serde_json::Value>(text) {
        Ok(serde_json::Value::Object(m)) => match m.get(key) {
            None => Some(None),
            Some(serde_json::Value::Null) => Some(None),
            Some(serde_json::Value::String(s)) => Some(Some(s.clone())),
            Some(_) => None,
        },
        _ => None,
    }
}

/// Relies on `chrono`'s `FromStr` for `DateTime<Utc>` and on
/// `DateTime::timestamp_millis`.
#[verifier::external_body]
pub(crate) fn parse_timestamp_millis(text: &str) -> (r: Option<i64>)
    ensures
        r == timestamp_millis_of(text@),
{
    text.parse::<chrono::DateTime<chrono::Utc>>().ok().map(|t| t.timestamp_millis())
}

/// Relies on `chrono::DateTime::from_timestamp_millis` and
/// `DateTime::to_rfc3339`.
#[verifier::external_body]
pub(crate) fn format_timestamp_millis(millis: i64) -> (r: Option<String>)
    ensures
        r matches Some(s) ==> rfc3339_of(millis) == Some(s@),
        r is None ==> rfc3339_of(millis) is None,
{
    chrono::DateTime::from_timestamp_millis(millis).map(|t| t.to_rfc3339())
}

/// One ingested event as the log holds it.
pub struct StoredEvent {
    /// Unique identifier, assigned at ingestion.
    pub id: String,
    /// Ingestion instant, in milliseconds since the Unix epoch.
    pub recorded_at: i64,
    /// The originating tenant or application, absent in legacy rows.
    pub recorded_by: Option<String>,
    /// The validated payload, as JSON text.
    pub payload: String,
}

pub fn copy_text(o: &Option<String>) -> (r: Option<String>)
    ensures
        r == *o,
{
    match o {
        None => None,
        Some(s) => Some(s.clone()),
    }
}

impl StoredEvent {
    /// A field-by-field copy.
    pub fn copy(&self) -> (r: StoredEvent)
        ensures
            r == *self,
    {
        StoredEvent {
            id: self.id.clone(),
            recorded_at: self.recorded_at,
            recorded_by: copy_text(&self.recorded_by),
            payload: self.payload.clone(),
        }
    }
}

/// The parsed payload of an event.
#[derive(Debug)]
pub struct Event {
    /// Client-supplied instant, in milliseconds since the Unix epoch.
    pub ts: Option<i64>,
    pub entity: String,
    pub action: String,
    pub path: Option<String>,
    pub app_id: String,
}

pub struct EventView {
    pub ts: Option<i64>,
    pub entity: Seq<char>,
    pub action: Seq<char>,
    pub path: Option<Seq<char>>,
    pub app_id: Seq<char>,
}

pub open spec fn opt_view(o: Option<String>) -> Option<Seq<char>> {
    match o {
        None => None,
        Some(s) => Some(s@),
    }
}

impl View for Event {
    type V = EventView;

    open spec fn view(&self) -> EventView {
        EventView {
            ts: self.ts,
            entity: self.entity@,
            action: self.action@,
            path: opt_view(self.path),
            app_id: self.app_id@,
        }
    }
}

/// The client timestamp member: `Some(None)` when absent or null,
/// `Some(Some(t))` when it is a date-time, `None` otherwise.
pub open spec fn ts_member(payload: Seq<char>) -> Option<Option<i64>> {
    match json_member(payload, "ts"@) {
        Some(None) => Some(None),
        Some(Some(t)) => match timestamp_millis_of(t) {
            Some(v) => Some(Some(v)),
            None => None,
        },
        None => None,
    }
}

/// The payload read as an event: it must be a JSON object whose `entity`,
/// `action` and `appId` members are strings, whose `path` member is a
/// string, null or absent, and whose `ts` member is an RFC 3339 date-time,
/// null or absent.
pub open spec fn event_of(payload: Seq<char>) -> Option<EventView> {
    match (
        ts_member(payload),
        json_member(payload, "entity"@),
        json_member(payload, "action"@),
        json_member(payload, "path"@),
        json_member(payload, "appId"@),
    ) {
        (Some(ts), Some(Some(entity)), Some(Some(action)), Some(path), Some(Some(app_id))) => Some(
            EventView { ts, entity, action, path, app_id },
        ),
        _ => None,
    }
}

pub open spec fn parsed_view(r: Option<Event>) -> Option<EventView> {
    match r {
        None => None,
        Some(e) => Some(e@),
    }
}

impl Event {
    /// Reads an event from its JSON payload text.
    pub fn from_payload(payload: &str) -> (r: Option<Event>)
        ensures
            parsed_view(r) == event_of(payload@),
    {
        let ts = match string_member(payload, "ts") {
            None => { return None; },
            Some(None) => None,
            Some(Some(t)) => match parse_timestamp_millis(t.as_str()) {
                None => { return None; },
                Some(v) => Some(v),
            },
        };
        let entity = match string_member(payload, "entity") {
            Some(Some(s)) => s,
            _ => { return None; },
        };
        let action = match string_member(payload, "action") {
            Some(Some(s)) => s,
            _ => { return None; },
        };
        let path = match string_member(payload, "path") {
            Some(p) => p,
            None => { return None; },
        };
        let app_id = match string_member(payload, "appId") {
            Some(Some(s)) => s,
            _ => { return None; },
        };
        Some(Event { ts, entity, action, path, app_id })
    }
}

/// An event read from the log, with its payload parsed.
#[derive(Debug)]
pub struct EventRecord {
    pub id: String,
    /// Ingestion instant, in milliseconds since the Unix epoch.
    pub recorded_at: i64,
    pub recorded_by: Option<String>,
    pub event: Event,
}

impl EventRecord {
    /// Reads a record from the columns of a log row: the ingestion instant
    /// as RFC 3339 text and the payload as JSON text.
    pub fn from_row(id: &str, recorded_at: &str, recorded_by: Option<&str>, payload: &str) -> (r:
        Option<EventRecord>)
        ensures
            r is Some <==> (timestamp_millis_of(recorded_at@) is Some && event_of(payload@) is Some),
            r matches Some(rec) ==> {
                &&& rec.id@ == id@
                &&& Some(rec.recorded_at) == timestamp_millis_of(recorded_at@)
                &&& opt_view(rec.recorded_by) == match recorded_by {
                    None => None::<Seq<char>>,
                    Some(b) => Some(b@),
                }
                &&& event_of(payload@) == Some(rec.event@)
            },
    {
        let at = match parse_timestamp_millis(recorded_at) {
            Some(v) => v,
            None => { return None; },
        };
        let event = match Event::from_payload(payload) {
            Some(e) => e,
            None => { return None; },
        };
        let by = match recorded_by {
            None => None,
            Some(b) => Some(String::from_str(b)),
        };
        Some(EventRecord { id: String::from_str(id), recorded_at: at, recorded_by: by, event })
    }

    /// Reads a record from a stored event; `None` when its payload is not
    /// an event.
    pub fn from_stored(e: &StoredEvent) -> (r: Option<EventRecord>)
        ensures
            r is Some <==> event_of(e.payload@) is Some,
            r matches Some(rec) ==> {
                &&& rec.id == e.id
                &&& rec.recorded_at == e.recorded_at
                &&& rec.recorded_by == e.recorded_by
                &&& event_of(e.payload@) == Some(rec.event@)
            },
    {
        match Event::from_payload(e.payload.as_str()) {
            None => None,
            Some(event) => Some(
                EventRecord {
                    id: e.id.clone(),
                    recorded_at: e.recorded_at,
                    recorded_by: copy_text(&e.recorded_by),
                    event,
                },
            ),
        }
    }
}

} // verus!
