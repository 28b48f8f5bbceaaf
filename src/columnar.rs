//! The columnar sink's logic: the records of a delta, their column vectors
//! under the fixed schema, the object's name and its upload target.

use crate::errors::ExportError;
use crate::event::{copy_text, event_of, opt_view, EventRecord, EventView, StoredEvent};
use arrow_array::{ArrayRef, RecordBatch, StringArray, StructArray, TimestampMillisecondArray};
use arrow_schema::{DataType, Field, Fields, Schema, TimeUnit};
use parquet::arrow::ArrowWriter;
use std::sync::Arc;
use crate::text::{decimal, decimal_text, lemma_decimal_order, sorts_before};
use vstd::prelude::*;

verus! {

/// The schema version, which prefixes every object name.
pub const VERSION: &'static str = "1.1.0";

/// The stored events whose payload reads as an event, in order.
pub open spec fn parsable(delta: Seq<StoredEvent>) -> Seq<StoredEvent> {
    delta.filter(|e: StoredEvent| event_of(e.payload@) is Some)
}

/// `rec` is the record read from the stored event `e`.
pub open spec fn record_of(rec: EventRecord, e: StoredEvent) -> bool {
    &&& rec.id == e.id
    &&& rec.recorded_at == e.recorded_at
    &&& rec.recorded_by == e.recorded_by
    &&& event_of(e.payload@) == Some(rec.event@)
}

/// The records of a delta: rows whose payload does not read as an event are
/// left out, the others keep their order.
pub fn records_of(delta: &Vec<StoredEvent>) -> (r: Vec<EventRecord>)
    ensures
        r@.len() == parsable(delta@).len(),
        forall|i: int| 0 <= i < r@.len() ==> record_of(#[trigger] r@[i], parsable(delta@)[i]),
{
    let mut out: Vec<EventRecord> = Vec::new();
    let mut i: usize = 0;
    while i < delta.len()
        invariant
            i <= delta@.len(),
            out@.len() == parsable(delta@.take(i as int)).len(),
            forall|k: int|
                0 <= k < out@.len() ==> record_of(#[trigger] out@[k], parsable(delta@.take(i as int))[k]),
        decreases delta@.len() - i,
    {
        let rec = EventRecord::from_stored(&delta[i]);
        proof {
            reveal(Seq::filter);
            assert(delta@.take(i + 1).drop_last() =~= delta@.take(i as int));
            assert(delta@.take(i + 1).last() == delta@[i as int]);
        }
        match rec {
            Some(r) => { out.push(r); },
            None => {},
        }
        i += 1;
    }
    assert(delta@.take(i as int) =~= delta@);
    out
}

/// The column vectors of a batch: `id`, the nested `event` record (`ts`,
/// `entity`, `action`, `path`, `app_id`), `recorded_at` and `recorded_by`.
/// Instants are milliseconds since the Unix epoch; `None` is a null.
pub struct ColumnBatch {
    pub id: Vec<String>,
    pub ts: Vec<Option<i64>>,
    pub entity: Vec<String>,
    pub action: Vec<String>,
    pub path: Vec<Option<String>>,
    pub app_id: Vec<String>,
    pub recorded_at: Vec<i64>,
    pub recorded_by: Vec<Option<String>>,
}

impl ColumnBatch {
    /// Every column has `n` rows.
    pub open spec fn rows(&self, n: nat) -> bool {
        &&& self.id@.len() == n
        &&& self.ts@.len() == n
        &&& self.entity@.len() == n
        &&& self.action@.len() == n
        &&& self.path@.len() == n
        &&& self.app_id@.len() == n
        &&& self.recorded_at@.len() == n
        &&& self.recorded_by@.len() == n
    }

    /// Row `i` holds the fields of `rec`, nulls where `rec` has none.
    pub open spec fn row_is(&self, i: int, rec: EventRecord) -> bool {
        &&& self.id@[i] == rec.id
        &&& self.ts@[i] == rec.event.ts
        &&& self.entity@[i] == rec.event.entity
        &&& self.action@[i] == rec.event.action
        &&& self.path@[i] == rec.event.path
        &&& self.app_id@[i] == rec.event.app_id
        &&& self.recorded_at@[i] == rec.recorded_at
        &&& self.recorded_by@[i] == rec.recorded_by
    }
}

impl ColumnBatch {
    /// The number of rows.
    pub fn num_rows(&self) -> (r: usize)
        requires
            exists|n: nat| self.rows(n),
        ensures
            self.rows(r as nat),
    {
        self.id.len()
    }

    /// The number of top-level columns of the schema.
    pub fn num_columns(&self) -> (r: usize)
        ensures
            r == 4,
    {
        4
    }
}

/// The type of a column of the schema.
#[derive(Clone, Copy, Debug, PartialEq, Eq, Structural)]
pub enum ColumnType {
    /// UTF-8 text.
    Text,
    /// An instant in milliseconds since the Unix epoch, without time zone.
    TimestampMillis,
    /// A nested record whose fields are given apart.
    Record,
}

/// One column of the schema: its name, its type, and whether it may hold
/// nulls.
#[derive(Clone, Copy, Debug)]
pub struct ColumnSpec {
    pub name: &'static str,
    pub kind: ColumnType,
    pub nullable: bool,
}

pub open spec fn spec_view(c: ColumnSpec) -> (Seq<char>, ColumnType, bool) {
    (c.name@, c.kind, c.nullable)
}

pub open spec fn specs_view(v: Seq<ColumnSpec>) -> Seq<(Seq<char>, ColumnType, bool)> {
    v.map_values(|c: ColumnSpec| spec_view(c))
}

/// The top-level columns of the schema, in order.
pub open spec fn fixed_columns() -> Seq<(Seq<char>, ColumnType, bool)> {
    seq![
        ("id"@, ColumnType::Text, false),
        ("event"@, ColumnType::Record, false),
        ("recorded_at"@, ColumnType::TimestampMillis, false),
        ("recorded_by"@, ColumnType::Text, true),
    ]
}

/// The fields of the nested `event` column, in order.
pub open spec fn fixed_event_fields() -> Seq<(Seq<char>, ColumnType, bool)> {
    seq![
        ("ts"@, ColumnType::TimestampMillis, true),
        ("entity"@, ColumnType::Text, false),
        ("action"@, ColumnType::Text, false),
        ("path"@, ColumnType::Text, true),
        ("app_id"@, ColumnType::Text, false),
    ]
}

/// The top-level columns of the schema: `id`, the nested `event` record,
/// `recorded_at` and `recorded_by`.
pub fn schema_columns() -> (r: Vec<ColumnSpec>)
    ensures
        specs_view(r@) == fixed_columns(),
{
    let r = vec![
        ColumnSpec { name: "id", kind: ColumnType::Text, nullable: false },
        ColumnSpec { name: "event", kind: ColumnType::Record, nullable: false },
        ColumnSpec { name: "recorded_at", kind: ColumnType::TimestampMillis, nullable: false },
        ColumnSpec { name: "recorded_by", kind: ColumnType::Text, nullable: true },
    ];
    assert(specs_view(r@) =~= fixed_columns());
    r
}

/// The fields of the nested `event` column: `ts`, `entity`, `action`,
/// `path` and `app_id`.
pub fn event_fields() -> (r: Vec<ColumnSpec>)
    ensures
        specs_view(r@) == fixed_event_fields(),
{
    let r = vec![
        ColumnSpec { name: "ts", kind: ColumnType::TimestampMillis, nullable: true },
        ColumnSpec { name: "entity", kind: ColumnType::Text, nullable: false },
        ColumnSpec { name: "action", kind: ColumnType::Text, nullable: false },
        ColumnSpec { name: "path", kind: ColumnType::Text, nullable: true },
        ColumnSpec { name: "app_id", kind: ColumnType::Text, nullable: false },
    ];
    assert(specs_view(r@) =~= fixed_event_fields());
    r
}

/// The column vectors as plain values.
pub struct ColumnsView {
    pub id: Seq<Seq<char>>,
    pub ts: Seq<Option<i64>>,
    pub entity: Seq<Seq<char>>,
    pub action: Seq<Seq<char>>,
    pub path: Seq<Option<Seq<char>>>,
    pub app_id: Seq<Seq<char>>,
    pub recorded_at: Seq<i64>,
    pub recorded_by: Seq<Option<Seq<char>>>,
}

pub open spec fn texts(v: Seq<String>) -> Seq<Seq<char>> {
    v.map_values(|s: String| s@)
}

pub open spec fn opt_texts(v: Seq<Option<String>>) -> Seq<Option<Seq<char>>> {
    v.map_values(|o: Option<String>| opt_view(o))
}

impl View for ColumnBatch {
    type V = ColumnsView;

    open spec fn view(&self) -> ColumnsView {
        ColumnsView {
            id: texts(self.id@),
            ts: self.ts@,
            entity: texts(self.entity@),
            action: texts(self.action@),
            path: opt_texts(self.path@),
            app_id: texts(self.app_id@),
            recorded_at: self.recorded_at@,
            recorded_by: opt_texts(self.recorded_by@),
        }
    }
}

/// The columns of `records`, one row per record in order.
pub open spec fn columns_of(records: Seq<EventRecord>) -> ColumnsView {
    ColumnsView {
        id: records.map_values(|r: EventRecord| r.id@),
        ts: records.map_values(|r: EventRecord| r.event.ts),
        entity: records.map_values(|r: EventRecord| r.event.entity@),
        action: records.map_values(|r: EventRecord| r.event.action@),
        path: records.map_values(|r: EventRecord| opt_view(r.event.path)),
        app_id: records.map_values(|r: EventRecord| r.event.app_id@),
        recorded_at: records.map_values(|r: EventRecord| r.recorded_at),
        recorded_by: records.map_values(|r: EventRecord| opt_view(r.recorded_by)),
    }
}

#[verifier::external_type_specification]
#[verifier::external_body]
pub struct ExField(arrow_schema::Field);

#[verifier::external_type_specification]
#[verifier::external_body]
pub struct ExFields(arrow_schema::Fields);

/// What an Arrow `Fields` holds: the name, type and nullability of each
/// field, in order.
pub uninterp spec fn field_items(f: Fields) -> Seq<(Seq<char>, ColumnType, bool)>;

/// The fields of the nested record that the record-typed entries of an
/// Arrow `Fields` carry (empty when it has none).
pub uninterp spec fn record_items(f: Fields) -> Seq<(Seq<char>, ColumnType, bool)>;

/// Whether some column of `s` is a nested record.
pub open spec fn has_record(s: Seq<(Seq<char>, ColumnType, bool)>) -> bool {
    exists|i: int| 0 <= i < s.len() && s[i].1 == ColumnType::Record
}

/// Relies on `arrow_schema::Fields::empty`.
#[verifier::external_body]
fn no_fields() -> (r: Fields)
    ensures
        field_items(r) == Seq::<(Seq<char>, ColumnType, bool)>::empty(),
        record_items(r) == Seq::<(Seq<char>, ColumnType, bool)>::empty(),
{
    Fields::empty()
}

/// Relies on `arrow_schema::Field::new`, collected into `Fields`: one field
/// per column, text as `Utf8`, instants as millisecond timestamps, records
/// as structs of `nested`.
#[verifier::external_body]
fn arrow_fields(specs: &Vec<ColumnSpec>, nested: &Fields) -> (r: Fields)
    requires
        record_items(*nested) == Seq::<(Seq<char>, ColumnType, bool)>::empty(),
    ensures
        field_items(r) == specs_view(specs@),
        record_items(r) == if has_record(specs_view(specs@)) {
            field_items(*nested)
        } else {
            Seq::<(Seq<char>, ColumnType, bool)>::empty()
        },
{
    specs.iter().map(|c| Field::new(c.name, match c.kind {
        ColumnType::Text => DataType::Utf8,
        ColumnType::TimestampMillis => DataType::Timestamp(TimeUnit::Millisecond, None),
        ColumnType::Record => DataType::Struct(nested.clone()),
    }, c.nullable)).collect()
}

/// An Arrow record batch: the rows of a columnar file before it is written.
#[verifier::external_body]
pub struct ArrowBatch {
    batch: RecordBatch,
}

/// Whether Arrow accepts the column values `batch` as one record batch with
/// top-level fields `columns` (whose record column holds the fields
/// `column_records`) and a nested `event` column built with the fields
/// `fields`.
pub uninterp spec fn arrow_accepts(
    columns: Seq<(Seq<char>, ColumnType, bool)>,
    column_records: Seq<(Seq<char>, ColumnType, bool)>,
    fields: Seq<(Seq<char>, ColumnType, bool)>,
    batch: ColumnsView,
) -> bool;

/// What an Arrow record batch holds: its top-level fields, the fields of
/// its record-typed fields, and the fields of its nested `event` column.
pub uninterp spec fn batch_schema(r: ArrowBatch) -> Seq<Seq<(Seq<char>, ColumnType, bool)>>;

/// What an Arrow record batch holds: its column values.
pub uninterp spec fn batch_columns(r: ArrowBatch) -> ColumnsView;

/// The bytes that `parquet`'s `ArrowWriter` writes for a record batch with
/// the given schema and values, or `None` when it refuses them.
pub uninterp spec fn parquet_bytes_of(
    columns: Seq<(Seq<char>, ColumnType, bool)>,
    column_records: Seq<(Seq<char>, ColumnType, bool)>,
    fields: Seq<(Seq<char>, ColumnType, bool)>,
    batch: ColumnsView,
) -> Option<Seq<u8>>;

/// The Parquet file of one record batch with the given schema and values:
/// `None` when Arrow or the writer refuses them.
pub open spec fn parquet_file_of(
    columns: Seq<(Seq<char>, ColumnType, bool)>,
    column_records: Seq<(Seq<char>, ColumnType, bool)>,
    fields: Seq<(Seq<char>, ColumnType, bool)>,
    batch: ColumnsView,
) -> Option<Seq<u8>> {
    if arrow_accepts(columns, column_records, fields, batch) {
        parquet_bytes_of(columns, column_records, fields, batch)
    } else {
        None
    }
}

/// The most bytes of text one Arrow string column can hold: its offsets are
/// 32-bit.
pub const MAX_COLUMN_BYTES: u64 = 2147483647;

/// The UTF-8 size of a text column.
pub open spec fn text_bytes(v: Seq<Seq<char>>) -> nat
    decreases v.len(),
{
    if v.len() == 0 {
        0
    } else {
        text_bytes(v.drop_last()) + vstd::utf8::encode_utf8(v.last()).len()
    }
}

/// The UTF-8 size of a text column with nulls; a null takes none.
pub open spec fn opt_text_bytes(v: Seq<Option<Seq<char>>>) -> nat
    decreases v.len(),
{
    if v.len() == 0 {
        0
    } else {
        opt_text_bytes(v.drop_last()) + match v.last() {
            Some(t) => vstd::utf8::encode_utf8(t).len(),
            None => 0,
        }
    }
}

/// Every text column fits the 32-bit offsets of an Arrow string array.
pub open spec fn fits_offsets(c: ColumnsView) -> bool {
    &&& text_bytes(c.id) <= MAX_COLUMN_BYTES
    &&& text_bytes(c.entity) <= MAX_COLUMN_BYTES
    &&& text_bytes(c.action) <= MAX_COLUMN_BYTES
    &&& opt_text_bytes(c.path) <= MAX_COLUMN_BYTES
    &&& text_bytes(c.app_id) <= MAX_COLUMN_BYTES
    &&& opt_text_bytes(c.recorded_by) <= MAX_COLUMN_BYTES
}

proof fn lemma_text_bytes_prefix(v: Seq<Seq<char>>, k: int)
    requires
        0 <= k <= v.len(),
    ensures
        text_bytes(v.take(k)) <= text_bytes(v),
    decreases v.len(),
{
    if k < v.len() {
        assert(v.drop_last().take(k) =~= v.take(k));
        lemma_text_bytes_prefix(v.drop_last(), k);
    } else {
        assert(v.take(k) =~= v);
    }
}

proof fn lemma_opt_text_bytes_prefix(v: Seq<Option<Seq<char>>>, k: int)
    requires
        0 <= k <= v.len(),
    ensures
        opt_text_bytes(v.take(k)) <= opt_text_bytes(v),
    decreases v.len(),
{
    if k < v.len() {
        assert(v.drop_last().take(k) =~= v.take(k));
        lemma_opt_text_bytes_prefix(v.drop_last(), k);
    } else {
        assert(v.take(k) =~= v);
    }
}

/// Whether a text column fits the 32-bit offsets of an Arrow string array.
pub fn texts_fit(v: &Vec<String>) -> (r: bool)
    ensures
        r == (text_bytes(texts(v@)) <= MAX_COLUMN_BYTES),
{
    let mut total: u64 = 0;
    let mut i: usize = 0;
    while i < v.len()
        invariant
            i <= v@.len(),
            total <= MAX_COLUMN_BYTES,
            total == text_bytes(texts(v@).take(i as int)),
        decreases v@.len() - i,
    {
        let n = v[i].as_str().as_bytes().len() as u64;
        proof {
            assert(texts(v@).take(i + 1).drop_last() =~= texts(v@).take(i as int));
            assert(texts(v@).take(i + 1).last() == v@[i as int]@);
        }
        if n > MAX_COLUMN_BYTES - total {
            proof {
                lemma_text_bytes_prefix(texts(v@), i + 1);
            }
            return false;
        }
        total = total + n;
        i += 1;
    }
    assert(texts(v@).take(i as int) =~= texts(v@));
    true
}

/// Whether a text column with nulls fits the 32-bit offsets of an Arrow
/// string array.
pub fn opt_texts_fit(v: &Vec<Option<String>>) -> (r: bool)
    ensures
        r == (opt_text_bytes(opt_texts(v@)) <= MAX_COLUMN_BYTES),
{
    let mut total: u64 = 0;
    let mut i: usize = 0;
    while i < v.len()
        invariant
            i <= v@.len(),
            total <= MAX_COLUMN_BYTES,
            total == opt_text_bytes(opt_texts(v@).take(i as int)),
        decreases v@.len() - i,
    {
        let n: u64 = match &v[i] {
            Some(t) => t.as_str().as_bytes().len() as u64,
            None => 0,
        };
        proof {
            assert(opt_texts(v@).take(i + 1).drop_last() =~= opt_texts(v@).take(i as int));
            assert(opt_texts(v@).take(i + 1).last() == opt_view(v@[i as int]));
        }
        if n > MAX_COLUMN_BYTES - total {
            proof {
                lemma_opt_text_bytes_prefix(opt_texts(v@), i + 1);
            }
            return false;
        }
        total = total + n;
        i += 1;
    }
    assert(opt_texts(v@).take(i as int) =~= opt_texts(v@));
    true
}

/// Relies on `StructArray::try_new` and `RecordBatch::try_new`: the columns
/// become Arrow arrays under the fields `top`, the `event` column a struct
/// array of the fields `nested`.
#[verifier::external_body]
fn arrow_batch(top: Fields, nested: Fields, b: ColumnBatch) -> (r: Option<ArrowBatch>)
    requires
        record_items(nested) == Seq::<(Seq<char>, ColumnType, bool)>::empty(),
        fits_offsets(b@),
    ensures
        r is Some <==> arrow_accepts(field_items(top), record_items(top), field_items(nested), b@),
        r matches Some(x) ==> batch_columns(x) == b@ && batch_schema(x) == seq![
            field_items(top),
            record_items(top),
            field_items(nested),
        ],
{
    let ev: Vec<ArrayRef> = vec![Arc::new(TimestampMillisecondArray::from(b.ts)), Arc::new(StringArray::from(b.entity)), Arc::new(StringArray::from(b.action)), Arc::new(StringArray::from(b.path)), Arc::new(StringArray::from(b.app_id))];
    let cols: Vec<ArrayRef> = vec![Arc::new(StringArray::from(b.id)), Arc::new(StructArray::try_new(nested, ev, None).ok()?), Arc::new(TimestampMillisecondArray::from(b.recorded_at)), Arc::new(StringArray::from(b.recorded_by))];
    RecordBatch::try_new(Arc::new(Schema::new(top)), cols).ok().map(|batch| ArrowBatch { batch })
}

/// Relies on `parquet::arrow::ArrowWriter` (`try_new`, `write`, `close`):
/// the batch written as one Parquet file in memory.
#[verifier::external_body]
fn write_parquet(batch: &ArrowBatch) -> (r: Option<Vec<u8>>)
    requires
        batch_schema(*batch).len() == 3,
    ensures
        r matches Some(v) ==> parquet_bytes_of(
            batch_schema(*batch)[0],
            batch_schema(*batch)[1],
            batch_schema(*batch)[2],
            batch_columns(*batch),
        ) == Some(v@),
        r is None ==> parquet_bytes_of(
            batch_schema(*batch)[0],
            batch_schema(*batch)[1],
            batch_schema(*batch)[2],
            batch_columns(*batch),
        ) is None,
{
    let mut out = Vec::new();
    let mut writer = ArrowWriter::try_new(&mut out, batch.batch.schema(), None).ok()?;
    writer.write(&batch.batch).ok()?;
    writer.close().ok()?;
    Some(out)
}

/// Lays the records out as columns, one row per record in order, and
/// returns the batch with its row count.
pub fn generate_record_batch(records: &Vec<EventRecord>) -> (r: (ColumnBatch, usize))
    ensures
        r.1 == records@.len(),
        r.0.rows(records@.len()),
        forall|i: int| 0 <= i < records@.len() ==> r.0.row_is(i, #[trigger] records@[i]),
{
    let mut b = ColumnBatch {
        id: Vec::new(),
        ts: Vec::new(),
        entity: Vec::new(),
        action: Vec::new(),
        path: Vec::new(),
        app_id: Vec::new(),
        recorded_at: Vec::new(),
        recorded_by: Vec::new(),
    };
    let mut i: usize = 0;
    while i < records.len()
        invariant
            i <= records@.len(),
            b.rows(i as nat),
            forall|k: int| 0 <= k < i ==> b.row_is(k, #[trigger] records@[k]),
        decreases records@.len() - i,
    {
        let rec = &records[i];
        b.id.push(rec.id.clone());
        b.ts.push(rec.event.ts);
        b.entity.push(rec.event.entity.clone());
        b.action.push(rec.event.action.clone());
        b.path.push(copy_text(&rec.event.path));
        b.app_id.push(rec.event.app_id.clone());
        b.recorded_at.push(rec.recorded_at);
        b.recorded_by.push(copy_text(&rec.recorded_by));
        i += 1;
    }
    let n = b.id.len();
    (b, n)
}

/// Encoder of event records into the columnar file format.
pub struct ParqetSerializer;

/// The name of an object uploaded at `micros` microseconds after the Unix
/// epoch: the schema version, a slash, the instant in decimal.
pub open spec fn object_name_text(micros: nat) -> Seq<char> {
    VERSION@ + "/"@ + decimal_text(micros)
}

impl ParqetSerializer {
    /// Encodes `records` as one Parquet file under the fixed schema, and
    /// returns it with the row count; a serialization error when a text
    /// column is too large for Arrow, or Arrow or the writer refuses the
    /// batch.
    pub fn to_bytes(&self, records: &Vec<EventRecord>) -> (r: Result<(Vec<u8>, usize), ExportError>)
        ensures
            r is Err <==> (!fits_offsets(columns_of(records@)) || parquet_file_of(
                fixed_columns(),
                fixed_event_fields(),
                fixed_event_fields(),
                columns_of(records@),
            ) is None),
            r matches Ok((v, n)) ==> n == records@.len() && parquet_file_of(
                fixed_columns(),
                fixed_event_fields(),
                fixed_event_fields(),
                columns_of(records@),
            ) == Some(v@),
            r matches Err(e) ==> e is Serialization,
    {
        let (batch, n) = generate_record_batch(records);
        proof {
            assert(batch@.id =~= columns_of(records@).id);
            assert(batch@.ts =~= columns_of(records@).ts);
            assert(batch@.entity =~= columns_of(records@).entity);
            assert(batch@.action =~= columns_of(records@).action);
            assert(batch@.path =~= columns_of(records@).path);
            assert(batch@.app_id =~= columns_of(records@).app_id);
            assert(batch@.recorded_at =~= columns_of(records@).recorded_at);
            assert(batch@.recorded_by =~= columns_of(records@).recorded_by);
        }
        if !(texts_fit(&batch.id) && texts_fit(&batch.entity) && texts_fit(&batch.action)
            && opt_texts_fit(&batch.path) && texts_fit(&batch.app_id) && opt_texts_fit(
            &batch.recorded_by,
        )) {
            return Err(ExportError::Serialization);
        }
        let empty = no_fields();
        let fields = event_fields();
        proof {
            if has_record(specs_view(fields@)) {
                let i = choose|i: int| 0 <= i < 5 && fixed_event_fields()[i].1 == ColumnType::Record;
                assert(false);
            }
        }
        let nested = arrow_fields(&fields, &empty);
        let columns = schema_columns();
        proof {
            assert(fixed_columns()[1].1 == ColumnType::Record);
            assert(has_record(specs_view(columns@)));
        }
        let top = arrow_fields(&columns, &nested);
        let arrow = match arrow_batch(top, nested, batch) {
            Some(x) => x,
            None => { return Err(ExportError::Serialization); },
        };
        match write_parquet(&arrow) {
            Some(v) => Ok((v, n)),
            None => Err(ExportError::Serialization),
        }
    }

    /// The object name of an upload at `micros`; names of later uploads sort
    /// after earlier ones of the same number of digits (see
    /// `lemma_object_names_sorted`).
    pub fn object_name(&self, micros: u64) -> (r: String)
        ensures
            r@ == object_name_text(micros as nat),
    {
        let mut s = String::from_str(VERSION);
        s.append("/");
        s.append(decimal(micros).as_str());
        s
    }

    /// Whether a batch of `row_count` rows is uploaded: an empty one is not.
    pub fn should_upload(&self, row_count: usize) -> (r: bool)
        ensures
            r == (row_count > 0),
    {
        row_count > 0
    }
}

/// The index of the first `/` of `s` at or after `i`.
pub open spec fn slash_from(s: Seq<char>, i: int) -> Option<int>
    decreases s.len() - i,
{
    if i < 0 || i >= s.len() {
        None
    } else if s[i] == '/' {
        Some(i)
    } else {
        slash_from(s, i + 1)
    }
}

proof fn lemma_slash_from_bounds(s: Seq<char>, i: int)
    requires
        0 <= i,
    ensures
        slash_from(s, i) matches Some(j) ==> i <= j < s.len() && s[j] == '/',
    decreases s.len() - i,
{
    if i < s.len() && s[i] != '/' {
        lemma_slash_from_bounds(s, i + 1);
    }
}

/// Where an object goes: the bucket, and the object's full name.
pub struct UploadTarget {
    pub bucket: String,
    pub object: String,
}

/// The bucket part of a `bucket` or `bucket/prefix` setting.
pub open spec fn bucket_of(setting: Seq<char>) -> Seq<char> {
    match slash_from(setting, 0) {
        None => setting,
        Some(i) => setting.take(i),
    }
}

/// The object's full name under a `bucket` or `bucket/prefix` setting: the
/// name itself, behind the prefix and a slash when the prefix is not empty.
pub open spec fn object_of(setting: Seq<char>, name: Seq<char>) -> Seq<char> {
    match slash_from(setting, 0) {
        None => name,
        Some(i) => if i + 1 == setting.len() {
            name
        } else {
            setting.skip(i + 1) + "/"@ + name
        },
    }
}

/// Splits a `bucket` or `bucket/prefix` setting at its first slash and
/// places the object under the prefix.
pub fn upload_target(setting: &str, name: &str) -> (r: UploadTarget)
    ensures
        r.bucket@ == bucket_of(setting@),
        r.object@ == object_of(setting@, name@),
{
    let n = setting.unicode_len();
    let mut i: usize = 0;
    let mut found = false;
    while i < n && !found
        invariant
            n == setting@.len(),
            i <= n,
            slash_from(setting@, 0) == slash_from(setting@, i as int),
            found ==> i < n && setting@[i as int] == '/',
        decreases n - i + if found { 0int } else { 1int },
    {
        if setting.get_char(i) == '/' {
            found = true;
        } else {
            i += 1;
        }
    }
    proof {
        lemma_slash_from_bounds(setting@, 0);
    }
    if i == n {
        UploadTarget { bucket: String::from_str(setting), object: String::from_str(name) }
    } else {
        let bucket = String::from_str(setting.substring_char(0, i));
        if i + 1 == n {
            UploadTarget { bucket, object: String::from_str(name) }
        } else {
            let mut object = String::from_str(setting.substring_char(i + 1, n));
            object.append("/");
            object.append(name);
            proof {
                assert(setting@.subrange(i + 1, n as int) =~= setting@.skip(i + 1));
                assert(setting@.subrange(0, i as int) =~= setting@.take(i as int));
            }
            UploadTarget { bucket, object }
        }
    }
}

/// Whether a byte is written as itself by percent-encoding: an ASCII
/// letter or digit, or one of `-`, `.`, `_`, `~`.
pub open spec fn url_safe_byte(b: u8) -> bool {
    (0x30 <= b <= 0x39) || (0x41 <= b <= 0x5a) || (0x61 <= b <= 0x7a) || b == 0x2d || b == 0x2e
        || b == 0x5f || b == 0x7e
}

/// The upper-case hexadecimal digit of `d` (below 16).
pub open spec fn hex_upper(d: u8) -> char {
    seq!['0', '1', '2', '3', '4', '5', '6', '7', '8', '9', 'A', 'B', 'C', 'D', 'E', 'F'][d as int]
}

/// Percent-encoding of bytes: safe bytes as themselves, every other byte
/// as `%` and two upper-case hexadecimal digits.
pub open spec fn percent_encoded(bytes: Seq<u8>) -> Seq<char>
    decreases bytes.len(),
{
    if bytes.len() == 0 {
        Seq::empty()
    } else {
        let b = bytes[0];
        (if url_safe_byte(b) {
            seq![b as char]
        } else {
            seq!['%', hex_upper(b / 16), hex_upper(b % 16)]
        }) + percent_encoded(bytes.drop_first())
    }
}

/// Relies on `urlencoding::encode`: percent-encodes every byte of the UTF-8
/// text except ASCII alphanumerics and `-`, `_`, `.`, `~`.
#[verifier::external_body]
fn url_encode(s: &str) -> (r: String)
    ensures
        r@ == percent_encoded(vstd::utf8::encode_utf8(s@)),
{
    urlencoding::encode(s).into_owned()
}

/// The media-upload URL of an object.
pub open spec fn upload_url_text(t: UploadTarget) -> Seq<char> {
    "https://storage.googleapis.com/upload/storage/v1/b/"@ + t.bucket@
        + "/o?uploadType=media&name="@ + percent_encoded(vstd::utf8::encode_utf8(t.object@))
}

/// Builds the media-upload URL of an object, its name URL-encoded.
pub fn upload_url(t: &UploadTarget) -> (r: String)
    ensures
        r@ == upload_url_text(*t),
{
    let mut s = String::from_str("https://storage.googleapis.com/upload/storage/v1/b/");
    s.append(t.bucket.as_str());
    s.append("/o?uploadType=media&name=");
    s.append(url_encode(t.object.as_str()).as_str());
    s
}

/// Object names of uploads at instants with the same number of digits sort
/// in time order.
pub proof fn lemma_object_names_sorted(earlier: nat, later: nat)
    requires
        earlier < later,
        decimal_text(earlier).len() == decimal_text(later).len(),
    ensures
        sorts_before(object_name_text(earlier), object_name_text(later)),
{
    lemma_decimal_order(earlier, later);
    let a = decimal_text(earlier);
    let b = decimal_text(later);
    let p = VERSION@ + "/"@;
    let i = choose|i: int| 0 <= i < a.len() && i < b.len() && a.take(i) == b.take(i) && (a[i] as u32) < (b[i] as u32);
    let j = p.len() + i;
    assert(object_name_text(earlier) == p + a);
    assert(object_name_text(later) == p + b);
    assert((p + a).take(j) =~= p + a.take(i));
    assert((p + b).take(j) =~= p + b.take(i));
    assert((p + a)[j] == a[i]);
    assert((p + b)[j] == b[i]);
}

} // verus!
