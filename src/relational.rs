//! The relational sink's write plan: rows, chunks of at most a fixed size,
//! and one multi-row insert per chunk that ignores rows whose id exists.

use crate::event::{format_timestamp_millis, rfc3339_of, StoredEvent};
use crate::log::{delta_of, lemma_delta_exact, EventLog};
use crate::text::{decimal, decimal_text};
use vstd::prelude::*;

verus! {

/// Rows per insert statement, within the destination's parameter limit.
pub const BATCH_SIZE: usize = 100;

/// One row of the destination table `events`.
pub struct RelationalRow {
    pub id: String,
    /// The ingestion instant as RFC 3339 text.
    pub recorded_at: String,
    /// The originating tenant; empty when the event has none.
    pub recorded_by: String,
    /// The payload as JSON text.
    pub event: String,
}

pub struct RowView {
    pub id: Seq<char>,
    pub recorded_at: Seq<char>,
    pub recorded_by: Seq<char>,
    pub event: Seq<char>,
}

impl View for RelationalRow {
    type V = RowView;

    open spec fn view(&self) -> RowView {
        RowView {
            id: self.id@,
            recorded_at: self.recorded_at@,
            recorded_by: self.recorded_by@,
            event: self.event@,
        }
    }
}

/// The row of a stored event, when its instant has an RFC 3339 form.
pub open spec fn row_of(e: StoredEvent) -> Option<RowView> {
    match rfc3339_of(e.recorded_at) {
        None => None,
        Some(at) => Some(
            RowView {
                id: e.id@,
                recorded_at: at,
                recorded_by: match e.recorded_by {
                    None => Seq::<char>::empty(),
                    Some(b) => b@,
                },
                event: e.payload@,
            },
        ),
    }
}

/// Maps each event of the delta to its row, in order; `None` when the
/// instant of some event has no RFC 3339 form.
pub fn rows_of(delta: &Vec<StoredEvent>) -> (r: Option<Vec<RelationalRow>>)
    ensures
        r is Some <==> forall|i: int| 0 <= i < delta@.len() ==> row_of(delta@[i]) is Some,
        r matches Some(rows) ==> {
            &&& rows@.len() == delta@.len()
            &&& forall|i: int| 0 <= i < delta@.len() ==> row_of(delta@[i]) == Some(rows@[i]@)
        },
{
    let mut rows: Vec<RelationalRow> = Vec::new();
    let mut i: usize = 0;
    while i < delta.len()
        invariant
            i <= delta@.len(),
            rows@.len() == i,
            forall|k: int| 0 <= k < i ==> row_of(delta@[k]) == Some(rows@[k]@),
        decreases delta@.len() - i,
    {
        let e = &delta[i];
        let at = match format_timestamp_millis(e.recorded_at) {
            Some(t) => t,
            None => { return None; },
        };
        let by = match &e.recorded_by {
            None => String::new(),
            Some(b) => b.clone(),
        };
        rows.push(RelationalRow { id: e.id.clone(), recorded_at: at, recorded_by: by, event: e.payload.clone() });
        i += 1;
    }
    Some(rows)
}

/// Splits `0..n` into consecutive ranges of `size` items; only the last may
/// be shorter, and none is empty.
pub fn chunk_bounds(n: usize, size: usize) -> (r: Vec<(usize, usize)>)
    requires
        size > 0,
    ensures
        n == 0 <==> r@.len() == 0,
        r@.len() > 0 ==> r@[0].0 == 0 && r@.last().1 == n,
        forall|k: int| 0 <= k < r@.len() - 1 ==> r@[k].1 == r@[k + 1].0,
        forall|k: int| 0 <= k < r@.len() ==> r@[k].0 < r@[k].1 <= n && r@[k].1 - r@[k].0 <= size,
        forall|k: int| 0 <= k < r@.len() - 1 ==> r@[k].1 - r@[k].0 == size,
{
    let mut r: Vec<(usize, usize)> = Vec::new();
    let mut start: usize = 0;
    while start < n
        invariant
            start <= n,
            size > 0,
            r@.len() == 0 <==> start == 0,
            r@.len() > 0 ==> r@[0].0 == 0 && r@.last().1 == start,
            forall|k: int| 0 <= k < r@.len() - 1 ==> r@[k].1 == r@[k + 1].0,
            forall|k: int| 0 <= k < r@.len() ==> r@[k].0 < r@[k].1 <= start && r@[k].1 - r@[k].0 <= size,
            forall|k: int| 0 <= k < r@.len() - 1 ==> r@[k].1 - r@[k].0 == size,
            r@.len() > 0 && start < n ==> r@.last().1 - r@.last().0 == size,
        decreases n - start,
    {
        let end = if n - start > size {
            start + size
        } else {
            n
        };
        r.push((start, end));
        start = end;
    }
    r
}

/// The placeholders of the `i`-th row of a statement: `($a, $b, $c, $d)`
/// with a = 4i + 1 and so on.
pub open spec fn placeholder_group(i: nat) -> Seq<char> {
    "($"@ + decimal_text(4 * i + 1) + ", $"@ + decimal_text(4 * i + 2) + ", $"@ + decimal_text(
        4 * i + 3,
    ) + ", $"@ + decimal_text(4 * i + 4) + ")"@
}

/// The placeholder groups of `n` rows, joined by `, `.
pub open spec fn placeholder_list(n: nat) -> Seq<char>
    decreases n,
{
    if n == 0 {
        Seq::empty()
    } else if n == 1 {
        placeholder_group(0)
    } else {
        placeholder_list((n - 1) as nat) + ", "@ + placeholder_group((n - 1) as nat)
    }
}

/// The statement that inserts `n` rows and leaves alone every row whose id
/// is already in the table.
pub open spec fn insert_sql(n: nat) -> Seq<char> {
    "INSERT INTO events (id, recorded_at, recorded_by, event) VALUES "@ + placeholder_list(n)
        + " ON CONFLICT (id) DO NOTHING"@
}

fn group_text(i: usize) -> (r: String)
    requires
        i < 0x1000_0000_0000_0000,
    ensures
        r@ == placeholder_group(i as nat),
{
    let b = 4 * (i as u64);
    let mut s = String::from_str("($");
    s.append(decimal(b + 1).as_str());
    s.append(", $");
    s.append(decimal(b + 2).as_str());
    s.append(", $");
    s.append(decimal(b + 3).as_str());
    s.append(", $");
    s.append(decimal(b + 4).as_str());
    s.append(")");
    s
}

/// Builds the parameterised insert statement for `n` rows.
pub fn insert_statement(n: usize) -> (r: String)
    requires
        0 < n < 0x1000_0000_0000_0000,
    ensures
        r@ == insert_sql(n as nat),
{
    let mut s = String::from_str("INSERT INTO events (id, recorded_at, recorded_by, event) VALUES ");
    let ghost head = s@;
    let mut i: usize = 0;
    while i < n
        invariant
            0 < n < 0x1000_0000_0000_0000,
            i <= n,
            s@ == head + placeholder_list(i as nat),
        decreases n - i,
    {
        if i > 0 {
            s.append(", ");
        }
        let g = group_text(i);
        s.append(g.as_str());
        proof {
            if i == 0 {
                assert(s@ =~= head + placeholder_list(1));
            } else {
                assert(s@ =~= head + placeholder_list((i + 1) as nat));
            }
        }
        i += 1;
    }
    s.append(" ON CONFLICT (id) DO NOTHING");
    proof {
        assert(s@ =~= insert_sql(n as nat));
    }
    s
}

/// One insert statement and the rows `start..end` that it binds.
pub struct InsertBatch {
    pub statement: String,
    pub start: usize,
    pub end: usize,
}

/// Everything a write of the relational sink executes: the rows, and one
/// batch per chunk of at most `BATCH_SIZE` rows.
pub struct WritePlan {
    pub rows: Vec<RelationalRow>,
    pub batches: Vec<InsertBatch>,
}

/// The write plan of a delta: each event's row in order, cut into
/// consecutive chunks of `BATCH_SIZE` rows (the last may be shorter), each
/// with the statement that inserts its rows and ignores those whose id is
/// already present. `None` when the instant of some event has no RFC 3339
/// form.
pub fn write_plan(delta: &Vec<StoredEvent>) -> (r: Option<WritePlan>)
    ensures
        r is Some <==> forall|i: int| 0 <= i < delta@.len() ==> row_of(delta@[i]) is Some,
        r matches Some(p) ==> {
            &&& p.rows@.len() == delta@.len()
            &&& forall|i: int| 0 <= i < delta@.len() ==> row_of(delta@[i]) == Some(p.rows@[i]@)
            &&& delta@.len() == 0 <==> p.batches@.len() == 0
            &&& p.batches@.len() > 0 ==> p.batches@[0].start == 0 && p.batches@.last().end
                == delta@.len()
            &&& forall|k: int|
                0 <= k < p.batches@.len() - 1 ==> p.batches@[k].end == p.batches@[k + 1].start
                    && p.batches@[k].end - p.batches@[k].start == BATCH_SIZE
            &&& forall|k: int|
                0 <= k < p.batches@.len() ==> {
                    &&& p.batches@[k].start < p.batches@[k].end
                    &&& p.batches@[k].end - p.batches@[k].start <= BATCH_SIZE
                    &&& p.batches@[k].statement@ == insert_sql(
                        (p.batches@[k].end - p.batches@[k].start) as nat,
                    )
                }
        },
{
    let rows = match rows_of(delta) {
        Some(rows) => rows,
        None => { return None; },
    };
    let bounds = chunk_bounds(rows.len(), BATCH_SIZE);
    let mut batches: Vec<InsertBatch> = Vec::new();
    let mut k: usize = 0;
    while k < bounds.len()
        invariant
            k <= bounds@.len(),
            batches@.len() == k,
            forall|q: int| 0 <= q < bounds@.len() ==> bounds@[q].0 < bounds@[q].1 <= rows@.len()
                && bounds@[q].1 - bounds@[q].0 <= BATCH_SIZE,
            forall|q: int|
                0 <= q < k ==> {
                    &&& batches@[q].start == bounds@[q].0
                    &&& batches@[q].end == bounds@[q].1
                    &&& batches@[q].statement@ == insert_sql((bounds@[q].1 - bounds@[q].0) as nat)
                },
        decreases bounds@.len() - k,
    {
        let (start, end) = bounds[k];
        let statement = insert_statement(end - start);
        batches.push(InsertBatch { statement, start, end });
        k += 1;
    }
    Some(WritePlan { rows, batches })
}

/// The destination table, keyed by id.
pub type Table = Map<Seq<char>, RowView>;

/// One row written with "on conflict by id, do nothing".
pub open spec fn upsert(table: Table, row: RowView) -> Table {
    if table.contains_key(row.id) {
        table
    } else {
        table.insert(row.id, row)
    }
}

/// Rows written in order with "on conflict by id, do nothing".
pub open spec fn upsert_all(table: Table, rows: Seq<RowView>) -> Table
    decreases rows.len(),
{
    if rows.len() == 0 {
        table
    } else {
        upsert(upsert_all(table, rows.drop_last()), rows.last())
    }
}

proof fn lemma_upsert_covers(table: Table, rows: Seq<RowView>)
    ensures
        forall|id: Seq<char>| #[trigger]
            table.contains_key(id) ==> upsert_all(table, rows).contains_key(id) && upsert_all(
                table,
                rows,
            )[id] == table[id],
        forall|i: int| 0 <= i < rows.len() ==> upsert_all(table, rows).contains_key(#[trigger] rows[i].id),
    decreases rows.len(),
{
    if rows.len() > 0 {
        lemma_upsert_covers(table, rows.drop_last());
        assert forall|i: int| 0 <= i < rows.len() implies upsert_all(table, rows).contains_key(
            #[trigger] rows[i].id,
        ) by {
            if i < rows.len() - 1 {
                assert(rows.drop_last()[i] == rows[i]);
            }
        }
    }
}

proof fn lemma_upsert_present(table: Table, rows: Seq<RowView>)
    requires
        forall|i: int| 0 <= i < rows.len() ==> table.contains_key(#[trigger] rows[i].id),
    ensures
        upsert_all(table, rows) == table,
    decreases rows.len(),
{
    if rows.len() > 0 {
        assert forall|i: int| 0 <= i < rows.drop_last().len() implies table.contains_key(
            #[trigger] rows.drop_last()[i].id,
        ) by {
            assert(rows.drop_last()[i] == rows[i]);
        }
        lemma_upsert_present(table, rows.drop_last());
        assert(table.contains_key(rows[rows.len() - 1].id));
    }
}

/// Writing the same rows a second time changes nothing: the table after two
/// writes is the table after one, with no row duplicated.
pub proof fn lemma_write_idempotent(table: Table, rows: Seq<RowView>)
    ensures
        upsert_all(upsert_all(table, rows), rows) == upsert_all(table, rows),
        upsert_all(upsert_all(table, rows), rows).dom().len() == upsert_all(table, rows).dom().len(),
{
    lemma_upsert_covers(table, rows);
    lemma_upsert_present(upsert_all(table, rows), rows);
}

/// Writing rows in consecutive chunks leaves the table as writing them all
/// at once does.
pub proof fn lemma_chunked_write(table: Table, first: Seq<RowView>, rest: Seq<RowView>)
    ensures
        upsert_all(upsert_all(table, first), rest) == upsert_all(table, first + rest),
    decreases rest.len(),
{
    if rest.len() == 0 {
        assert(first + rest =~= first);
    } else {
        lemma_chunked_write(table, first, rest.drop_last());
        assert((first + rest).drop_last() =~= first + rest.drop_last());
    }
}

/// Every event of a well-formed log has a row, so the write plan of a delta
/// read from it always exists.
pub proof fn lemma_log_delta_writable(log: EventLog, since: Option<i64>)
    requires
        log.wf(),
    ensures
        forall|i: int|
            0 <= i < delta_of(log@, since).len() ==> row_of(#[trigger] delta_of(log@, since)[i]) is Some,
{
    lemma_delta_exact(log@, since);
    assert forall|i: int| 0 <= i < delta_of(log@, since).len() implies row_of(
        #[trigger] delta_of(log@, since)[i],
    ) is Some by {
        let ev = log@;
        let d = delta_of(ev, since);
        let e = d[i];
        assert(d.contains(e));
        assert(ev.contains(e));
        let j = choose|j: int| 0 <= j < ev.len() && ev[j] == e;
        assert(rfc3339_of(ev[j].recorded_at) is Some);
    }
}

} // verus!
