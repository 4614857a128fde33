//! Model of the relational store: three tables keyed by the packed row id,
//! with upsert-on-conflict semantics.  The SQL layer outside the library
//! mirrors exactly what these operations state.

pub mod execute_table;
pub mod main_table;
pub mod send_message_table;

use vstd::prelude::*;

use crate::db::execute_table::ExecuteTable;
use crate::db::main_table::MainTable;
use crate::db::send_message_table::SendMessageTable;

verus! {

/// A row of a table keyed by the packed id.
pub trait TableRow: Sized {
    /// The primary key of the row.
    spec fn row_id(&self) -> u64;

    /// Reads the primary key.
    fn id_value(&self) -> (r: u64)
        ensures
            r == self.row_id(),
    ;
}

/// A table is well formed when no two rows share a key.
pub open spec fn wf_rows<R: TableRow>(rows: Seq<R>) -> bool {
    forall|i: int, j: int|
        0 <= i < j < rows.len() ==> rows[i].row_id() != rows[j].row_id()
}

/// Whether some row carries the given key.
pub open spec fn has_id<R: TableRow>(rows: Seq<R>, id: u64) -> bool {
    exists|i: int| 0 <= i < rows.len() && rows[i].row_id() == id
}

/// Insert-or-update by key: an existing row with the same key is replaced
/// in place, otherwise the row is appended.
pub open spec fn spec_upsert<R: TableRow>(rows: Seq<R>, e: R) -> Seq<R> {
    if has_id(rows, e.row_id()) {
        rows.update(
            choose|i: int| 0 <= i < rows.len() && rows[i].row_id() == e.row_id(),
            e,
        )
    } else {
        rows.push(e)
    }
}

/// Upserting a list of rows, first row first.
pub open spec fn spec_apply<R: TableRow>(rows: Seq<R>, entries: Seq<R>) -> Seq<R>
    decreases entries.len(),
{
    if entries.len() == 0 {
        rows
    } else {
        spec_apply(spec_upsert(rows, entries[0]), entries.drop_first())
    }
}

/// The table state as the relation it stores: key to row.
pub open spec fn table_map<R: TableRow>(rows: Seq<R>) -> Map<u64, R>
    decreases rows.len(),
{
    if rows.len() == 0 {
        Map::<u64, R>::empty()
    } else {
        table_map(rows.drop_last()).insert(rows.last().row_id(), rows.last())
    }
}

/// Upserting a list of rows, seen on the stored relation.
pub open spec fn spec_apply_map<R: TableRow>(m: Map<u64, R>, entries: Seq<R>) -> Map<u64, R>
    decreases entries.len(),
{
    if entries.len() == 0 {
        m
    } else {
        spec_apply_map(m.insert(entries[0].row_id(), entries[0]), entries.drop_first())
    }
}

/// The last row of a list that carries the given key, if any.
pub open spec fn last_write<R: TableRow>(entries: Seq<R>, id: u64) -> Option<R>
    decreases entries.len(),
{
    if entries.len() == 0 {
        None
    } else if entries.last().row_id() == id {
        Some(entries.last())
    } else {
        last_write(entries.drop_last(), id)
    }
}

/// Replacing a row by one with the same key turns the relation's entry over
/// to the new row and keeps the table well formed.
pub proof fn lemma_table_map_update<R: TableRow>(rows: Seq<R>, i: int, e: R)
    requires
        wf_rows(rows),
        0 <= i < rows.len(),
        rows[i].row_id() == e.row_id(),
    ensures
        table_map(rows.update(i, e)) == table_map(rows).insert(e.row_id(), e),
        wf_rows(rows.update(i, e)),
    decreases rows.len(),
{
    let rows2 = rows.update(i, e);
    assert forall|a: int, b: int| 0 <= a < b < rows2.len() implies rows2[a].row_id()
        != rows2[b].row_id() by {
        assert(rows[a].row_id() != rows[b].row_id());
    }
    if i == rows.len() - 1 {
        assert(rows2.drop_last() =~= rows.drop_last());
        assert(rows2.last() == e);
        assert(table_map(rows2) == table_map(rows.drop_last()).insert(e.row_id(), e));
        assert(table_map(rows) == table_map(rows.drop_last()).insert(
            rows.last().row_id(),
            rows.last(),
        ));
        assert(table_map(rows.drop_last()).insert(rows.last().row_id(), rows.last()).insert(
            e.row_id(),
            e,
        ) =~= table_map(rows.drop_last()).insert(e.row_id(), e));
    } else {
        assert(rows2.drop_last() =~= rows.drop_last().update(i, e));
        assert(rows2.last() == rows.last());
        assert(wf_rows(rows.drop_last())) by {
            assert forall|a: int, b: int|
                0 <= a < b < rows.drop_last().len() implies rows.drop_last()[a].row_id()
                != rows.drop_last()[b].row_id() by {
                assert(rows[a].row_id() != rows[b].row_id());
            }
        }
        lemma_table_map_update(rows.drop_last(), i, e);
        assert(rows[i].row_id() != rows.last().row_id());
        assert(table_map(rows.drop_last()).insert(e.row_id(), e).insert(
            rows.last().row_id(),
            rows.last(),
        ) =~= table_map(rows.drop_last()).insert(rows.last().row_id(), rows.last()).insert(
            e.row_id(),
            e,
        ));
    }
}

/// An upsert inserts the row's key into the stored relation and keeps the
/// table well formed.
pub proof fn lemma_upsert_map<R: TableRow>(rows: Seq<R>, e: R)
    requires
        wf_rows(rows),
    ensures
        table_map(spec_upsert(rows, e)) == table_map(rows).insert(e.row_id(), e),
        wf_rows(spec_upsert(rows, e)),
{
    if has_id(rows, e.row_id()) {
        let i = choose|i: int| 0 <= i < rows.len() && rows[i].row_id() == e.row_id();
        lemma_table_map_update(rows, i, e);
    } else {
        let rows2 = rows.push(e);
        assert(rows2.drop_last() =~= rows);
        assert(rows2.last() == e);
        assert forall|a: int, b: int| 0 <= a < b < rows2.len() implies rows2[a].row_id()
            != rows2[b].row_id() by {
            if b < rows.len() {
                assert(rows[a].row_id() != rows[b].row_id());
            } else {
                assert(rows2[a] == rows[a]);
                assert(!(exists|k: int| 0 <= k < rows.len() && rows[k].row_id() == e.row_id()));
            }
        }
    }
}

/// Applying a list of rows, seen on the stored relation, is inserting them
/// in order; the table stays well formed.
pub proof fn lemma_apply_map<R: TableRow>(rows: Seq<R>, entries: Seq<R>)
    requires
        wf_rows(rows),
    ensures
        table_map(spec_apply(rows, entries)) == spec_apply_map(table_map(rows), entries),
        wf_rows(spec_apply(rows, entries)),
    decreases entries.len(),
{
    if entries.len() == 0 {
    } else {
        lemma_upsert_map(rows, entries[0]);
        lemma_apply_map(spec_upsert(rows, entries[0]), entries.drop_first());
    }
}

/// Appending one more row to an applied list inserts it last.
pub proof fn lemma_apply_map_push<R: TableRow>(m: Map<u64, R>, entries: Seq<R>, e: R)
    ensures
        spec_apply_map(m, entries.push(e)) == spec_apply_map(m, entries).insert(e.row_id(), e),
    decreases entries.len(),
{
    if entries.len() == 0 {
        assert(entries.push(e).drop_first() =~= Seq::<R>::empty());
        assert(entries.push(e)[0] == e);
        assert(spec_apply_map(m.insert(e.row_id(), e), Seq::<R>::empty()) == m.insert(
            e.row_id(),
            e,
        ));
        assert(spec_apply_map(m, entries) == m);
    } else {
        assert(entries.push(e)[0] == entries[0]);
        assert(entries.push(e).drop_first() =~= entries.drop_first().push(e));
        lemma_apply_map_push(m.insert(entries[0].row_id(), entries[0]), entries.drop_first(), e);
    }
}

/// What applying a list of rows leaves at each key: the last write of that
/// key, or what the relation held before.
pub proof fn lemma_apply_map_value<R: TableRow>(m: Map<u64, R>, entries: Seq<R>, id: u64)
    ensures
        spec_apply_map(m, entries).contains_key(id) <==> (m.contains_key(id) || last_write(
            entries,
            id,
        ) is Some),
        spec_apply_map(m, entries).contains_key(id) ==> spec_apply_map(m, entries)[id] == (
        match last_write(entries, id) {
            Some(e) => e,
            None => m[id],
        }),
    decreases entries.len(),
{
    if entries.len() == 0 {
    } else {
        let pre = entries.drop_last();
        let e = entries.last();
        assert(entries =~= pre.push(e));
        lemma_apply_map_push(m, pre, e);
        lemma_apply_map_value(m, pre, id);
    }
}

/// Applying the same list of rows twice leaves the stored relation exactly
/// as applying it once does.
pub proof fn lemma_apply_map_idempotent<R: TableRow>(m: Map<u64, R>, entries: Seq<R>)
    ensures
        spec_apply_map(spec_apply_map(m, entries), entries) == spec_apply_map(m, entries),
{
    let once = spec_apply_map(m, entries);
    let twice = spec_apply_map(once, entries);
    assert forall|id: u64| twice.contains_key(id) <==> once.contains_key(id) by {
        lemma_apply_map_value(m, entries, id);
        lemma_apply_map_value(once, entries, id);
    }
    assert forall|id: u64| once.contains_key(id) implies twice[id] == once[id] by {
        lemma_apply_map_value(m, entries, id);
        lemma_apply_map_value(once, entries, id);
    }
    assert(twice =~= once);
}

/// Upsert idempotence: persisting the same rows twice leaves the stored
/// relation exactly as persisting them once does, and keeps the table
/// well formed.
pub proof fn lemma_persist_idempotent<R: TableRow>(rows: Seq<R>, entries: Seq<R>)
    requires
        wf_rows(rows),
    ensures
        wf_rows(spec_apply(rows, entries)),
        table_map(spec_apply(spec_apply(rows, entries), entries)) == table_map(
            spec_apply(rows, entries),
        ),
{
    lemma_apply_map(rows, entries);
    lemma_apply_map(spec_apply(rows, entries), entries);
    lemma_apply_map_idempotent(table_map(rows), entries);
}

/// Applying a batch completes it, whatever the table held before: every
/// row of the batch whose key is unique within it ends up stored under
/// its key, exactly once.  In particular, replaying a batch a crash cut
/// short fills in the rows the first run never wrote and rewrites the
/// ones it did.
pub proof fn lemma_apply_completes_batch<R: TableRow>(rows: Seq<R>, entries: Seq<R>, j: int)
    requires
        wf_rows(rows),
        0 <= j < entries.len(),
        forall|j2: int|
            0 <= j2 < entries.len() && j2 != j ==> (#[trigger] entries[j2]).row_id()
                != entries[j].row_id(),
    ensures
        wf_rows(spec_apply(rows, entries)),
        table_map(spec_apply(rows, entries)).contains_key(entries[j].row_id()),
        table_map(spec_apply(rows, entries))[entries[j].row_id()] == entries[j],
{
    lemma_apply_map(rows, entries);
    lemma_last_write_unique(entries, entries[j].row_id(), j);
    lemma_apply_map_value(table_map(rows), entries, entries[j].row_id());
}

/// No row of a list carries the key.
pub proof fn lemma_last_write_none<R: TableRow>(entries: Seq<R>, id: u64)
    requires
        forall|i: int| 0 <= i < entries.len() ==> (#[trigger] entries[i]).row_id() != id,
    ensures
        last_write(entries, id) is None,
    decreases entries.len(),
{
    if entries.len() > 0 {
        lemma_last_write_none(entries.drop_last(), id);
    }
}

/// The one row of a list that carries the key is its last write.
pub proof fn lemma_last_write_unique<R: TableRow>(entries: Seq<R>, id: u64, j: int)
    requires
        0 <= j < entries.len(),
        entries[j].row_id() == id,
        forall|i: int|
            0 <= i < entries.len() && i != j ==> (#[trigger] entries[i]).row_id() != id,
    ensures
        last_write(entries, id) == Some(entries[j]),
    decreases entries.len(),
{
    if j == entries.len() - 1 {
    } else {
        lemma_last_write_unique(entries.drop_last(), id, j);
    }
}

/// Replaces the row with the same key, or appends the new row.
pub fn upsert_row<R: TableRow>(rows: &mut Vec<R>, e: R)
    requires
        wf_rows(old(rows)@),
    ensures
        final(rows)@ == spec_upsert(old(rows)@, e),
        wf_rows(final(rows)@),
{
    let eid = e.id_value();
    let n = rows.len();
    let mut i: usize = 0;
    while i < n
        invariant
            n == rows@.len(),
            0 <= i <= n,
            rows@ == old(rows)@,
            wf_rows(rows@),
            eid == e.row_id(),
            forall|j: int| 0 <= j < i ==> rows@[j].row_id() != e.row_id(),
        decreases n - i,
    {
        if rows[i].id_value() == eid {
            proof {
                assert(has_id(old(rows)@, e.row_id())) by {
                    assert(old(rows)@[i as int].row_id() == e.row_id());
                }
                let k = choose|k: int|
                    0 <= k < old(rows)@.len() && old(rows)@[k].row_id() == e.row_id();
                assert(k == i);
                lemma_upsert_map(old(rows)@, e);
            }
            rows[i] = e;
            return ;
        }
        i = i + 1;
    }
    proof {
        assert(!has_id(rows@, e.row_id()));
        lemma_upsert_map(old(rows)@, e);
    }
    rows.push(e);
}

/// One block's rows for the three tables, main rows first.
pub struct DataForDatabase {
    pub main_entries: Vec<main_table::TableEntry>,
    pub execute_entries: Vec<execute_table::TableEntry>,
    pub send_message_entries: Vec<send_message_table::TableEntry>,
}

impl Default for DataForDatabase {
    fn default() -> (r: Self)
        ensures
            r.main_entries@ == Seq::<main_table::TableEntry>::empty(),
            r.execute_entries@ == Seq::<execute_table::TableEntry>::empty(),
            r.send_message_entries@ == Seq::<send_message_table::TableEntry>::empty(),
    {
        DataForDatabase {
            main_entries: Vec::new(),
            execute_entries: Vec::new(),
            send_message_entries: Vec::new(),
        }
    }
}

/// The three related tables of the store.
pub struct Database {
    pub main: MainTable,
    pub execute: ExecuteTable,
    pub send_message: SendMessageTable,
}

impl Database {
    /// No two rows of a table share a key.
    pub open spec fn wf(&self) -> bool {
        &&& wf_rows(self.main.rows@)
        &&& wf_rows(self.execute.rows@)
        &&& wf_rows(self.send_message.rows@)
    }

    pub fn new() -> (r: Self)
        ensures
            r.main.rows@.len() == 0,
            r.execute.rows@.len() == 0,
            r.send_message.rows@.len() == 0,
            r.wf(),
    {
        Database {
            main: MainTable { rows: Vec::new() },
            execute: ExecuteTable { rows: Vec::new() },
            send_message: SendMessageTable { rows: Vec::new() },
        }
    }

    /// Upserts a block's rows: main rows first, then the children, each
    /// group in order.  Replaying the same batch leaves the store unchanged.
    pub fn insert(&mut self, data: DataForDatabase)
        requires
            old(self).wf(),
        ensures
            final(self).main.rows@ == spec_apply(old(self).main.rows@, data.main_entries@),
            final(self).execute.rows@ == spec_apply(old(self).execute.rows@, data.execute_entries@),
            final(self).send_message.rows@ == spec_apply(
                old(self).send_message.rows@,
                data.send_message_entries@,
            ),
            final(self).wf(),
    {
        let DataForDatabase { main_entries, execute_entries, send_message_entries } = data;
        apply_rows(&mut self.main.rows, main_entries);
        apply_rows(&mut self.execute.rows, execute_entries);
        apply_rows(&mut self.send_message.rows, send_message_entries);
    }

    /// The greatest block height any main row carries.
    pub fn find_highest_block_height(&self) -> (r: Option<u32>)
        ensures
            r is None <==> self.main.rows@.len() == 0,
            r matches Some(m) ==> (exists|i: int|
                0 <= i < self.main.rows@.len() && self.main.rows@[i].block_height == m)
                && (forall|i: int|
                0 <= i < self.main.rows@.len() ==> self.main.rows@[i].block_height <= m),
    {
        self.main.find_highest_block_height()
    }
}

fn apply_rows<R: TableRow>(rows: &mut Vec<R>, entries: Vec<R>)
    requires
        wf_rows(old(rows)@),
    ensures
        final(rows)@ == spec_apply(old(rows)@, entries@),
        wf_rows(final(rows)@),
{
    let mut remaining = entries;
    while remaining.len() > 0
        invariant
            wf_rows(rows@),
            spec_apply(old(rows)@, entries@) == spec_apply(rows@, remaining@),
        decreases remaining@.len(),
    {
        let ghost rem0 = remaining@;
        let ghost rows0 = rows@;
        let e = remaining.remove(0);
        proof {
            assert(remaining@ =~= rem0.drop_first());
        }
        upsert_row(rows, e);
        proof {
            assert(spec_apply(rows0, rem0) == spec_apply(rows@, remaining@));
        }
    }
}

} // verus!
