//! The child table of inbound calls, one row per stored `Execute`.

use vstd::prelude::*;

use crate::db::{spec_upsert, wf_rows, upsert_row, TableRow};
use crate::serialize::{spec_message_amount, spec_message_kind, SerializedExecute};
use crate::types::Hash256;

verus! {

/// One execute row.
#[derive(Debug)]
pub struct TableEntry {
    /// Same id as the parent main row.
    pub id: u64,
    /// The message kind tag.
    pub kind: String,
    /// Present only for fungible-token messages.
    pub amount: Option<u128>,
    /// The recipient of the addressed message.
    pub to: Hash256,
    pub slot: u64,
    /// The id the addressed message carries.
    pub message_id: u64,
}

pub struct SpecTableEntry {
    pub id: u64,
    pub kind: Seq<char>,
    pub amount: Option<u128>,
    pub to: Seq<u8>,
    pub slot: u64,
    pub message_id: u64,
}

impl View for TableEntry {
    type V = SpecTableEntry;

    open spec fn view(&self) -> SpecTableEntry {
        SpecTableEntry {
            id: self.id,
            kind: self.kind@,
            amount: self.amount,
            to: self.to@,
            slot: self.slot,
            message_id: self.message_id,
        }
    }
}

impl DeepView for TableEntry {
    type V = SpecTableEntry;

    open spec fn deep_view(&self) -> SpecTableEntry {
        self.view()
    }
}

impl TableRow for TableEntry {
    open spec fn row_id(&self) -> u64 {
        self.id
    }

    fn id_value(&self) -> u64 {
        self.id
    }
}

impl TableEntry {
    /// The child row of a stored inbound call.
    pub fn from_call(id: u64, call: &SerializedExecute) -> (r: Self)
        ensures
            r.id == id,
            r.kind@ == spec_message_kind(call@.addr_message.message),
            r.amount == spec_message_amount(call@.addr_message.message),
            r.to == call.addr_message.to,
            r.slot == call.slot,
            r.message_id == call.addr_message.id,
    {
        TableEntry {
            id,
            kind: String::from_str(call.addr_message.message.kind()),
            amount: call.addr_message.message.amount(),
            to: call.addr_message.to,
            slot: call.slot,
            message_id: call.addr_message.id,
        }
    }
}

/// The execute table.
pub struct ExecuteTable {
    pub rows: Vec<TableEntry>,
}

impl ExecuteTable {
    pub fn new() -> (r: Self)
        ensures
            r.rows@.len() == 0,
            wf_rows(r.rows@),
    {
        ExecuteTable { rows: Vec::new() }
    }

    /// Upsert by id.
    pub fn insert(&mut self, value: TableEntry)
        requires
            wf_rows(old(self).rows@),
        ensures
            final(self).rows@ == spec_upsert(old(self).rows@, value),
            wf_rows(final(self).rows@),
    {
        upsert_row(&mut self.rows, value);
    }
}

} // verus!
