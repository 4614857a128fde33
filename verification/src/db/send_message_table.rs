//! The child table of outbound calls, one row per stored `SendMessage`.

use vstd::prelude::*;

use crate::db::{spec_upsert, wf_rows, upsert_row, TableRow};
use crate::serialize::{spec_message_amount, spec_message_kind, SerializedSendMessage};
use crate::types::Hash256;

verus! {

/// One send-message row.
#[derive(Debug)]
pub struct TableEntry {
    /// Same id as the parent main row.
    pub id: u64,
    /// The message kind tag.
    pub kind: String,
    /// Present only for fungible-token messages.
    pub amount: Option<u128>,
    /// The recipient on the destination chain.
    pub to: Hash256,
}

pub struct SpecTableEntry {
    pub id: u64,
    pub kind: Seq<char>,
    pub amount: Option<u128>,
    pub to: Seq<u8>,
}

impl View for TableEntry {
    type V = SpecTableEntry;

    open spec fn view(&self) -> SpecTableEntry {
        SpecTableEntry { id: self.id, kind: self.kind@, amount: self.amount, to: self.to@ }
    }
}

impl DeepView for TableEntry {
    type V = SpecTableEntry;

    open spec fn deep_view(&self) -> SpecTableEntry {
        self.view()
    }
}

impl TableRow for TableEntry {
    open spec fn row_id(&self) -> u64 {
        self.id
    }

    fn id_value(&self) -> u64 {
        self.id
    }
}

impl TableEntry {
    /// The child row of a stored outbound call.
    pub fn from_call(id: u64, call: &SerializedSendMessage) -> (r: Self)
        ensures
            r.id == id,
            r.kind@ == spec_message_kind(call@.message),
            r.amount == spec_message_amount(call@.message),
            r.to == call.to,
    {
        TableEntry {
            id,
            kind: String::from_str(call.message.kind()),
            amount: call.message.amount(),
            to: call.to,
        }
    }
}

/// The send-message table.
pub struct SendMessageTable {
    pub rows: Vec<TableEntry>,
}

impl SendMessageTable {
    pub fn new() -> (r: Self)
        ensures
            r.rows@.len() == 0,
            wf_rows(r.rows@),
    {
        SendMessageTable { rows: Vec::new() }
    }

    /// Upsert by id.
    pub fn insert(&mut self, value: TableEntry)
        requires
            wf_rows(old(self).rows@),
        ensures
            final(self).rows@ == spec_upsert(old(self).rows@, value),
            wf_rows(final(self).rows@),
    {
        upsert_row(&mut self.rows, value);
    }
}

} // verus!
