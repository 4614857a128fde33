//! The main table: one row per indexed bridge extrinsic.

use vstd::prelude::*;

use crate::db::{has_id, spec_upsert, wf_rows, upsert_row, TableRow};
use crate::types::{spec_make_id, Hash256, RawExtrinsic};

verus! {

/// One main-table row.
#[derive(Debug)]
pub struct TableEntry {
    /// Packed as `(block_height << 32) | ext_index`.
    pub id: u64,
    pub block_height: u32,
    pub block_hash: Hash256,
    /// Unix seconds.
    pub block_timestamp: u64,
    pub ext_index: u32,
    pub ext_hash: Hash256,
    /// SS58 rendering of the signer; absent for unsigned extrinsics.
    pub signature_address: Option<String>,
    pub pallet_id: u8,
    pub variant_id: u8,
    /// Whether the event stream showed `ExtrinsicSuccess`; absent when the
    /// events could not be read.
    pub ext_success: Option<bool>,
    /// The call, JSON encoded.
    pub ext_call: String,
}

pub struct SpecTableEntry {
    pub id: u64,
    pub block_height: u32,
    pub block_hash: Seq<u8>,
    pub block_timestamp: u64,
    pub ext_index: u32,
    pub ext_hash: Seq<u8>,
    pub signature_address: Option<Seq<char>>,
    pub pallet_id: u8,
    pub variant_id: u8,
    pub ext_success: Option<bool>,
    pub ext_call: Seq<char>,
}

impl View for TableEntry {
    type V = SpecTableEntry;

    open spec fn view(&self) -> SpecTableEntry {
        SpecTableEntry {
            id: self.id,
            block_height: self.block_height,
            block_hash: self.block_hash@,
            block_timestamp: self.block_timestamp,
            ext_index: self.ext_index,
            ext_hash: self.ext_hash@,
            signature_address: match self.signature_address {
                Some(ref s) => Some(s@),
                None => None,
            },
            pallet_id: self.pallet_id,
            variant_id: self.variant_id,
            ext_success: self.ext_success,
            ext_call: self.ext_call@,
        }
    }
}

impl DeepView for TableEntry {
    type V = SpecTableEntry;

    open spec fn deep_view(&self) -> SpecTableEntry {
        self.view()
    }
}

impl TableRow for TableEntry {
    open spec fn row_id(&self) -> u64 {
        self.id
    }

    fn id_value(&self) -> u64 {
        self.id
    }
}

impl TableEntry {
    /// The row skeleton for one extrinsic of a block: success unknown, call
    /// text still empty.
    pub fn from_block_ext(
        block_height: u32,
        block_hash: Hash256,
        block_timestamp: u64,
        ext: RawExtrinsic,
    ) -> (r: Self)
        ensures
            r.id == spec_make_id(block_height, ext.ext_index),
            r.block_height == block_height,
            r.block_hash == block_hash,
            r.block_timestamp == block_timestamp,
            r.ext_index == ext.ext_index,
            r.ext_hash == ext.ext_hash,
            r.signature_address == ext.ss58_address,
            r.pallet_id == ext.pallet_id,
            r.variant_id == ext.variant_id,
            r.ext_success is None,
            r.ext_call@ == Seq::<char>::empty(),
    {
        TableEntry {
            id: crate::types::make_id(block_height, ext.ext_index),
            block_height,
            block_hash,
            block_timestamp,
            ext_index: ext.ext_index,
            ext_hash: ext.ext_hash,
            signature_address: ext.ss58_address,
            pallet_id: ext.pallet_id,
            variant_id: ext.variant_id,
            ext_success: None,
            ext_call: String::new(),
        }
    }
}

/// The main table.
pub struct MainTable {
    pub rows: Vec<TableEntry>,
}

impl MainTable {
    pub fn new() -> (r: Self)
        ensures
            r.rows@.len() == 0,
            wf_rows(r.rows@),
    {
        MainTable { rows: Vec::new() }
    }

    /// Upsert by id.
    pub fn insert(&mut self, value: TableEntry)
        requires
            wf_rows(old(self).rows@),
        ensures
            final(self).rows@ == spec_upsert(old(self).rows@, value),
            wf_rows(final(self).rows@),
    {
        upsert_row(&mut self.rows, value);
    }

    /// The greatest block height any row carries.
    pub fn find_highest_block_height(&self) -> (r: Option<u32>)
        ensures
            r is None <==> self.rows@.len() == 0,
            r matches Some(m) ==> (exists|i: int|
                0 <= i < self.rows@.len() && self.rows@[i].block_height == m) && (forall|i: int|
                0 <= i < self.rows@.len() ==> self.rows@[i].block_height <= m),
    {
        let n = self.rows.len();
        if n == 0 {
            return None;
        }
        let mut m: u32 = self.rows[0].block_height;
        let mut i: usize = 1;
        while i < n
            invariant
                n == self.rows@.len(),
                1 <= i <= n,
                exists|j: int| 0 <= j < i && self.rows@[j].block_height == m,
                forall|j: int| 0 <= j < i ==> self.rows@[j].block_height <= m,
            decreases n - i,
        {
            if self.rows[i].block_height > m {
                m = self.rows[i].block_height;
            }
            i = i + 1;
        }
        Some(m)
    }

    /// Whether a row with this id exists.
    pub fn row_exists(&self, id: u64) -> (r: bool)
        ensures
            r == has_id(self.rows@, id),
    {
        let n = self.rows.len();
        let mut i: usize = 0;
        while i < n
            invariant
                n == self.rows@.len(),
                0 <= i <= n,
                forall|j: int| 0 <= j < i ==> self.rows@[j].row_id() != id,
            decreases n - i,
        {
            if self.rows[i].id == id {
                return true;
            }
            i = i + 1;
        }
        false
    }
}

} // verus!
