//! Plain-value data model: hashes, bridge call shapes, and the packed row id.

use vstd::prelude::*;

verus! {

/// A 32-byte hash or account key, held as plain bytes.
#[derive(Clone, Copy, Debug, PartialEq, Eq)]
pub struct Hash256 {
    pub bytes: [u8; 32],
}

impl View for Hash256 {
    type V = Seq<u8>;

    open spec fn view(&self) -> Seq<u8> {
        self.bytes@
    }
}

impl Hash256 {
    pub fn new(bytes: [u8; 32]) -> (r: Self)
        ensures
            r@ == bytes@,
    {
        Hash256 { bytes }
    }
}

/// The id of a row packs the block height into the high 32 bits and the
/// extrinsic index into the low 32 bits.
pub open spec fn spec_make_id(height: u32, ext_index: u32) -> u64 {
    ((height as u64) << 32) | (ext_index as u64)
}

/// The block height a row id was packed from.
pub open spec fn spec_id_height(id: u64) -> u32 {
    (id >> 32) as u32
}

/// The extrinsic index a row id was packed from.
pub open spec fn spec_id_ext_index(id: u64) -> u32 {
    (id & 0xffff_ffff) as u32
}

pub fn make_id(height: u32, ext_index: u32) -> (r: u64)
    ensures
        r == spec_make_id(height, ext_index),
{
    ((height as u64) << 32) | (ext_index as u64)
}

/// A packed id decomposes into exactly the height and index it was made from.
pub proof fn lemma_id_roundtrip(height: u32, ext_index: u32)
    ensures
        spec_id_height(spec_make_id(height, ext_index)) == height,
        spec_id_ext_index(spec_make_id(height, ext_index)) == ext_index,
{
    assert(((((height as u64) << 32) | (ext_index as u64)) >> 32) as u32 == height)
        by (bit_vector);
    assert(((((height as u64) << 32) | (ext_index as u64)) & 0xffff_ffffu64) as u32 == ext_index)
        by (bit_vector);
}

/// Distinct (height, index) pairs get distinct ids.
pub proof fn lemma_id_injective(h1: u32, e1: u32, h2: u32, e2: u32)
    requires
        spec_make_id(h1, e1) == spec_make_id(h2, e2),
    ensures
        h1 == h2 && e1 == e2,
{
    lemma_id_roundtrip(h1, e1);
    lemma_id_roundtrip(h2, e2);
}

/// The payload carried by a bridge call.
#[derive(Clone, Debug)]
pub enum Message {
    ArbitraryMessage(Vec<u8>),
    FungibleToken { asset_id: Hash256, amount: u128 },
}

pub enum SpecMessage {
    ArbitraryMessage(Seq<u8>),
    FungibleToken { asset_id: Seq<u8>, amount: u128 },
}

impl View for Message {
    type V = SpecMessage;

    open spec fn view(&self) -> SpecMessage {
        match self {
            Message::ArbitraryMessage(b) => SpecMessage::ArbitraryMessage(b@),
            Message::FungibleToken { asset_id, amount } => SpecMessage::FungibleToken {
                asset_id: asset_id@,
                amount: *amount,
            },
        }
    }
}

/// A message addressed across the bridge, as carried by an `Execute` call.
#[derive(Clone, Debug)]
pub struct AddressedMessage {
    pub message: Message,
    pub from: Hash256,
    pub to: Hash256,
    pub origin_domain: u32,
    pub destination_domain: u32,
    pub id: u64,
}

pub struct SpecAddressedMessage {
    pub message: SpecMessage,
    pub from: Seq<u8>,
    pub to: Seq<u8>,
    pub origin_domain: u32,
    pub destination_domain: u32,
    pub id: u64,
}

impl View for AddressedMessage {
    type V = SpecAddressedMessage;

    open spec fn view(&self) -> SpecAddressedMessage {
        SpecAddressedMessage {
            message: self.message@,
            from: self.from@,
            to: self.to@,
            origin_domain: self.origin_domain,
            destination_domain: self.destination_domain,
            id: self.id,
        }
    }
}

/// An outbound bridge call.
#[derive(Clone, Debug)]
pub struct SendMessage {
    pub message: Message,
    pub to: Hash256,
    pub domain: u32,
}

pub struct SpecSendMessage {
    pub message: SpecMessage,
    pub to: Seq<u8>,
    pub domain: u32,
}

impl View for SendMessage {
    type V = SpecSendMessage;

    open spec fn view(&self) -> SpecSendMessage {
        SpecSendMessage { message: self.message@, to: self.to@, domain: self.domain }
    }
}

/// An inbound bridge call carrying a proof-bearing addressed message.
#[derive(Clone, Debug)]
pub struct Execute {
    pub slot: u64,
    pub addr_message: AddressedMessage,
    pub account_proof: Vec<Vec<u8>>,
    pub storage_proof: Vec<Vec<u8>>,
}

pub struct SpecExecute {
    pub slot: u64,
    pub addr_message: SpecAddressedMessage,
    pub account_proof: Seq<Seq<u8>>,
    pub storage_proof: Seq<Seq<u8>>,
}

impl View for Execute {
    type V = SpecExecute;

    open spec fn view(&self) -> SpecExecute {
        SpecExecute {
            slot: self.slot,
            addr_message: self.addr_message@,
            account_proof: self.account_proof.deep_view(),
            storage_proof: self.storage_proof.deep_view(),
        }
    }
}

/// One of the two bridge-relevant call variants.
#[derive(Clone, Debug)]
pub enum SendMsgOrExecute {
    Send(SendMessage),
    Execute(Execute),
}

pub enum SpecCall {
    Send(SpecSendMessage),
    Execute(SpecExecute),
}

impl View for SendMsgOrExecute {
    type V = SpecCall;

    open spec fn view(&self) -> SpecCall {
        match self {
            SendMsgOrExecute::Send(s) => SpecCall::Send(s@),
            SendMsgOrExecute::Execute(e) => SpecCall::Execute(e@),
        }
    }
}

/// Whether the call sat inside a multisig or proxy wrapper.
#[derive(Clone, Copy, Debug, PartialEq, Eq, Structural)]
pub struct Wrapped {
    pub inside_multisig: bool,
    pub inside_proxy: bool,
}

impl Default for Wrapped {
    fn default() -> (r: Self)
        ensures
            !r.inside_multisig,
            !r.inside_proxy,
    {
        Wrapped { inside_multisig: false, inside_proxy: false }
    }
}

/// The signer of an extrinsic, as the chain addresses accounts.
#[derive(Clone, Copy, Debug)]
pub enum MultiAddress {
    Id(Hash256),
    Other,
}

/// One filtered extrinsic of a block, as the node hands it over.
#[derive(Clone, Debug)]
pub struct RawExtrinsic {
    pub pallet_id: u8,
    pub variant_id: u8,
    pub ext_index: u32,
    pub ext_hash: Hash256,
    pub address: Option<MultiAddress>,
    pub ss58_address: Option<String>,
    pub call_data: Vec<u8>,
}

pub enum SpecMultiAddress {
    Id(Seq<u8>),
    Other,
}

impl View for MultiAddress {
    type V = SpecMultiAddress;

    open spec fn view(&self) -> SpecMultiAddress {
        match self {
            MultiAddress::Id(h) => SpecMultiAddress::Id(h@),
            MultiAddress::Other => SpecMultiAddress::Other,
        }
    }
}

pub struct SpecRawExtrinsic {
    pub pallet_id: u8,
    pub variant_id: u8,
    pub ext_index: u32,
    pub ext_hash: Seq<u8>,
    pub address: Option<SpecMultiAddress>,
    pub ss58_address: Option<Seq<char>>,
    pub call_data: Seq<u8>,
}

impl View for RawExtrinsic {
    type V = SpecRawExtrinsic;

    open spec fn view(&self) -> SpecRawExtrinsic {
        SpecRawExtrinsic {
            pallet_id: self.pallet_id,
            variant_id: self.variant_id,
            ext_index: self.ext_index,
            ext_hash: self.ext_hash@,
            address: match self.address {
                Some(a) => Some(a@),
                None => None,
            },
            ss58_address: match self.ss58_address {
                Some(ref s) => Some(s@),
                None => None,
            },
            call_data: self.call_data@,
        }
    }
}

impl DeepView for RawExtrinsic {
    type V = SpecRawExtrinsic;

    open spec fn deep_view(&self) -> SpecRawExtrinsic {
        self.view()
    }
}

/// What the block's event stream answers for one extrinsic.
#[derive(Clone, Copy, Debug)]
pub struct ExtEvents {
    pub has_extrinsic_success: bool,
    pub has_extrinsic_failed: bool,
    pub multisig_executed_ok: Option<bool>,
    pub proxy_executed_ok: Option<bool>,
}

} // verus!
