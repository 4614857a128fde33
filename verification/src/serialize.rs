//! Serialized call shapes and the JSON text stored in the main table's
//! `ext_call` column.

use vstd::prelude::*;

use crate::encode::{encode_prefixed, spec_dec, spec_hex_prefixed, u128_to_dec, u32_to_dec,
    u64_to_dec};
use crate::types::{AddressedMessage, Execute, Hash256, Message, SendMessage, SpecAddressedMessage,
    SpecExecute, SpecMessage, SpecSendMessage};

verus! {

/// A bridge message with its payload rendered for storage: arbitrary bytes
/// become a `0x`-prefixed hex string, fungible transfers keep their fields.
#[derive(Clone, Debug)]
pub enum SerializedMessage {
    ArbitraryMessage(String),
    FungibleToken { asset_id: Hash256, amount: u128 },
}

pub enum SpecSerializedMessage {
    ArbitraryMessage(Seq<char>),
    FungibleToken { asset_id: Seq<u8>, amount: u128 },
}

impl View for SerializedMessage {
    type V = SpecSerializedMessage;

    open spec fn view(&self) -> SpecSerializedMessage {
        match self {
            SerializedMessage::ArbitraryMessage(s) => SpecSerializedMessage::ArbitraryMessage(s@),
            SerializedMessage::FungibleToken { asset_id, amount } => {
                SpecSerializedMessage::FungibleToken { asset_id: asset_id@, amount: *amount }
            },
        }
    }
}

/// How a decoded message is rendered for storage.
pub open spec fn spec_serialize_message(m: SpecMessage) -> SpecSerializedMessage {
    match m {
        SpecMessage::ArbitraryMessage(b) => SpecSerializedMessage::ArbitraryMessage(
            spec_hex_prefixed(b),
        ),
        SpecMessage::FungibleToken { asset_id, amount } => SpecSerializedMessage::FungibleToken {
            asset_id,
            amount,
        },
    }
}

impl SerializedMessage {
    pub fn from_message(m: &Message) -> (r: Self)
        ensures
            r@ == spec_serialize_message(m@),
    {
        match m {
            Message::ArbitraryMessage(items) => {
                SerializedMessage::ArbitraryMessage(encode_prefixed(items.as_slice()))
            },
            Message::FungibleToken { asset_id, amount } => {
                SerializedMessage::FungibleToken { asset_id: *asset_id, amount: *amount }
            },
        }
    }

    /// The tag this message kind carries in stored rows.
    pub fn kind(&self) -> (r: &'static str)
        ensures
            r@ == spec_message_kind(self@),
    {
        match self {
            SerializedMessage::ArbitraryMessage(_) => "ArbitraryMessage",
            SerializedMessage::FungibleToken { .. } => "FungibleToken",
        }
    }

    /// The transferred amount; only a fungible-token message has one.
    pub fn amount(&self) -> (r: Option<u128>)
        ensures
            r == spec_message_amount(self@),
    {
        match self {
            SerializedMessage::ArbitraryMessage(_) => None,
            SerializedMessage::FungibleToken { asset_id: _, amount } => Some(*amount),
        }
    }
}

pub open spec fn spec_message_kind(m: SpecSerializedMessage) -> Seq<char> {
    match m {
        SpecSerializedMessage::ArbitraryMessage(_) => "ArbitraryMessage"@,
        SpecSerializedMessage::FungibleToken { .. } => "FungibleToken"@,
    }
}

pub open spec fn spec_message_amount(m: SpecSerializedMessage) -> Option<u128> {
    match m {
        SpecSerializedMessage::ArbitraryMessage(_) => None,
        SpecSerializedMessage::FungibleToken { asset_id: _, amount } => Some(amount),
    }
}

/// An addressed message rendered for storage.
#[derive(Clone, Debug)]
pub struct SerializedAddressedMessage {
    pub message: SerializedMessage,
    pub from: Hash256,
    pub to: Hash256,
    pub origin_domain: u32,
    pub destination_domain: u32,
    pub id: u64,
}

pub struct SpecSerializedAddressedMessage {
    pub message: SpecSerializedMessage,
    pub from: Seq<u8>,
    pub to: Seq<u8>,
    pub origin_domain: u32,
    pub destination_domain: u32,
    pub id: u64,
}

impl View for SerializedAddressedMessage {
    type V = SpecSerializedAddressedMessage;

    open spec fn view(&self) -> SpecSerializedAddressedMessage {
        SpecSerializedAddressedMessage {
            message: self.message@,
            from: self.from@,
            to: self.to@,
            origin_domain: self.origin_domain,
            destination_domain: self.destination_domain,
            id: self.id,
        }
    }
}

pub open spec fn spec_serialize_addressed(a: SpecAddressedMessage) -> SpecSerializedAddressedMessage {
    SpecSerializedAddressedMessage {
        message: spec_serialize_message(a.message),
        from: a.from,
        to: a.to,
        origin_domain: a.origin_domain,
        destination_domain: a.destination_domain,
        id: a.id,
    }
}

impl SerializedAddressedMessage {
    pub fn from_addressed(a: &AddressedMessage) -> (r: Self)
        ensures
            r@ == spec_serialize_addressed(a@),
    {
        SerializedAddressedMessage {
            message: SerializedMessage::from_message(&a.message),
            from: a.from,
            to: a.to,
            origin_domain: a.origin_domain,
            destination_domain: a.destination_domain,
            id: a.id,
        }
    }
}

/// An outbound call rendered for storage.
#[derive(Clone, Debug)]
pub struct SerializedSendMessage {
    pub message: SerializedMessage,
    pub to: Hash256,
    pub domain: u32,
}

pub struct SpecSerializedSendMessage {
    pub message: SpecSerializedMessage,
    pub to: Seq<u8>,
    pub domain: u32,
}

impl View for SerializedSendMessage {
    type V = SpecSerializedSendMessage;

    open spec fn view(&self) -> SpecSerializedSendMessage {
        SpecSerializedSendMessage { message: self.message@, to: self.to@, domain: self.domain }
    }
}

pub open spec fn spec_serialize_send_message(s: SpecSendMessage) -> SpecSerializedSendMessage {
    SpecSerializedSendMessage {
        message: spec_serialize_message(s.message),
        to: s.to,
        domain: s.domain,
    }
}

impl SerializedSendMessage {
    pub fn from_send_message(s: &SendMessage) -> (r: Self)
        ensures
            r@ == spec_serialize_send_message(s@),
    {
        SerializedSendMessage {
            message: SerializedMessage::from_message(&s.message),
            to: s.to,
            domain: s.domain,
        }
    }

    /// The JSON text stored in `ext_call` for an outbound call.
    pub fn to_json(&self) -> (r: Result<String, String>)
        ensures
            r matches Ok(s) && s@ == spec_json_send_message(self@),
    {
        let mut s = String::new();
        s.append("{\"message\":");
        let m = json_message(&self.message);
        s.append(m.as_str());
        s.append(",\"to\":\"");
        let to = encode_prefixed(self.to.bytes.as_slice());
        s.append(to.as_str());
        s.append("\",\"domain\":");
        let d = u32_to_dec(self.domain);
        s.append(d.as_str());
        s.append("}");
        proof {
            assert(s@ =~= spec_json_send_message(self@));
        }
        Ok(s)
    }
}

/// An inbound call rendered for storage.
#[derive(Clone, Debug)]
pub struct SerializedExecute {
    pub slot: u64,
    pub addr_message: SerializedAddressedMessage,
    pub account_proof: Vec<String>,
    pub storage_proof: Vec<String>,
}

pub struct SpecSerializedExecute {
    pub slot: u64,
    pub addr_message: SpecSerializedAddressedMessage,
    pub account_proof: Seq<Seq<char>>,
    pub storage_proof: Seq<Seq<char>>,
}

impl View for SerializedExecute {
    type V = SpecSerializedExecute;

    open spec fn view(&self) -> SpecSerializedExecute {
        SpecSerializedExecute {
            slot: self.slot,
            addr_message: self.addr_message@,
            account_proof: self.account_proof.deep_view(),
            storage_proof: self.storage_proof.deep_view(),
        }
    }
}

pub open spec fn spec_serialize_execute(e: SpecExecute) -> SpecSerializedExecute {
    SpecSerializedExecute {
        slot: e.slot,
        addr_message: spec_serialize_addressed(e.addr_message),
        account_proof: e.account_proof.map_values(|b: Seq<u8>| spec_hex_prefixed(b)),
        storage_proof: e.storage_proof.map_values(|b: Seq<u8>| spec_hex_prefixed(b)),
    }
}

fn hex_proof_items(items: &Vec<Vec<u8>>) -> (r: Vec<String>)
    ensures
        r.deep_view() == items.deep_view().map_values(|b: Seq<u8>| spec_hex_prefixed(b)),
{
    let mut r: Vec<String> = Vec::new();
    let n = items.len();
    for i in 0..n
        invariant
            n == items@.len(),
            r@.len() == i,
            forall|j: int| 0 <= j < i ==> r@[j]@ == spec_hex_prefixed(items@[j]@),
    {
        r.push(encode_prefixed(items[i].as_slice()));
    }
    proof {
        let mapped = items.deep_view().map_values(|b: Seq<u8>| spec_hex_prefixed(b));
        assert forall|j: int| 0 <= j < n implies r.deep_view()[j] == mapped[j] by {
            assert(items@[j].deep_view() =~= items@[j]@);
            assert(r.deep_view()[j] == r@[j]@);
        }
        assert(r.deep_view() =~= mapped);
    }
    r
}

impl SerializedExecute {
    pub fn from_execute(e: &Execute) -> (r: Self)
        ensures
            r@ == spec_serialize_execute(e@),
    {
        SerializedExecute {
            slot: e.slot,
            addr_message: SerializedAddressedMessage::from_addressed(&e.addr_message),
            account_proof: hex_proof_items(&e.account_proof),
            storage_proof: hex_proof_items(&e.storage_proof),
        }
    }

    /// The JSON text stored in `ext_call` for an inbound call.
    pub fn to_json(&self) -> (r: Result<String, String>)
        ensures
            r matches Ok(s) && s@ == spec_json_execute(self@),
    {
        let mut s = String::new();
        s.append("{\"slot\":");
        let slot = u64_to_dec(self.slot);
        s.append(slot.as_str());
        s.append(",\"addr_message\":");
        let am = json_addressed(&self.addr_message);
        s.append(am.as_str());
        s.append(",\"account_proof\":");
        let ap = json_string_array(&self.account_proof);
        s.append(ap.as_str());
        s.append(",\"storage_proof\":");
        let sp = json_string_array(&self.storage_proof);
        s.append(sp.as_str());
        s.append("}");
        proof {
            assert(s@ =~= spec_json_execute(self@));
        }
        Ok(s)
    }
}

/// The JSON rendering of a stored message: a tagged object.
pub open spec fn spec_json_message(m: SpecSerializedMessage) -> Seq<char> {
    match m {
        SpecSerializedMessage::ArbitraryMessage(s) => {
            "{\"ArbitraryMessage\":\""@ + s + "\"}"@
        },
        SpecSerializedMessage::FungibleToken { asset_id, amount } => {
            "{\"FungibleToken\":{\"asset_id\":\""@ + spec_hex_prefixed(asset_id)
                + "\",\"amount\":"@ + spec_dec(amount as nat) + "}}"@
        },
    }
}

fn json_message(m: &SerializedMessage) -> (r: String)
    ensures
        r@ == spec_json_message(m@),
{
    let mut s = String::new();
    match m {
        SerializedMessage::ArbitraryMessage(text) => {
            s.append("{\"ArbitraryMessage\":\"");
            s.append(text.as_str());
            s.append("\"}");
        },
        SerializedMessage::FungibleToken { asset_id, amount } => {
            s.append("{\"FungibleToken\":{\"asset_id\":\"");
            let hexed = encode_prefixed(asset_id.bytes.as_slice());
            s.append(hexed.as_str());
            s.append("\",\"amount\":");
            let dec = u128_to_dec(*amount);
            s.append(dec.as_str());
            s.append("}}");
        },
    }
    proof {
        assert(s@ =~= spec_json_message(m@));
    }
    s
}

/// The JSON rendering of a stored outbound call.
pub open spec fn spec_json_send_message(s: SpecSerializedSendMessage) -> Seq<char> {
    "{\"message\":"@ + spec_json_message(s.message) + ",\"to\":\""@ + spec_hex_prefixed(s.to)
        + "\",\"domain\":"@ + spec_dec(s.domain as nat) + "}"@
}

/// The JSON rendering of a stored addressed message.
pub open spec fn spec_json_addressed(a: SpecSerializedAddressedMessage) -> Seq<char> {
    "{\"message\":"@ + spec_json_message(a.message) + ",\"from\":\""@ + spec_hex_prefixed(a.from)
        + "\",\"to\":\""@ + spec_hex_prefixed(a.to) + "\",\"origin_domain\":"@ + spec_dec(
        a.origin_domain as nat,
    ) + ",\"destination_domain\":"@ + spec_dec(a.destination_domain as nat) + ",\"id\":"@
        + spec_dec(a.id as nat) + "}"@
}

fn json_addressed(a: &SerializedAddressedMessage) -> (r: String)
    ensures
        r@ == spec_json_addressed(a@),
{
    let mut s = String::new();
    s.append("{\"message\":");
    let m = json_message(&a.message);
    s.append(m.as_str());
    s.append(",\"from\":\"");
    let from = encode_prefixed(a.from.bytes.as_slice());
    s.append(from.as_str());
    s.append("\",\"to\":\"");
    let to = encode_prefixed(a.to.bytes.as_slice());
    s.append(to.as_str());
    s.append("\",\"origin_domain\":");
    let od = u32_to_dec(a.origin_domain);
    s.append(od.as_str());
    s.append(",\"destination_domain\":");
    let dd = u32_to_dec(a.destination_domain);
    s.append(dd.as_str());
    s.append(",\"id\":");
    let id = u64_to_dec(a.id);
    s.append(id.as_str());
    s.append("}");
    proof {
        assert(s@ =~= spec_json_addressed(a@));
    }
    s
}

/// The items of a JSON array of strings, comma separated, each quoted.
pub open spec fn spec_json_string_items(items: Seq<Seq<char>>) -> Seq<char>
    decreases items.len(),
{
    if items.len() == 0 {
        Seq::<char>::empty()
    } else if items.len() == 1 {
        "\""@ + items[0] + "\""@
    } else {
        spec_json_string_items(items.drop_last()) + ",\""@ + items.last() + "\""@
    }
}

/// The JSON rendering of an array of strings.
pub open spec fn spec_json_string_array(items: Seq<Seq<char>>) -> Seq<char> {
    "["@ + spec_json_string_items(items) + "]"@
}

/// The JSON rendering of a stored inbound call.
pub open spec fn spec_json_execute(e: SpecSerializedExecute) -> Seq<char> {
    "{\"slot\":"@ + spec_dec(e.slot as nat) + ",\"addr_message\":"@ + spec_json_addressed(
        e.addr_message,
    ) + ",\"account_proof\":"@ + spec_json_string_array(e.account_proof) + ",\"storage_proof\":"@
        + spec_json_string_array(e.storage_proof) + "}"@
}

fn json_string_array(items: &Vec<String>) -> (r: String)
    ensures
        r@ == spec_json_string_array(items.deep_view()),
{
    let mut s = String::new();
    s.append("[");
    let n = items.len();
    for i in 0..n
        invariant
            n == items@.len(),
            s@ == "["@ + spec_json_string_items(items.deep_view().subrange(0, i as int)),
    {
        if i == 0 {
            s.append("\"");
        } else {
            s.append(",\"");
        }
        s.append(items[i].as_str());
        s.append("\"");
        proof {
            let pre = items.deep_view().subrange(0, i as int);
            let cur = items.deep_view().subrange(0, i + 1);
            assert(cur.drop_last() =~= pre);
            assert(cur.last() == items@[i as int]@);
            if i == 0 {
                assert(cur[0] == items@[0]@);
                assert(s@ =~= "["@ + spec_json_string_items(cur));
            } else {
                assert(s@ =~= "["@ + spec_json_string_items(cur));
            }
        }
    }
    s.append("]");
    proof {
        assert(items.deep_view().subrange(0, n as int) =~= items.deep_view());
        assert(s@ =~= spec_json_string_array(items.deep_view()));
    }
    s
}

} // verus!
