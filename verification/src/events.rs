use vstd::prelude::*;
use vstd::string::StringExecFns;
use crate::numerals::{dec_str_of, u128_to_dec, u64_to_dec};
use crate::state::AccountKey;

verus! {

/// A mint notification: which token, to whom, how much.
pub struct MintEvent {
    pub token_id: u128,
    pub recipient: AccountKey,
    pub amount: u128,
}

/// A publish-request notification, both ids already rendered in decimal.
pub struct PublishRequestEvent {
    pub request_id: String,
    pub token_id: String,
}

/// An approval notification, the id already rendered in decimal.
pub struct ApproveEvent {
    pub request_id: String,
}

/// A disapproval notification, the id already rendered in decimal.
pub struct DisapproveEvent {
    pub request_id: String,
}

/// The closed set of notifications the marketplace emits.  Consumers
/// outside parse the rendering, so the field names and their order are
/// part of the contract.
pub enum DroplinkedEventData {
    Mint(MintEvent),
    PublishRequest(PublishRequestEvent),
    Approve(ApproveEvent),
    Disapprove(DisapproveEvent),
}

/// The JSON rendering of a notification record.
pub open spec fn event_json_of(e: DroplinkedEventData) -> Seq<char> {
    match e {
        DroplinkedEventData::Mint(m) => "{\"event_kind\":\"Mint\",\"token_id\":\""@ + dec_str_of(
            m.token_id as int,
        ) + "\",\"recipient\":\""@ + dec_str_of(m.recipient as int) + "\",\"amount\":\""@
            + dec_str_of(m.amount as int) + "\"}"@,
        DroplinkedEventData::PublishRequest(p) => "{\"event_kind\":\"PublishRequest\",\"token_id\":\""@
            + p.token_id@ + "\",\"request_id\":\""@ + p.request_id@ + "\"}"@,
        DroplinkedEventData::Approve(a) => "{\"event_kind\":\"Approve\",\"request_id\":\""@
            + a.request_id@ + "\"}"@,
        DroplinkedEventData::Disapprove(d) => "{\"event_kind\":\"Disapprove\",\"request_id\":\""@
            + d.request_id@ + "\"}"@,
    }
}

impl DroplinkedEventData {
    /// Renders the notification; the host appends the text to its event
    /// log as is.
    pub fn to_json(&self) -> (s: String)
        ensures
            s@ == event_json_of(*self),
    {
        match self {
            DroplinkedEventData::Mint(m) => {
                let mut s = String::from_str("{\"event_kind\":\"Mint\",\"token_id\":\"");
                let t = u128_to_dec(m.token_id);
                s.append(t.as_str());
                s.append("\",\"recipient\":\"");
                let rcp = u64_to_dec(m.recipient);
                s.append(rcp.as_str());
                s.append("\",\"amount\":\"");
                let a = u128_to_dec(m.amount);
                s.append(a.as_str());
                s.append("\"}");
                s
            },
            DroplinkedEventData::PublishRequest(p) => {
                let mut s = String::from_str("{\"event_kind\":\"PublishRequest\",\"token_id\":\"");
                s.append(p.token_id.as_str());
                s.append("\",\"request_id\":\"");
                s.append(p.request_id.as_str());
                s.append("\"}");
                s
            },
            DroplinkedEventData::Approve(a) => {
                let mut s = String::from_str("{\"event_kind\":\"Approve\",\"request_id\":\"");
                s.append(a.request_id.as_str());
                s.append("\"}");
                s
            },
            DroplinkedEventData::Disapprove(d) => {
                let mut s = String::from_str("{\"event_kind\":\"Disapprove\",\"request_id\":\"");
                s.append(d.request_id.as_str());
                s.append("\"}");
                s
            },
        }
    }
}

} // verus!
