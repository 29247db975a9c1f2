//! The structured wire vocabulary of the coordinator: events a client can
//! send, messages a session hands to the hub, and the frames the hub fans
//! out. The transport layer encodes these to and from JSON text unchanged.

use vstd::prelude::*;

use crate::room::{Role, RoomId, SessionHandle};

verus! {

/// One inbound client event, already decoded from its text frame. Unknown
/// `type` values decode to `Unknown` and are silently dropped, since the wire
/// format is intentionally forward-compatible.
pub enum ClientEvent {
    Chat { text: String },
    System { text: String },
    /// Full item-set announcement, forwarded as an opaque JSON payload.
    OfferItems { raw: String },
    OfferLog { raw: String },
    ItemAsking { raw: String },
    /// Claims an offer id for this room.
    SetOffer { offer_id: String },
    SendOffer,
    AcceptOffer,
    PaidOffer,
    ClearOffer,
    OfferStepConnecting,
    OfferStepAccepting,
    OfferStepPaying,
    Unknown,
}

/// One message from a session (or the payment collaborator) to the hub.
pub enum HubMsg {
    Join { room: RoomId, handle: SessionHandle, role: Role },
    Leave { room: RoomId, handle: SessionHandle },
    Broadcast { room: RoomId, msg_type: String, from_role: String, text: String },
    OfferState {
        room: RoomId,
        msg_type: String,
        offer_id: Option<String>,
        offer_accepted: bool,
        offer_dirty: bool,
        offer_paid: bool,
        offer_send: bool,
    },
    OfferStep { room: RoomId, msg_type: String, from_role: String, step_type: String, text: String },
    PaymentSucceeded { room: RoomId, offer_id: String },
}

/// One frame the hub issues to a session's outbound stream.
pub enum OutboundMessage {
    Presence { count: usize, buyer_present: bool, trader_present: bool, offer_id: Option<String> },
    Text { msg_type: String, from_role: String, offer_id: Option<String>, text: String },
    OfferItems { from_role: String, offer_id: Option<String>, items: String },
    OfferState {
        msg_type: String,
        offer_id: Option<String>,
        offer_dirty: bool,
        offer_send: bool,
        offer_accepted: bool,
        offer_paid: bool,
    },
    OfferStep { msg_type: String, from_role: String, offer_id: Option<String>, step: String, text: String },
}

/// One send the hub asks the transport to perform, best-effort.
pub struct Delivery {
    pub to: SessionHandle,
    pub msg: OutboundMessage,
}

/// Why the hub refused to fan a broadcast out.
#[derive(Clone, Copy, Debug, PartialEq, Eq, Structural)]
pub enum HubError {
    /// An `offer_items` announcement without an `items` field: malformed
    /// announcements fail loudly for that message instead of being dropped.
    MissingItems,
}

/// Why a session refused an inbound event.
#[derive(Clone, Copy, Debug, PartialEq, Eq, Structural)]
pub enum FrameError {
    /// A `set_offer` event whose offer id is empty after trimming.
    EmptyOfferId,
}

/// The label a role carries on the wire.
pub open spec fn role_label(r: Role) -> Seq<char> {
    match r {
        Role::Buyer => "buyer"@,
        Role::Trader => "trader"@,
    }
}

impl Role {
    pub fn label(self) -> (r: String)
        ensures
            r@ == role_label(self),
    {
        match self {
            Role::Buyer => "buyer".to_owned(),
            Role::Trader => "trader".to_owned(),
        }
    }
}

pub fn clone_opt_string(o: &Option<String>) -> (r: Option<String>)
    ensures
        r == *o,
{
    match o {
        Some(s) => Some(s.clone()),
        None => None,
    }
}

impl OutboundMessage {
    /// A fresh frame equal to this one, for fanning one payload out to many
    /// recipients.
    pub fn duplicate(&self) -> (r: Self)
        ensures
            r == *self,
    {
        match self {
            OutboundMessage::Presence { count, buyer_present, trader_present, offer_id } => {
                OutboundMessage::Presence {
                    count: *count,
                    buyer_present: *buyer_present,
                    trader_present: *trader_present,
                    offer_id: clone_opt_string(offer_id),
                }
            },
            OutboundMessage::Text { msg_type, from_role, offer_id, text } => {
                OutboundMessage::Text {
                    msg_type: msg_type.clone(),
                    from_role: from_role.clone(),
                    offer_id: clone_opt_string(offer_id),
                    text: text.clone(),
                }
            },
            OutboundMessage::OfferItems { from_role, offer_id, items } => {
                OutboundMessage::OfferItems {
                    from_role: from_role.clone(),
                    offer_id: clone_opt_string(offer_id),
                    items: items.clone(),
                }
            },
            OutboundMessage::OfferState {
                msg_type,
                offer_id,
                offer_dirty,
                offer_send,
                offer_accepted,
                offer_paid,
            } => {
                OutboundMessage::OfferState {
                    msg_type: msg_type.clone(),
                    offer_id: clone_opt_string(offer_id),
                    offer_dirty: *offer_dirty,
                    offer_send: *offer_send,
                    offer_accepted: *offer_accepted,
                    offer_paid: *offer_paid,
                }
            },
            OutboundMessage::OfferStep { msg_type, from_role, offer_id, step, text } => {
                OutboundMessage::OfferStep {
                    msg_type: msg_type.clone(),
                    from_role: from_role.clone(),
                    offer_id: clone_opt_string(offer_id),
                    step: step.clone(),
                    text: text.clone(),
                }
            },
        }
    }
}

} // verus!
