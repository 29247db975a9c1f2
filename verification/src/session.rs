//! One connection session: carries a room identity and a role, caches the
//! last known offer id, and turns each inbound client event into the
//! messages to hand the hub — returning at once, without ever blocking.

use vstd::prelude::*;

use crate::messages::{role_label, ClientEvent, FrameError, HubMsg};
use crate::room::{Role, RoomId, SessionHandle};
use crate::wire::trim_of;
use crate::wire::trim_text;

verus! {

/// Why a connection request was refused before a session existed.
#[derive(Clone, Copy, Debug, PartialEq, Eq, Structural)]
pub enum ConnectError {
    /// The buyer or trader id of the requested room is empty after trimming.
    EmptyId,
}

/// The state one live connection keeps: its room, its role, and a cached
/// `offer_id` echoed back on send/accept/paid/clear events so those need no
/// round-trip read of room state.
pub struct WsSession {
    pub room: RoomId,
    pub offer_id: Option<String>,
    pub role: Role,
}

/// The view of an optional offer id.
pub open spec fn view_opt(o: Option<String>) -> Option<Seq<char>> {
    match o {
        Some(s) => Some(s@),
        None => None,
    }
}

/// `m` is a broadcast of `msg_type`/`from_role`/`text` for the room viewed
/// as `room`.
pub open spec fn is_broadcast(
    m: HubMsg,
    room: (Seq<char>, Seq<char>),
    msg_type: Seq<char>,
    from_role: Seq<char>,
    text: Seq<char>,
) -> bool {
    m matches HubMsg::Broadcast { room: r, msg_type: t, from_role: f, text: x } && r@ == room
        && t@ == msg_type && f@ == from_role && x@ == text
}

/// `m` is an offer-state mutation of the room viewed as `room`.
pub open spec fn is_offer_state(
    m: HubMsg,
    room: (Seq<char>, Seq<char>),
    msg_type: Seq<char>,
    offer_id: Option<Seq<char>>,
    accepted: bool,
    dirty: bool,
    paid: bool,
    send: bool,
) -> bool {
    m matches HubMsg::OfferState {
        room: r,
        msg_type: t,
        offer_id: o,
        offer_accepted: a,
        offer_dirty: d,
        offer_paid: p,
        offer_send: s,
    } && r@ == room && t@ == msg_type && view_opt(o) == offer_id && a == accepted && d == dirty
        && p == paid && s == send
}

/// `m` is a progress ping for the room viewed as `room`.
pub open spec fn is_offer_step(
    m: HubMsg,
    room: (Seq<char>, Seq<char>),
    from_role: Seq<char>,
    step_type: Seq<char>,
    text: Seq<char>,
) -> bool {
    m matches HubMsg::OfferStep { room: r, msg_type: t, from_role: f, step_type: s, text: x }
        && r@ == room && t@ == "offer_step"@ && f@ == from_role && s@ == step_type && x@ == text
}

/// Builds the session for a connection request, defaulting any role other
/// than "trader" to buyer. A request whose buyer or trader id is empty
/// after trimming is refused; an accepted request keeps the ids exactly as
/// given as the room identity.
pub fn session_params(buyer: String, trader: String, role: Option<String>) -> (r: Result<
    WsSession,
    ConnectError,
>)
    ensures
        r is Err <==> trim_of(buyer@).len() == 0 || trim_of(trader@).len() == 0,
        r is Err ==> (r matches Err(ConnectError::EmptyId)),
        r is Ok ==> {
            let s = r.unwrap();
            &&& s.room@ == (buyer@, trader@)
            &&& s.offer_id is None
            &&& s.role == (if role matches Some(l) && l@ == "trader"@ {
                Role::Trader
            } else {
                Role::Buyer
            })
        },
{
    let buyer_trimmed = trim_text(buyer.as_str());
    let trader_trimmed = trim_text(trader.as_str());
    if buyer_trimmed.as_str().is_empty() || trader_trimmed.as_str().is_empty() {
        return Err(ConnectError::EmptyId);
    }
    let role = match role {
        Some(label) => {
            if label == "trader".to_owned() {
                Role::Trader
            } else {
                Role::Buyer
            }
        },
        None => Role::Buyer,
    };
    Ok(WsSession { room: RoomId::new(buyer, trader), offer_id: None, role })
}

impl WsSession {
    /// The join notice the transport sends the hub right after the stream
    /// opens.
    pub fn started(&self, handle: SessionHandle) -> (m: HubMsg)
        ensures
            m matches HubMsg::Join { room, handle: h, role } && room@ == self.room@ && h == handle
                && role == self.role,
    {
        HubMsg::Join { room: self.room.duplicate(), handle, role: self.role }
    }

    /// The departure notice the transport must deliver on any disconnect,
    /// orderly or abrupt, before releasing the session.
    pub fn stopped(&self, handle: SessionHandle) -> (m: HubMsg)
        ensures
            m matches HubMsg::Leave { room, handle: h } && room@ == self.room@ && h == handle,
    {
        HubMsg::Leave { room: self.room.duplicate(), handle }
    }

    /// Dispatches one inbound client event: updates the cached offer id where
    /// the event claims or clears one, and returns the hub messages to send,
    /// in order. Unknown events and chat with blank text produce nothing.
    ///
    /// A `set_offer` whose id is blank after trimming is refused instead of
    /// claimed; the session state is then left untouched.
    pub fn handle(&mut self, event: ClientEvent) -> (r: Result<Vec<HubMsg>, FrameError>)
        ensures
            final(self).room@ == old(self).room@,
            final(self).role == old(self).role,
            match event {
                ClientEvent::Chat { text } => {
                    &&& final(self).offer_id == old(self).offer_id
                    &&& r matches Ok(msgs)
                    &&& if trim_of(text@).len() == 0 {
                        r.unwrap()@.len() == 0
                    } else {
                        r.unwrap()@.len() == 1 && is_broadcast(
                            r.unwrap()@[0],
                            old(self).room@,
                            "chat"@,
                            role_label(old(self).role),
                            trim_of(text@),
                        )
                    }
                },
                ClientEvent::System { text } => {
                    &&& final(self).offer_id == old(self).offer_id
                    &&& r is Ok
                    &&& if trim_of(text@).len() == 0 {
                        r.unwrap()@.len() == 0
                    } else {
                        r.unwrap()@.len() == 1 && is_broadcast(
                            r.unwrap()@[0],
                            old(self).room@,
                            "system"@,
                            role_label(old(self).role),
                            trim_of(text@),
                        )
                    }
                },
                ClientEvent::OfferItems { raw } => {
                    &&& final(self).offer_id == old(self).offer_id
                    &&& r is Ok
                    &&& r.unwrap()@.len() == 1
                    &&& is_broadcast(
                        r.unwrap()@[0],
                        old(self).room@,
                        "offer_items"@,
                        role_label(old(self).role),
                        raw@,
                    )
                },
                ClientEvent::OfferLog { raw } => {
                    &&& final(self).offer_id == old(self).offer_id
                    &&& r is Ok
                    &&& r.unwrap()@.len() == 1
                    &&& is_broadcast(
                        r.unwrap()@[0],
                        old(self).room@,
                        "offer_log"@,
                        role_label(old(self).role),
                        raw@,
                    )
                },
                ClientEvent::ItemAsking { raw } => {
                    &&& final(self).offer_id == old(self).offer_id
                    &&& r is Ok
                    &&& r.unwrap()@.len() == 1
                    &&& is_broadcast(
                        r.unwrap()@[0],
                        old(self).room@,
                        "item_asking"@,
                        role_label(old(self).role),
                        raw@,
                    )
                },
                ClientEvent::SetOffer { offer_id } => {
                    if trim_of(offer_id@).len() == 0 {
                        &&& r matches Err(FrameError::EmptyOfferId)
                        &&& final(self).offer_id == old(self).offer_id
                    } else {
                        &&& r is Ok
                        &&& view_opt(final(self).offer_id) == Some(trim_of(offer_id@))
                        &&& r.unwrap()@.len() == 2
                        &&& is_broadcast(
                            r.unwrap()@[0],
                            old(self).room@,
                            "offer_system"@,
                            role_label(old(self).role),
                            trim_of(offer_id@),
                        )
                        &&& is_offer_state(
                            r.unwrap()@[1],
                            old(self).room@,
                            "set_offer"@,
                            Some(trim_of(offer_id@)),
                            false,
                            true,
                            false,
                            false,
                        )
                    }
                },
                ClientEvent::SendOffer => {
                    &&& final(self).offer_id == old(self).offer_id
                    &&& r is Ok
                    &&& r.unwrap()@.len() == 1
                    &&& is_offer_state(
                        r.unwrap()@[0],
                        old(self).room@,
                        "send_offer"@,
                        view_opt(old(self).offer_id),
                        false,
                        false,
                        false,
                        true,
                    )
                },
                ClientEvent::AcceptOffer => {
                    &&& final(self).offer_id == old(self).offer_id
                    &&& r is Ok
                    &&& r.unwrap()@.len() == 1
                    &&& is_offer_state(
                        r.unwrap()@[0],
                        old(self).room@,
                        "accept_offer"@,
                        view_opt(old(self).offer_id),
                        true,
                        false,
                        false,
                        true,
                    )
                },
                ClientEvent::PaidOffer => {
                    &&& final(self).offer_id == old(self).offer_id
                    &&& r is Ok
                    &&& r.unwrap()@.len() == 3
                    &&& is_offer_state(
                        r.unwrap()@[0],
                        old(self).room@,
                        "paid_offer"@,
                        view_opt(old(self).offer_id),
                        true,
                        false,
                        true,
                        true,
                    )
                    &&& is_broadcast(
                        r.unwrap()@[1],
                        old(self).room@,
                        "system"@,
                        role_label(old(self).role),
                        "Offer successfully paid"@,
                    )
                    &&& is_broadcast(
                        r.unwrap()@[2],
                        old(self).room@,
                        "reveal_send_offer"@,
                        role_label(old(self).role),
                        "Trader is sending offer"@,
                    )
                },
                ClientEvent::ClearOffer => {
                    &&& final(self).offer_id is None
                    &&& r is Ok
                    &&& r.unwrap()@.len() == 1
                    &&& is_offer_state(
                        r.unwrap()@[0],
                        old(self).room@,
                        "clear_offer"@,
                        None,
                        false,
                        false,
                        false,
                        false,
                    )
                },
                ClientEvent::OfferStepConnecting => {
                    &&& final(self).offer_id == old(self).offer_id
                    &&& r is Ok
                    &&& r.unwrap()@.len() == 1
                    &&& is_offer_step(
                        r.unwrap()@[0],
                        old(self).room@,
                        role_label(old(self).role),
                        "connect"@,
                        "Offer stage"@,
                    )
                },
                ClientEvent::OfferStepAccepting => {
                    &&& final(self).offer_id == old(self).offer_id
                    &&& r is Ok
                    &&& r.unwrap()@.len() == 1
                    &&& is_offer_step(
                        r.unwrap()@[0],
                        old(self).room@,
                        role_label(old(self).role),
                        "accept"@,
                        "Accepted"@,
                    )
                },
                ClientEvent::OfferStepPaying => {
                    &&& final(self).offer_id == old(self).offer_id
                    &&& r is Ok
                    &&& r.unwrap()@.len() == 1
                    &&& is_offer_step(
                        r.unwrap()@[0],
                        old(self).room@,
                        role_label(old(self).role),
                        "pay"@,
                        "Buyer is paying for offer"@,
                    )
                },
                ClientEvent::Unknown => {
                    &&& final(self).offer_id == old(self).offer_id
                    &&& r is Ok
                    &&& r.unwrap()@.len() == 0
                },
            },
    {
        let mut msgs: Vec<HubMsg> = Vec::new();
        match event {
            ClientEvent::Chat { text } => {
                let body = trim_text(text.as_str());
                if body.as_str().is_empty() {
                    return Ok(msgs);
                }
                msgs.push(HubMsg::Broadcast {
                    room: self.room.duplicate(),
                    msg_type: "chat".to_owned(),
                    from_role: self.role.label(),
                    text: body,
                });
            },
            ClientEvent::System { text } => {
                let body = trim_text(text.as_str());
                if body.as_str().is_empty() {
                    return Ok(msgs);
                }
                msgs.push(HubMsg::Broadcast {
                    room: self.room.duplicate(),
                    msg_type: "system".to_owned(),
                    from_role: self.role.label(),
                    text: body,
                });
            },
            ClientEvent::OfferItems { raw } => {
                msgs.push(HubMsg::Broadcast {
                    room: self.room.duplicate(),
                    msg_type: "offer_items".to_owned(),
                    from_role: self.role.label(),
                    text: raw,
                });
            },
            ClientEvent::OfferLog { raw } => {
                msgs.push(HubMsg::Broadcast {
                    room: self.room.duplicate(),
                    msg_type: "offer_log".to_owned(),
                    from_role: self.role.label(),
                    text: raw,
                });
            },
            ClientEvent::ItemAsking { raw } => {
                msgs.push(HubMsg::Broadcast {
                    room: self.room.duplicate(),
                    msg_type: "item_asking".to_owned(),
                    from_role: self.role.label(),
                    text: raw,
                });
            },
            ClientEvent::SetOffer { offer_id } => {
                let id = trim_text(offer_id.as_str());
                if id.as_str().is_empty() {
                    return Err(FrameError::EmptyOfferId);
                }
                self.offer_id = Some(id.clone());
                msgs.push(HubMsg::Broadcast {
                    room: self.room.duplicate(),
                    msg_type: "offer_system".to_owned(),
                    from_role: self.role.label(),
                    text: id.clone(),
                });
                msgs.push(HubMsg::OfferState {
                    room: self.room.duplicate(),
                    msg_type: "set_offer".to_owned(),
                    offer_id: Some(id),
                    offer_accepted: false,
                    offer_dirty: true,
                    offer_paid: false,
                    offer_send: false,
                });
            },
            ClientEvent::SendOffer => {
                msgs.push(HubMsg::OfferState {
                    room: self.room.duplicate(),
                    msg_type: "send_offer".to_owned(),
                    offer_id: crate::messages::clone_opt_string(&self.offer_id),
                    offer_accepted: false,
                    offer_dirty: false,
                    offer_paid: false,
                    offer_send: true,
                });
            },
            ClientEvent::AcceptOffer => {
                msgs.push(HubMsg::OfferState {
                    room: self.room.duplicate(),
                    msg_type: "accept_offer".to_owned(),
                    offer_id: crate::messages::clone_opt_string(&self.offer_id),
                    offer_accepted: true,
                    offer_dirty: false,
                    offer_paid: false,
                    offer_send: true,
                });
            },
            ClientEvent::PaidOffer => {
                msgs.push(HubMsg::OfferState {
                    room: self.room.duplicate(),
                    msg_type: "paid_offer".to_owned(),
                    offer_id: crate::messages::clone_opt_string(&self.offer_id),
                    offer_accepted: true,
                    offer_dirty: false,
                    offer_paid: true,
                    offer_send: true,
                });
                msgs.push(HubMsg::Broadcast {
                    room: self.room.duplicate(),
                    msg_type: "system".to_owned(),
                    from_role: self.role.label(),
                    text: "Offer successfully paid".to_owned(),
                });
                msgs.push(HubMsg::Broadcast {
                    room: self.room.duplicate(),
                    msg_type: "reveal_send_offer".to_owned(),
                    from_role: self.role.label(),
                    text: "Trader is sending offer".to_owned(),
                });
            },
            ClientEvent::ClearOffer => {
                self.offer_id = None;
                msgs.push(HubMsg::OfferState {
                    room: self.room.duplicate(),
                    msg_type: "clear_offer".to_owned(),
                    offer_id: None,
                    offer_accepted: false,
                    offer_dirty: false,
                    offer_paid: false,
                    offer_send: false,
                });
            },
            ClientEvent::OfferStepConnecting => {
                msgs.push(HubMsg::OfferStep {
                    room: self.room.duplicate(),
                    msg_type: "offer_step".to_owned(),
                    from_role: self.role.label(),
                    step_type: "connect".to_owned(),
                    text: "Offer stage".to_owned(),
                });
            },
            ClientEvent::OfferStepAccepting => {
                msgs.push(HubMsg::OfferStep {
                    room: self.room.duplicate(),
                    msg_type: "offer_step".to_owned(),
                    from_role: self.role.label(),
                    step_type: "accept".to_owned(),
                    text: "Accepted".to_owned(),
                });
            },
            ClientEvent::OfferStepPaying => {
                msgs.push(HubMsg::OfferStep {
                    room: self.room.duplicate(),
                    msg_type: "offer_step".to_owned(),
                    from_role: self.role.label(),
                    step_type: "pay".to_owned(),
                    text: "Buyer is paying for offer".to_owned(),
                });
            },
            ClientEvent::Unknown => {},
        }
        Ok(msgs)
    }
}

} // verus!
