//! The room registry: single owner of all room state. Every membership or
//! offer-id mutation happens through one of its operations, and each
//! operation returns the exact sequence of best-effort sends the transport
//! must perform, in order.

use vstd::prelude::*;

use crate::messages::{Delivery, HubError, HubMsg, OutboundMessage};
use crate::room::{Role, RoomId, RoomState, SessionHandle};
use crate::session::view_opt;
use crate::wire::{extract_items_field, items_field};

verus! {

/// The registry of live rooms. A room is present exactly while it has at
/// least one connected client.
pub struct ChatHub {
    pub rooms: Vec<(RoomId, RoomState)>,
}

impl ChatHub {
    /// Rooms have pairwise distinct identities, every room is internally
    /// well formed, and no room is empty.
    pub open spec fn wf(self) -> bool {
        &&& forall|i: int, j: int|
            0 <= i < self.rooms@.len() && 0 <= j < self.rooms@.len() && i != j
                ==> (#[trigger] self.rooms@[i]).0@ != (#[trigger] self.rooms@[j]).0@
        &&& forall|i: int|
            0 <= i < self.rooms@.len() ==> (#[trigger] self.rooms@[i]).1.wf()
                && self.rooms@[i].1.clients@.len() > 0
    }

    pub open spec fn has_room(self, rid: (Seq<char>, Seq<char>)) -> bool {
        exists|i: int| 0 <= i < self.rooms@.len() && (#[trigger] self.rooms@[i]).0@ == rid
    }

    /// The index of the room named `rid`, meaningful when `has_room(rid)`.
    pub open spec fn room_index(self, rid: (Seq<char>, Seq<char>)) -> int {
        choose|i: int| 0 <= i < self.rooms@.len() && (#[trigger] self.rooms@[i]).0@ == rid
    }

    pub open spec fn room_state(self, rid: (Seq<char>, Seq<char>)) -> RoomState {
        self.rooms@[self.room_index(rid)].1
    }

    /// In a well-formed hub the index of a room is determined by its
    /// identity.
    pub proof fn lemma_room_index(self, rid: (Seq<char>, Seq<char>), i: int)
        requires
            self.wf(),
            0 <= i < self.rooms@.len(),
            self.rooms@[i].0@ == rid,
        ensures
            self.has_room(rid),
            self.room_index(rid) == i,
    {
        assert(self.has_room(rid));
        let j = self.room_index(rid);
        assert(self.rooms@[j].0@ == rid);
        if i != j {
            assert(self.rooms@[i].0@ != self.rooms@[j].0@);
        }
    }

    pub fn new() -> (r: Self)
        ensures
            r.wf(),
            r.rooms@.len() == 0,
    {
        ChatHub { rooms: Vec::new() }
    }

    /// The position of the room `room` names, if it is live.
    fn find_room(&self, room: &RoomId) -> (r: Option<usize>)
        requires
            self.wf(),
        ensures
            r is Some <==> self.has_room(room@),
            r is Some ==> {
                let i = r.unwrap() as int;
                &&& 0 <= i < self.rooms@.len()
                &&& self.rooms@[i].0@ == room@
                &&& i == self.room_index(room@)
            },
    {
        let n = self.rooms.len();
        let mut i: usize = 0;
        while i < n
            invariant
                self.wf(),
                n == self.rooms@.len(),
                0 <= i <= n,
                forall|k: int| 0 <= k < i ==> (#[trigger] self.rooms@[k]).0@ != room@,
            decreases n - i,
        {
            if self.rooms[i].0 == *room {
                proof {
                    self.lemma_room_index(room@, i as int);
                }
                return Some(i);
            }
            i = i + 1;
        }
        assert(!self.has_room(room@));
        None
    }
}

/// `m` is the presence frame of `state`: its `count` equals the live size of
/// the client map, and the role flags report whether any buyer or trader is
/// connected.
pub open spec fn is_presence_msg(m: OutboundMessage, state: RoomState) -> bool {
    m matches OutboundMessage::Presence { count, buyer_present, trader_present, offer_id }
        && count == state.clients@.len() && buyer_present == state.buyer_present()
        && trader_present == state.trader_present() && view_opt(offer_id) == view_opt(
        state.offer_id,
    )
}

/// `ds` delivers `m` to every client of `state`, in membership order.
pub open spec fn is_fanout(ds: Seq<Delivery>, state: RoomState, m: OutboundMessage) -> bool {
    &&& ds.len() == state.clients@.len()
    &&& forall|i: int|
        0 <= i < ds.len() ==> (#[trigger] ds[i]).to == state.clients@[i].0 && ds[i].msg == m
}

/// `ds` delivers the presence frame of `state` to every client of `state`.
pub open spec fn is_presence_fanout(ds: Seq<Delivery>, state: RoomState) -> bool {
    &&& ds.len() == state.clients@.len()
    &&& forall|i: int|
        0 <= i < ds.len() ==> (#[trigger] ds[i]).to == state.clients@[i].0 && is_presence_msg(
            ds[i].msg,
            state,
        )
}

/// One copy of `msg` for every client of `state`, in membership order.
pub fn fan_out(state: &RoomState, msg: &OutboundMessage) -> (r: Vec<Delivery>)
    ensures
        is_fanout(r@, *state, *msg),
{
    let n = state.clients.len();
    let mut r: Vec<Delivery> = Vec::new();
    let mut i: usize = 0;
    while i < n
        invariant
            n == state.clients@.len(),
            0 <= i <= n,
            r@.len() == i,
            forall|k: int|
                0 <= k < i ==> (#[trigger] r@[k]).to == state.clients@[k].0 && r@[k].msg == *msg,
        decreases n - i,
    {
        r.push(Delivery { to: state.clients[i].0, msg: msg.duplicate() });
        i = i + 1;
    }
    r
}

/// The presence frame of `state`.
pub fn presence_message(state: &RoomState) -> (m: OutboundMessage)
    ensures
        is_presence_msg(m, *state),
{
    let n = state.clients.len();
    let mut buyer_present = false;
    let mut trader_present = false;
    let mut i: usize = 0;
    while i < n
        invariant
            n == state.clients@.len(),
            0 <= i <= n,
            buyer_present == exists|k: int|
                0 <= k < i && (#[trigger] state.clients@[k]).1 == Role::Buyer,
            trader_present == exists|k: int|
                0 <= k < i && (#[trigger] state.clients@[k]).1 == Role::Trader,
        decreases n - i,
    {
        if state.clients[i].1 == Role::Buyer {
            buyer_present = true;
        }
        if state.clients[i].1 == Role::Trader {
            trader_present = true;
        }
        i = i + 1;
    }
    OutboundMessage::Presence {
        count: n,
        buyer_present,
        trader_present,
        offer_id: crate::messages::clone_opt_string(&state.offer_id),
    }
}

/// `m` is the private catch-up frame a late joiner receives when the room
/// already has a claimed offer id.
pub open spec fn is_catchup_msg(m: OutboundMessage, oid: Seq<char>) -> bool {
    m matches OutboundMessage::Text { msg_type, from_role, offer_id, text } && msg_type@
        == "offer_system"@ && from_role@ == "offer_system"@ && view_opt(offer_id) == Some(oid)
        && text@ == oid
}

/// Every room other than `room` is present exactly as before and reads the
/// same state.
pub open spec fn other_rooms_unchanged(pre: ChatHub, post: ChatHub, room: (Seq<char>, Seq<char>)) -> bool {
    forall|rid: (Seq<char>, Seq<char>)|
        rid != room ==> ((post.has_room(rid) <==> pre.has_room(rid)) && (pre.has_room(rid)
            ==> post.room_state(rid) == pre.room_state(rid)))
}

/// What a join does: the handle is registered (the room is created for its
/// first client), no other room moves, and the deliveries are an optional
/// private catch-up frame to the newcomer followed by the presence fan-out.
pub open spec fn join_post(
    pre: ChatHub,
    post: ChatHub,
    room: (Seq<char>, Seq<char>),
    handle: SessionHandle,
    role: Role,
    ds: Seq<Delivery>,
) -> bool {
    &&& post.has_room(room)
    &&& ({
        let st = post.room_state(room);
        if pre.has_room(room) {
            let ost = pre.room_state(room);
            &&& st.offer_id == ost.offer_id
            &&& if ost.has_handle(handle) {
                st.clients@ == ost.clients@.update(ost.handle_index(handle), (handle, role))
            } else {
                st.clients@ == ost.clients@.push((handle, role))
            }
        } else {
            st.offer_id is None && st.clients@ == seq![(handle, role)]
        }
    })
    &&& other_rooms_unchanged(pre, post, room)
    &&& ({
        let st = post.room_state(room);
        match st.offer_id {
            Some(oid) => {
                &&& ds.len() == st.clients@.len() + 1
                &&& ds[0].to == handle
                &&& is_catchup_msg(ds[0].msg, oid@)
                &&& is_presence_fanout(ds.skip(1), st)
            },
            None => is_presence_fanout(ds, st),
        }
    })
}

/// What a leave does: the handle is removed, a room left empty is deleted
/// silently, a still-occupied room re-broadcasts its presence, and no other
/// room moves.
pub open spec fn leave_post(
    pre: ChatHub,
    post: ChatHub,
    room: (Seq<char>, Seq<char>),
    handle: SessionHandle,
    ds: Seq<Delivery>,
) -> bool {
    &&& !pre.has_room(room) ==> post.rooms@ == pre.rooms@ && ds.len() == 0
    &&& pre.has_room(room) ==> ({
        let ost = pre.room_state(room);
        if ost.has_handle(handle) {
            let remaining = ost.clients@.remove(ost.handle_index(handle));
            if remaining.len() == 0 {
                &&& !post.has_room(room)
                &&& ds.len() == 0
            } else {
                &&& post.has_room(room)
                &&& post.room_state(room).clients@ == remaining
                &&& post.room_state(room).offer_id == ost.offer_id
                &&& is_presence_fanout(ds, post.room_state(room))
            }
        } else {
            &&& post.has_room(room)
            &&& post.room_state(room).clients@ == ost.clients@
            &&& post.room_state(room).offer_id == ost.offer_id
            &&& is_presence_fanout(ds, post.room_state(room))
        }
    })
    &&& other_rooms_unchanged(pre, post, room)
}

impl ChatHub {
    /// Every room other than `rid0` reads the same after a change confined
    /// to the entry at `i`, which names `rid0` before and after.
    proof fn lemma_update_preserves_other_rooms(pre: ChatHub, post: ChatHub, i: int, rid0: (Seq<char>, Seq<char>))
        requires
            pre.wf(),
            post.wf(),
            0 <= i < pre.rooms@.len(),
            post.rooms@.len() == pre.rooms@.len(),
            forall|k: int|
                0 <= k < pre.rooms@.len() && k != i ==> post.rooms@[k] == pre.rooms@[k],
            pre.rooms@[i].0@ == rid0,
            post.rooms@[i].0@ == rid0,
        ensures
            forall|rid: (Seq<char>, Seq<char>)|
                rid != rid0 ==> ((post.has_room(rid) <==> pre.has_room(rid)) && (pre.has_room(rid)
                    ==> post.room_state(rid) == pre.room_state(rid))),
    {
        assert forall|rid: (Seq<char>, Seq<char>)| rid != rid0 implies ((post.has_room(rid)
            <==> pre.has_room(rid)) && (pre.has_room(rid) ==> post.room_state(rid)
            == pre.room_state(rid))) by {
            if pre.has_room(rid) {
                let j = pre.room_index(rid);
                assert(pre.rooms@[j].0@ == rid);
                assert(j != i);
                assert(post.rooms@[j] == pre.rooms@[j]);
                post.lemma_room_index(rid, j);
            }
            if post.has_room(rid) {
                let j = post.room_index(rid);
                assert(post.rooms@[j].0@ == rid);
                assert(j != i);
                assert(pre.rooms@[j] == post.rooms@[j]);
                pre.lemma_room_index(rid, j);
            }
        }
    }

    /// Every room other than `rid0` reads the same after the entry at `i`,
    /// which named `rid0`, was removed.
    proof fn lemma_remove_preserves_other_rooms(pre: ChatHub, post: ChatHub, i: int, rid0: (Seq<char>, Seq<char>))
        requires
            pre.wf(),
            post.wf(),
            0 <= i < pre.rooms@.len(),
            post.rooms@ == pre.rooms@.remove(i),
            pre.rooms@[i].0@ == rid0,
        ensures
            forall|rid: (Seq<char>, Seq<char>)|
                rid != rid0 ==> ((post.has_room(rid) <==> pre.has_room(rid)) && (pre.has_room(rid)
                    ==> post.room_state(rid) == pre.room_state(rid))),
    {
        assert forall|rid: (Seq<char>, Seq<char>)| rid != rid0 implies ((post.has_room(rid)
            <==> pre.has_room(rid)) && (pre.has_room(rid) ==> post.room_state(rid)
            == pre.room_state(rid))) by {
            if pre.has_room(rid) {
                let j = pre.room_index(rid);
                assert(pre.rooms@[j].0@ == rid);
                assert(j != i);
                if j < i {
                    assert(post.rooms@[j] == pre.rooms@[j]);
                    post.lemma_room_index(rid, j);
                } else {
                    assert(post.rooms@[j - 1] == pre.rooms@[j]);
                    post.lemma_room_index(rid, j - 1);
                }
            }
            if post.has_room(rid) {
                let j = post.room_index(rid);
                assert(post.rooms@[j].0@ == rid);
                if j < i {
                    assert(pre.rooms@[j] == post.rooms@[j]);
                    pre.lemma_room_index(rid, j);
                } else {
                    assert(pre.rooms@[j + 1] == post.rooms@[j]);
                    pre.lemma_room_index(rid, j + 1);
                }
            }
        }
    }

    /// Every room other than `rid0` reads the same after an entry naming
    /// `rid0` was appended.
    proof fn lemma_push_preserves_other_rooms(pre: ChatHub, post: ChatHub, rid0: (Seq<char>, Seq<char>))
        requires
            pre.wf(),
            post.wf(),
            post.rooms@.len() == pre.rooms@.len() + 1,
            forall|k: int| 0 <= k < pre.rooms@.len() ==> post.rooms@[k] == pre.rooms@[k],
            post.rooms@[pre.rooms@.len() as int].0@ == rid0,
        ensures
            forall|rid: (Seq<char>, Seq<char>)|
                rid != rid0 ==> ((post.has_room(rid) <==> pre.has_room(rid)) && (pre.has_room(rid)
                    ==> post.room_state(rid) == pre.room_state(rid))),
    {
        assert forall|rid: (Seq<char>, Seq<char>)| rid != rid0 implies ((post.has_room(rid)
            <==> pre.has_room(rid)) && (pre.has_room(rid) ==> post.room_state(rid)
            == pre.room_state(rid))) by {
            if pre.has_room(rid) {
                let j = pre.room_index(rid);
                assert(pre.rooms@[j].0@ == rid);
                assert(post.rooms@[j] == pre.rooms@[j]);
                post.lemma_room_index(rid, j);
            }
            if post.has_room(rid) {
                let j = post.room_index(rid);
                assert(post.rooms@[j].0@ == rid);
                assert(j != pre.rooms@.len() as int);
                assert(pre.rooms@[j] == post.rooms@[j]);
                pre.lemma_room_index(rid, j);
            }
        }
    }

    /// Registers `handle` in `room` with `role`, creating the room if this is
    /// its first client. A joiner of a room that already claims an offer id
    /// first receives a private catch-up frame announcing that id, before any
    /// other send of this operation; then the updated presence is broadcast
    /// to every member, the newcomer included.
    pub fn join(&mut self, room: &RoomId, handle: SessionHandle, role: Role) -> (r: Vec<Delivery>)
        requires
            old(self).wf(),
        ensures
            final(self).wf(),
            join_post(*old(self), *final(self), room@, handle, role, r@),
    {
        let mut deliveries: Vec<Delivery> = Vec::new();
        match self.find_room(room) {
            Some(i) => {
                let ghost pre = *self;
                let (rid, mut st) = self.rooms.remove(i);
                st.upsert_client(handle, role);
                if let Some(oid) = &st.offer_id {
                    deliveries.push(Delivery {
                        to: handle,
                        msg: OutboundMessage::Text {
                            msg_type: "offer_system".to_owned(),
                            from_role: "offer_system".to_owned(),
                            offer_id: Some(oid.clone()),
                            text: oid.clone(),
                        },
                    });
                }
                self.rooms.insert(i, (rid, st));
                proof {
                    assert(self.rooms@ =~= pre.rooms@.update(i as int, self.rooms@[i as int]));
                    assert(self.wf());
                    self.lemma_room_index(room@, i as int);
                    pre.lemma_room_index(room@, i as int);
                    ChatHub::lemma_update_preserves_other_rooms(pre, *self, i as int, room@);
                }
            },
            None => {
                let ghost pre = *self;
                let mut st = RoomState { clients: Vec::new(), offer_id: None };
                st.upsert_client(handle, role);
                assert(st.clients@ =~= seq![(handle, role)]);
                self.rooms.push((room.duplicate(), st));
                proof {
                    assert(self.wf());
                    self.lemma_room_index(room@, pre.rooms@.len() as int);
                    ChatHub::lemma_push_preserves_other_rooms(pre, *self, room@);
                }
            },
        }
        let mut presence = self.broadcast_presence(room);
        let ghost head = deliveries@;
        deliveries.append(&mut presence);
        proof {
            let st = self.room_state(room@);
            if st.offer_id is Some {
                assert(deliveries@.skip(1) =~= deliveries@.subrange(1, deliveries@.len() as int));
                assert(is_presence_fanout(deliveries@.skip(1), st));
            }
        }
        deliveries
    }

    /// Removes `handle` from `room`. A room left with no clients is deleted
    /// in the same step and nothing is sent; otherwise the shrunk presence is
    /// re-broadcast. Leaving a room the hub has no record of is a no-op.
    pub fn leave(&mut self, room: &RoomId, handle: SessionHandle) -> (r: Vec<Delivery>)
        requires
            old(self).wf(),
        ensures
            final(self).wf(),
            leave_post(*old(self), *final(self), room@, handle, r@),
    {
        match self.find_room(room) {
            None => Vec::new(),
            Some(i) => {
                let ghost pre = *self;
                let (rid, mut st) = self.rooms.remove(i);
                st.remove_client(handle);
                if st.clients.len() == 0 {
                    proof {
                        pre.lemma_room_index(room@, i as int);
                        assert(self.wf());
                        assert forall|k: int|
                            0 <= k < self.rooms@.len() implies (#[trigger] self.rooms@[k]).0@
                            != room@ by {
                            if k < i as int {
                                assert(self.rooms@[k] == pre.rooms@[k]);
                            } else {
                                assert(self.rooms@[k] == pre.rooms@[k + 1]);
                            }
                        }
                        assert(!self.has_room(room@));
                        ChatHub::lemma_remove_preserves_other_rooms(pre, *self, i as int, room@);
                    }
                    Vec::new()
                } else {
                    self.rooms.insert(i, (rid, st));
                    proof {
                        assert(self.rooms@ =~= pre.rooms@.update(i as int, self.rooms@[i as int]));
                        assert(self.wf());
                        self.lemma_room_index(room@, i as int);
                        pre.lemma_room_index(room@, i as int);
                        ChatHub::lemma_update_preserves_other_rooms(pre, *self, i as int, room@);
                    }
                    self.broadcast_presence(room)
                }
            },
        }
    }

    /// Fans the presence frame of `room` out to its members; a room the hub
    /// has no record of produces no sends.
    pub fn broadcast_presence(&self, room: &RoomId) -> (r: Vec<Delivery>)
        requires
            self.wf(),
        ensures
            !self.has_room(room@) ==> r@.len() == 0,
            self.has_room(room@) ==> is_presence_fanout(r@, self.room_state(room@)),
    {
        match self.find_room(room) {
            Some(i) => {
                let state = &self.rooms[i].1;
                let msg = presence_message(state);
                fan_out(state, &msg)
            },
            None => Vec::new(),
        }
    }
}

/// `m` is a structured text frame of the given type, sender role, stamped
/// offer id and body.
pub open spec fn is_text_frame(
    m: OutboundMessage,
    msg_type: Seq<char>,
    from_role: Seq<char>,
    offer_id: Option<Seq<char>>,
    text: Seq<char>,
) -> bool {
    m matches OutboundMessage::Text { msg_type: t, from_role: f, offer_id: o, text: x } && t@
        == msg_type && f@ == from_role && view_opt(o) == offer_id && x@ == text
}

/// `m` re-embeds the `items` field of an announcement.
pub open spec fn is_items_frame(
    m: OutboundMessage,
    from_role: Seq<char>,
    offer_id: Option<Seq<char>>,
    items: Seq<char>,
) -> bool {
    m matches OutboundMessage::OfferItems { from_role: f, offer_id: o, items: i } && f@ == from_role
        && view_opt(o) == offer_id && i@ == items
}

/// `m` is an offer lifecycle frame.
pub open spec fn is_state_frame(
    m: OutboundMessage,
    msg_type: Seq<char>,
    offer_id: Option<Seq<char>>,
    dirty: bool,
    send: bool,
    accepted: bool,
    paid: bool,
) -> bool {
    m matches OutboundMessage::OfferState {
        msg_type: t,
        offer_id: o,
        offer_dirty: d,
        offer_send: s,
        offer_accepted: a,
        offer_paid: p,
    } && t@ == msg_type && view_opt(o) == offer_id && d == dirty && s == send && a == accepted && p
        == paid
}

/// `m` is a UI progress ping.
pub open spec fn is_step_frame(
    m: OutboundMessage,
    msg_type: Seq<char>,
    from_role: Seq<char>,
    offer_id: Option<Seq<char>>,
    step: Seq<char>,
    text: Seq<char>,
) -> bool {
    m matches OutboundMessage::OfferStep { msg_type: t, from_role: f, offer_id: o, step: s, text: x }
        && t@ == msg_type && f@ == from_role && view_opt(o) == offer_id && s@ == step && x@ == text
}

/// What a broadcast yields, given the hub state it reads: nothing for an
/// unknown room; for `offer_items`, the re-embedded `items` field fanned out
/// to every member or a loud refusal when the field is missing; for every
/// other type the text fanned out verbatim, stamped with the room's offer
/// id.
pub open spec fn broadcast_result(
    hub: ChatHub,
    room: (Seq<char>, Seq<char>),
    msg_type: Seq<char>,
    from_role: Seq<char>,
    text: Seq<char>,
    r: Result<Vec<Delivery>, HubError>,
) -> bool {
    &&& !hub.has_room(room) ==> (r matches Ok(ds) && ds@.len() == 0)
    &&& hub.has_room(room) ==> ({
        let st = hub.room_state(room);
        if msg_type == "offer_items"@ {
            match items_field(text) {
                Some(it) => r matches Ok(ds) && ds@.len() == st.clients@.len() && forall|i: int|
                    0 <= i < ds@.len() ==> (#[trigger] ds@[i]).to == st.clients@[i].0
                        && is_items_frame(ds@[i].msg, from_role, view_opt(st.offer_id), it),
                None => r matches Err(HubError::MissingItems),
            }
        } else {
            r matches Ok(ds) && ds@.len() == st.clients@.len() && forall|i: int|
                0 <= i < ds@.len() ==> (#[trigger] ds@[i]).to == st.clients@[i].0 && is_text_frame(
                    ds@[i].msg,
                    msg_type,
                    from_role,
                    view_opt(st.offer_id),
                    text,
                )
        }
    })
}

/// What an offer-state mutation does: nothing for an unknown room; otherwise
/// the room's `currentOfferID` becomes the message's, the membership stays,
/// the lifecycle frame is fanned out to every member, and no other room
/// moves.
pub open spec fn offer_state_post(
    pre: ChatHub,
    post: ChatHub,
    room: (Seq<char>, Seq<char>),
    msg_type: Seq<char>,
    offer_id: Option<Seq<char>>,
    accepted: bool,
    dirty: bool,
    paid: bool,
    send: bool,
    ds: Seq<Delivery>,
) -> bool {
    &&& !pre.has_room(room) ==> post.rooms@ == pre.rooms@ && ds.len() == 0
    &&& pre.has_room(room) ==> ({
        let st = post.room_state(room);
        &&& post.has_room(room)
        &&& st.clients@ == pre.room_state(room).clients@
        &&& view_opt(st.offer_id) == offer_id
        &&& ds.len() == st.clients@.len()
        &&& forall|i: int|
            0 <= i < ds.len() ==> (#[trigger] ds[i]).to == st.clients@[i].0 && is_state_frame(
                ds[i].msg,
                msg_type,
                offer_id,
                dirty,
                send,
                accepted,
                paid,
            )
    })
    &&& other_rooms_unchanged(pre, post, room)
}

/// What a progress ping yields: nothing for an unknown room, else the step
/// frame, stamped with the room's current offer id, fanned out to every
/// member.
pub open spec fn step_fanout(
    hub: ChatHub,
    room: (Seq<char>, Seq<char>),
    msg_type: Seq<char>,
    from_role: Seq<char>,
    step: Seq<char>,
    text: Seq<char>,
    ds: Seq<Delivery>,
) -> bool {
    &&& !hub.has_room(room) ==> ds.len() == 0
    &&& hub.has_room(room) ==> ({
        let st = hub.room_state(room);
        &&& ds.len() == st.clients@.len()
        &&& forall|i: int|
            0 <= i < ds.len() ==> (#[trigger] ds[i]).to == st.clients@[i].0 && is_step_frame(
                ds[i].msg,
                msg_type,
                from_role,
                view_opt(st.offer_id),
                step,
                text,
            )
    })
}

/// What a payment notification does: nothing for an unknown room; otherwise
/// the paid offer id is kept in room state and every member receives, in
/// this order, the paid lifecycle frame and the two fixed narrative frames,
/// while no other room moves.
pub open spec fn payment_post(
    pre: ChatHub,
    post: ChatHub,
    room: (Seq<char>, Seq<char>),
    oid: Seq<char>,
    ds: Seq<Delivery>,
) -> bool {
    &&& !pre.has_room(room) ==> post.rooms@ == pre.rooms@ && ds.len() == 0
    &&& pre.has_room(room) ==> ({
        let st = post.room_state(room);
        let n = st.clients@.len() as int;
        &&& post.has_room(room)
        &&& st.clients@ == pre.room_state(room).clients@
        &&& view_opt(st.offer_id) == Some(oid)
        &&& ds.len() == 3 * n
        &&& forall|i: int|
            0 <= i < n ==> (#[trigger] ds[i]).to == st.clients@[i].0 && is_state_frame(
                ds[i].msg,
                "paid_offer"@,
                Some(oid),
                false,
                true,
                true,
                true,
            )
        &&& forall|k: int|
            0 <= k < n ==> (#[trigger] ds[n + 2 * k]).to == st.clients@[k].0 && is_text_frame(
                ds[n + 2 * k].msg,
                "system"@,
                "system"@,
                Some(oid),
                "Offer successfully paid"@,
            ) && ds[n + 2 * k + 1].to == st.clients@[k].0 && is_text_frame(
                ds[n + 2 * k + 1].msg,
                "system"@,
                "system"@,
                Some(oid),
                "Trader is sending offer"@,
            )
    })
    &&& other_rooms_unchanged(pre, post, room)
}

/// Builds the frame a broadcast fans out, given the `items` field that was
/// extracted from an `offer_items` announcement. An `offer_items` broadcast
/// without an `items` field is refused — malformed announcements fail loudly
/// for that message — while any other type carries its text verbatim.
pub fn broadcast_payload(
    offer_id: &Option<String>,
    msg_type: String,
    from_role: String,
    text: String,
    items: Option<String>,
) -> (r: Result<OutboundMessage, HubError>)
    ensures
        msg_type@ == "offer_items"@ ==> match items {
            Some(it) => r matches Ok(m) && is_items_frame(m, from_role@, view_opt(*offer_id), it@),
            None => r matches Err(HubError::MissingItems),
        },
        msg_type@ != "offer_items"@ ==> (r matches Ok(m) && is_text_frame(
            m,
            msg_type@,
            from_role@,
            view_opt(*offer_id),
            text@,
        )),
{
    if msg_type == "offer_items".to_owned() {
        match items {
            Some(it) => Ok(
                OutboundMessage::OfferItems {
                    from_role,
                    offer_id: crate::messages::clone_opt_string(offer_id),
                    items: it,
                },
            ),
            None => Err(HubError::MissingItems),
        }
    } else {
        Ok(
            OutboundMessage::Text {
                msg_type,
                from_role,
                offer_id: crate::messages::clone_opt_string(offer_id),
                text,
            },
        )
    }
}

impl ChatHub {
    /// Fans a structured payload out to every member of `room`, the sender
    /// included — echo-to-self is intentional, so all participants render
    /// from one authoritative stream. An `offer_items` payload is special:
    /// only the `items` field of its JSON text is re-embedded, and a payload
    /// without one is refused. A room the hub has no record of produces no
    /// sends.
    pub fn broadcast(&self, room: &RoomId, msg_type: String, from_role: String, text: String) -> (r:
        Result<Vec<Delivery>, HubError>)
        requires
            self.wf(),
        ensures
            broadcast_result(*self, room@, msg_type@, from_role@, text@, r),
    {
        match self.find_room(room) {
            None => Ok(Vec::new()),
            Some(i) => {
                let state = &self.rooms[i].1;
                // Only an offer_items announcement is parsed; any other text
                // rides through untouched.
                let items = if msg_type == "offer_items".to_owned() {
                    extract_items_field(text.as_str())
                } else {
                    None
                };
                let msg = broadcast_payload(&state.offer_id, msg_type, from_role, text, items)?;
                Ok(fan_out(state, &msg))
            },
        }
    }

    /// Mutates the room's `currentOfferID` — the only path that changes it —
    /// and fans the resulting lifecycle frame out to every member. A room the
    /// hub has no record of produces no sends and no change.
    pub fn offer_state(
        &mut self,
        room: &RoomId,
        msg_type: String,
        offer_id: Option<String>,
        offer_accepted: bool,
        offer_dirty: bool,
        offer_paid: bool,
        offer_send: bool,
    ) -> (r: Vec<Delivery>)
        requires
            old(self).wf(),
        ensures
            final(self).wf(),
            offer_state_post(
                *old(self),
                *final(self),
                room@,
                msg_type@,
                view_opt(offer_id),
                offer_accepted,
                offer_dirty,
                offer_paid,
                offer_send,
                r@,
            ),
    {
        match self.find_room(room) {
            None => Vec::new(),
            Some(i) => {
                let ghost pre = *self;
                let msg = OutboundMessage::OfferState {
                    msg_type,
                    offer_id: crate::messages::clone_opt_string(&offer_id),
                    offer_dirty,
                    offer_send,
                    offer_accepted,
                    offer_paid,
                };
                let (rid, mut st) = self.rooms.remove(i);
                st.offer_id = offer_id;
                let deliveries = fan_out(&st, &msg);
                self.rooms.insert(i, (rid, st));
                proof {
                    assert(self.rooms@ =~= pre.rooms@.update(i as int, self.rooms@[i as int]));
                    assert(self.wf());
                    self.lemma_room_index(room@, i as int);
                    pre.lemma_room_index(room@, i as int);
                    ChatHub::lemma_update_preserves_other_rooms(pre, *self, i as int, room@);
                }
                deliveries
            },
        }
    }

    /// Fans a UI progress ping out to every member of `room`, stamped with
    /// the room's current offer id; mutates nothing.
    pub fn offer_step(
        &self,
        room: &RoomId,
        msg_type: String,
        from_role: String,
        step_type: String,
        text: String,
    ) -> (r: Vec<Delivery>)
        requires
            self.wf(),
        ensures
            step_fanout(*self, room@, msg_type@, from_role@, step_type@, text@, r@),
    {
        match self.find_room(room) {
            None => Vec::new(),
            Some(i) => {
                let state = &self.rooms[i].1;
                let msg = OutboundMessage::OfferStep {
                    msg_type,
                    from_role,
                    offer_id: crate::messages::clone_opt_string(&state.offer_id),
                    step: step_type,
                    text,
                };
                fan_out(state, &msg)
            },
        }
    }

    /// Invoked by the payment collaborator once a payment is verified: keeps
    /// the paid offer id in room state (so late joiners can still see it),
    /// then broadcasts the paid lifecycle frame followed by the two fixed
    /// narrative frames, in that order per member. An unknown room simply
    /// returns without broadcasting.
    pub fn payment_succeeded(&mut self, room: &RoomId, offer_id: String) -> (r: Vec<Delivery>)
        requires
            old(self).wf(),
        ensures
            final(self).wf(),
            payment_post(*old(self), *final(self), room@, offer_id@, r@),
    {
        match self.find_room(room) {
            None => Vec::new(),
            Some(i) => {
                let ghost pre = *self;
                let paid_frame = OutboundMessage::OfferState {
                    msg_type: "paid_offer".to_owned(),
                    offer_id: Some(offer_id.clone()),
                    offer_dirty: false,
                    offer_send: true,
                    offer_accepted: true,
                    offer_paid: true,
                };
                let system1 = OutboundMessage::Text {
                    msg_type: "system".to_owned(),
                    from_role: "system".to_owned(),
                    offer_id: Some(offer_id.clone()),
                    text: "Offer successfully paid".to_owned(),
                };
                let system2 = OutboundMessage::Text {
                    msg_type: "system".to_owned(),
                    from_role: "system".to_owned(),
                    offer_id: Some(offer_id.clone()),
                    text: "Trader is sending offer".to_owned(),
                };
                let (rid, mut st) = self.rooms.remove(i);
                st.offer_id = Some(offer_id);
                let mut deliveries = fan_out(&st, &paid_frame);
                let n = st.clients.len();
                let mut k: usize = 0;
                while k < n
                    invariant
                        n == st.clients@.len(),
                        0 <= k <= n,
                        deliveries@.len() == n + 2 * k,
                        forall|j: int|
                            0 <= j < n ==> (#[trigger] deliveries@[j]).to == st.clients@[j].0
                                && deliveries@[j].msg == paid_frame,
                        forall|j: int|
                            0 <= j < k ==> (#[trigger] deliveries@[n + 2 * j]).to
                                == st.clients@[j].0 && deliveries@[n + 2 * j].msg == system1
                                && deliveries@[n + 2 * j + 1].to == st.clients@[j].0 && deliveries@[
                                n + 2 * j + 1
                            ].msg == system2,
                    decreases n - k,
                {
                    deliveries.push(Delivery { to: st.clients[k].0, msg: system1.duplicate() });
                    deliveries.push(Delivery { to: st.clients[k].0, msg: system2.duplicate() });
                    k = k + 1;
                }
                self.rooms.insert(i, (rid, st));
                proof {
                    assert(self.rooms@ =~= pre.rooms@.update(i as int, self.rooms@[i as int]));
                    assert(self.wf());
                    self.lemma_room_index(room@, i as int);
                    pre.lemma_room_index(room@, i as int);
                    ChatHub::lemma_update_preserves_other_rooms(pre, *self, i as int, room@);
                }
                deliveries
            },
        }
    }

    /// The single serialized entry point: applies one hub message and
    /// returns the sends it causes, so no two operations on the same room's
    /// state ever interleave.
    pub fn handle(&mut self, msg: HubMsg) -> (r: Result<Vec<Delivery>, HubError>)
        requires
            old(self).wf(),
        ensures
            final(self).wf(),
            match msg {
                HubMsg::Join { room, handle, role } => r is Ok && join_post(
                    *old(self),
                    *final(self),
                    room@,
                    handle,
                    role,
                    r.unwrap()@,
                ),
                HubMsg::Leave { room, handle } => r is Ok && leave_post(
                    *old(self),
                    *final(self),
                    room@,
                    handle,
                    r.unwrap()@,
                ),
                HubMsg::Broadcast { room, msg_type, from_role, text } => final(self).rooms@
                    == old(self).rooms@ && broadcast_result(
                    *old(self),
                    room@,
                    msg_type@,
                    from_role@,
                    text@,
                    r,
                ),
                HubMsg::OfferState {
                    room,
                    msg_type,
                    offer_id,
                    offer_accepted,
                    offer_dirty,
                    offer_paid,
                    offer_send,
                } => r is Ok && offer_state_post(
                    *old(self),
                    *final(self),
                    room@,
                    msg_type@,
                    view_opt(offer_id),
                    offer_accepted,
                    offer_dirty,
                    offer_paid,
                    offer_send,
                    r.unwrap()@,
                ),
                HubMsg::OfferStep { room, msg_type, from_role, step_type, text } => final(self).rooms@
                    == old(self).rooms@ && r is Ok && step_fanout(
                    *old(self),
                    room@,
                    msg_type@,
                    from_role@,
                    step_type@,
                    text@,
                    r.unwrap()@,
                ),
                HubMsg::PaymentSucceeded { room, offer_id } => r is Ok && payment_post(
                    *old(self),
                    *final(self),
                    room@,
                    offer_id@,
                    r.unwrap()@,
                ),
            },
    {
        match msg {
            HubMsg::Join { room, handle, role } => Ok(self.join(&room, handle, role)),
            HubMsg::Leave { room, handle } => Ok(self.leave(&room, handle)),
            HubMsg::Broadcast { room, msg_type, from_role, text } => self.broadcast(
                &room,
                msg_type,
                from_role,
                text,
            ),
            HubMsg::OfferState {
                room,
                msg_type,
                offer_id,
                offer_accepted,
                offer_dirty,
                offer_paid,
                offer_send,
            } => Ok(
                self.offer_state(
                    &room,
                    msg_type,
                    offer_id,
                    offer_accepted,
                    offer_dirty,
                    offer_paid,
                    offer_send,
                ),
            ),
            HubMsg::OfferStep { room, msg_type, from_role, step_type, text } => Ok(
                self.offer_step(&room, msg_type, from_role, step_type, text),
            ),
            HubMsg::PaymentSucceeded { room, offer_id } => Ok(
                self.payment_succeeded(&room, offer_id),
            ),
        }
    }
}

/// A room is never observable with zero clients: deletion is atomic with the
/// last leave, so every room a well-formed hub knows has at least one client.
pub proof fn lemma_no_empty_rooms(hub: ChatHub, rid: (Seq<char>, Seq<char>))
    requires
        hub.wf(),
        hub.has_room(rid),
    ensures
        hub.room_state(rid).clients@.len() > 0,
{
    let i = hub.room_index(rid);
    assert(0 <= i < hub.rooms@.len() && hub.rooms@[i].0@ == rid);
}

} // verus!
