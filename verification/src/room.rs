//! Rooms and their membership: one room per buyer/trader pair, owned by the
//! hub, holding the connected sessions and the currently claimed offer id.

use vstd::prelude::*;

verus! {

/// A participant's role inside a negotiation room.
#[derive(Clone, Copy, Debug, PartialEq, Eq, Structural)]
pub enum Role {
    Buyer,
    Trader,
}

/// Opaque, comparable reference to one live connection. The hub never
/// dereferences it; the transport layer maps it back to a socket.
pub type SessionHandle = u64;

/// Composite key of a negotiation room, stable for the lifetime of a
/// negotiation.
#[derive(Debug)]
pub struct RoomId {
    pub buyer_steamid: String,
    pub trader_steamid: String,
}

impl View for RoomId {
    type V = (Seq<char>, Seq<char>);

    open spec fn view(&self) -> (Seq<char>, Seq<char>) {
        (self.buyer_steamid@, self.trader_steamid@)
    }
}

impl RoomId {
    pub fn new(buyer_steamid: String, trader_steamid: String) -> (r: Self)
        ensures
            r@ == (buyer_steamid@, trader_steamid@),
    {
        Self { buyer_steamid, trader_steamid }
    }

    /// A fresh `RoomId` naming the same room.
    pub fn duplicate(&self) -> (r: Self)
        ensures
            r@ == self@,
    {
        RoomId { buyer_steamid: self.buyer_steamid.clone(), trader_steamid: self.trader_steamid.clone() }
    }
}

impl PartialEq for RoomId {
    fn eq(&self, other: &Self) -> (r: bool) {
        self.buyer_steamid == other.buyer_steamid && self.trader_steamid == other.trader_steamid
    }
}

impl vstd::std_specs::cmp::PartialEqSpecImpl for RoomId {
    open spec fn obeys_eq_spec() -> bool {
        true
    }

    open spec fn eq_spec(&self, other: &Self) -> bool {
        self@ == other@
    }
}

/// Membership and offer state of one live room. Owned exclusively by the hub.
pub struct RoomState {
    /// The connected sessions and the role each one declared.
    pub clients: Vec<(SessionHandle, Role)>,
    /// The single source of truth for the offer id stamped on every outbound
    /// broadcast of this room.
    pub offer_id: Option<String>,
}

impl RoomState {
    /// No two entries name the same session handle.
    pub open spec fn wf(self) -> bool {
        forall|i: int, j: int|
            0 <= i < self.clients@.len() && 0 <= j < self.clients@.len() && i != j
                ==> (#[trigger] self.clients@[i]).0 != (#[trigger] self.clients@[j]).0
    }

    pub open spec fn has_handle(self, h: SessionHandle) -> bool {
        exists|i: int| 0 <= i < self.clients@.len() && (#[trigger] self.clients@[i]).0 == h
    }

    /// The index of the entry for `h`, meaningful when `has_handle(h)`.
    pub open spec fn handle_index(self, h: SessionHandle) -> int {
        choose|i: int| 0 <= i < self.clients@.len() && (#[trigger] self.clients@[i]).0 == h
    }

    pub open spec fn buyer_present(self) -> bool {
        exists|i: int| 0 <= i < self.clients@.len() && (#[trigger] self.clients@[i]).1 == Role::Buyer
    }

    pub open spec fn trader_present(self) -> bool {
        exists|i: int| 0 <= i < self.clients@.len() && (#[trigger] self.clients@[i]).1 == Role::Trader
    }

    /// The position of the entry for `h`, if `h` is connected.
    pub fn find_client(&self, h: SessionHandle) -> (r: Option<usize>)
        requires
            self.wf(),
        ensures
            r is Some <==> self.has_handle(h),
            r is Some ==> {
                let i = r.unwrap() as int;
                &&& 0 <= i < self.clients@.len()
                &&& self.clients@[i].0 == h
                &&& i == self.handle_index(h)
            },
    {
        let n = self.clients.len();
        let mut i: usize = 0;
        while i < n
            invariant
                self.wf(),
                n == self.clients@.len(),
                0 <= i <= n,
                forall|k: int| 0 <= k < i ==> (#[trigger] self.clients@[k]).0 != h,
            decreases n - i,
        {
            if self.clients[i].0 == h {
                proof {
                    assert(self.has_handle(h));
                    let j = self.handle_index(h);
                    assert(self.clients@[j].0 == h);
                    assert(j == i as int);
                }
                return Some(i);
            }
            i = i + 1;
        }
        assert(!self.has_handle(h));
        None
    }

    /// Inserts `h` with `role`, or updates the role of an already present
    /// handle, leaving every other entry and the offer id as they were.
    pub fn upsert_client(&mut self, h: SessionHandle, role: Role)
        requires
            old(self).wf(),
        ensures
            final(self).wf(),
            final(self).offer_id == old(self).offer_id,
            old(self).has_handle(h) ==> final(self).clients@ == old(self).clients@.update(
                old(self).handle_index(h),
                (h, role),
            ),
            !old(self).has_handle(h) ==> final(self).clients@ == old(self).clients@.push((h, role)),
            final(self).has_handle(h),
            final(self).clients@.len() >= 1,
    {
        match self.find_client(h) {
            Some(i) => {
                self.clients.set(i, (h, role));
                assert(final(self).clients@[old(self).handle_index(h)].0 == h);
                assert forall|a: int, b: int|
                    0 <= a < self.clients@.len() && 0 <= b < self.clients@.len() && a != b
                        implies (#[trigger] self.clients@[a]).0 != (#[trigger] self.clients@[b]).0 by {
                    assert(old(self).clients@[a].0 == self.clients@[a].0);
                    assert(old(self).clients@[b].0 == self.clients@[b].0);
                }
            },
            None => {
                self.clients.push((h, role));
                assert(self.clients@[old(self).clients@.len() as int].0 == h);
                assert forall|a: int, b: int|
                    0 <= a < self.clients@.len() && 0 <= b < self.clients@.len() && a != b
                        implies (#[trigger] self.clients@[a]).0 != (#[trigger] self.clients@[b]).0 by {
                    if a < old(self).clients@.len() && b < old(self).clients@.len() {
                    } else if a < old(self).clients@.len() {
                        assert(!old(self).has_handle(h));
                        assert(old(self).clients@[a].0 != h);
                    } else if b < old(self).clients@.len() {
                        assert(!old(self).has_handle(h));
                        assert(old(self).clients@[b].0 != h);
                    }
                }
            },
        }
    }

    /// Removes the entry for `h`, if any, keeping the relative order of the
    /// remaining entries.
    pub fn remove_client(&mut self, h: SessionHandle)
        requires
            old(self).wf(),
        ensures
            final(self).wf(),
            final(self).offer_id == old(self).offer_id,
            old(self).has_handle(h) ==> final(self).clients@ == old(self).clients@.remove(
                old(self).handle_index(h),
            ),
            !old(self).has_handle(h) ==> final(self).clients@ == old(self).clients@,
            !final(self).has_handle(h),
    {
        match self.find_client(h) {
            Some(i) => {
                self.clients.remove(i);
                assert forall|k: int|
                    0 <= k < self.clients@.len() implies (#[trigger] self.clients@[k]).0 != h by {
                    if k < i as int {
                        assert(self.clients@[k] == old(self).clients@[k]);
                        assert(old(self).clients@[k].0 != old(self).clients@[i as int].0);
                    } else {
                        assert(self.clients@[k] == old(self).clients@[k + 1]);
                        assert(old(self).clients@[k + 1].0 != old(self).clients@[i as int].0);
                    }
                }
                assert(!self.has_handle(h));
            },
            None => {},
        }
    }
}

} // verus!
