use tastyrock::hub::ChatHub;
use tastyrock::messages::{Delivery, HubError, OutboundMessage};
use tastyrock::room::{Role, RoomId};

fn room() -> RoomId {
    RoomId::new("buyer1".to_string(), "trader1".to_string())
}

fn other_room() -> RoomId {
    RoomId::new("buyer2".to_string(), "trader2".to_string())
}

fn presence_of(d: &Delivery) -> (usize, bool, bool, Option<String>) {
    match &d.msg {
        OutboundMessage::Presence { count, buyer_present, trader_present, offer_id } => {
            (*count, *buyer_present, *trader_present, offer_id.clone())
        }
        _ => panic!("expected a presence frame"),
    }
}

#[test]
fn presence_count_tracks_membership() {
    let mut hub = ChatHub::new();
    let ds = hub.join(&room(), 1, Role::Buyer);
    assert_eq!(ds.len(), 1);
    assert_eq!(presence_of(&ds[0]), (1, true, false, None));

    let ds = hub.join(&room(), 2, Role::Trader);
    assert_eq!(ds.len(), 2);
    for d in &ds {
        assert_eq!(presence_of(d), (2, true, true, None));
    }

    let ds = hub.leave(&room(), 1);
    assert_eq!(ds.len(), 1);
    assert_eq!(ds[0].to, 2);
    assert_eq!(presence_of(&ds[0]), (1, false, true, None));
}

#[test]
fn third_join_with_duplicate_role_succeeds() {
    let mut hub = ChatHub::new();
    hub.join(&room(), 1, Role::Buyer);
    hub.join(&room(), 2, Role::Trader);
    let ds = hub.join(&room(), 3, Role::Trader);
    assert_eq!(ds.len(), 3);
    for d in &ds {
        let (count, buyer_present, trader_present, _) = presence_of(d);
        assert_eq!(count, 3);
        assert!(buyer_present);
        assert!(trader_present);
    }
}

#[test]
fn empty_room_is_deleted_with_last_leave() {
    let mut hub = ChatHub::new();
    hub.join(&room(), 1, Role::Buyer);
    let ds = hub.leave(&room(), 1);
    assert!(ds.is_empty());
    // The room is gone: a broadcast reaches nobody.
    let ds = hub
        .broadcast(&room(), "chat".to_string(), "buyer".to_string(), "hi".to_string())
        .unwrap();
    assert!(ds.is_empty());
}

#[test]
fn late_joiner_gets_catchup_before_presence() {
    let mut hub = ChatHub::new();
    hub.join(&room(), 1, Role::Buyer);
    hub.join(&room(), 2, Role::Trader);
    hub.offer_state(&room(), "set_offer".to_string(), Some("abc123".to_string()), false, true, false, false);

    let ds = hub.join(&room(), 3, Role::Trader);
    assert_eq!(ds.len(), 4);
    assert_eq!(ds[0].to, 3);
    match &ds[0].msg {
        OutboundMessage::Text { msg_type, from_role, offer_id, text } => {
            assert_eq!(msg_type, "offer_system");
            assert_eq!(from_role, "offer_system");
            assert_eq!(offer_id.as_deref(), Some("abc123"));
            assert_eq!(text, "abc123");
        }
        _ => panic!("expected the catch-up frame first"),
    }
    for d in &ds[1..] {
        let (count, _, _, offer_id) = presence_of(d);
        assert_eq!(count, 3);
        assert_eq!(offer_id.as_deref(), Some("abc123"));
    }
}

#[test]
fn broadcast_echoes_to_all_members_including_sender() {
    let mut hub = ChatHub::new();
    hub.join(&room(), 1, Role::Buyer);
    hub.join(&room(), 2, Role::Trader);
    let ds = hub
        .broadcast(&room(), "chat".to_string(), "buyer".to_string(), "hello".to_string())
        .unwrap();
    assert_eq!(ds.len(), 2);
    let mut tos: Vec<u64> = ds.iter().map(|d| d.to).collect();
    tos.sort();
    assert_eq!(tos, vec![1, 2]);
    for d in &ds {
        match &d.msg {
            OutboundMessage::Text { msg_type, from_role, text, .. } => {
                assert_eq!(msg_type, "chat");
                assert_eq!(from_role, "buyer");
                assert_eq!(text, "hello");
            }
            _ => panic!("expected a text frame"),
        }
    }
}

#[test]
fn offer_items_broadcast_reembeds_items_field() {
    let mut hub = ChatHub::new();
    hub.join(&room(), 1, Role::Buyer);
    let raw = r#"{"type":"offer_items","items":[{"assetID":"77"}]}"#.to_string();
    let ds = hub
        .broadcast(&room(), "offer_items".to_string(), "buyer".to_string(), raw)
        .unwrap();
    assert_eq!(ds.len(), 1);
    match &ds[0].msg {
        OutboundMessage::OfferItems { from_role, items, .. } => {
            assert_eq!(from_role, "buyer");
            assert_eq!(items, r#"[{"assetID":"77"}]"#);
        }
        _ => panic!("expected an offer items frame"),
    }
}

#[test]
fn offer_items_without_items_field_fails_loudly() {
    let mut hub = ChatHub::new();
    hub.join(&room(), 1, Role::Buyer);
    let raw = r#"{"type":"offer_items"}"#.to_string();
    let r = hub.broadcast(&room(), "offer_items".to_string(), "buyer".to_string(), raw);
    assert!(matches!(r, Err(HubError::MissingItems)));
    let r = hub.broadcast(&room(), "offer_items".to_string(), "buyer".to_string(), "not json".to_string());
    assert!(matches!(r, Err(HubError::MissingItems)));
}

#[test]
fn offer_state_stamps_later_broadcasts() {
    let mut hub = ChatHub::new();
    hub.join(&room(), 1, Role::Buyer);
    let ds = hub.offer_state(
        &room(),
        "accept_offer".to_string(),
        Some("xyz".to_string()),
        true,
        false,
        false,
        true,
    );
    assert_eq!(ds.len(), 1);
    match &ds[0].msg {
        OutboundMessage::OfferState { msg_type, offer_id, offer_accepted, offer_dirty, offer_paid, offer_send } => {
            assert_eq!(msg_type, "accept_offer");
            assert_eq!(offer_id.as_deref(), Some("xyz"));
            assert!(*offer_accepted && !*offer_dirty && !*offer_paid && *offer_send);
        }
        _ => panic!("expected an offer state frame"),
    }
    let ds = hub
        .broadcast(&room(), "chat".to_string(), "buyer".to_string(), "hi".to_string())
        .unwrap();
    match &ds[0].msg {
        OutboundMessage::Text { offer_id, .. } => assert_eq!(offer_id.as_deref(), Some("xyz")),
        _ => panic!("expected a text frame"),
    }
}

#[test]
fn offer_step_mutates_nothing() {
    let mut hub = ChatHub::new();
    hub.join(&room(), 1, Role::Buyer);
    let ds = hub.offer_step(
        &room(),
        "offer_step".to_string(),
        "buyer".to_string(),
        "connect".to_string(),
        "Offer stage".to_string(),
    );
    assert_eq!(ds.len(), 1);
    match &ds[0].msg {
        OutboundMessage::OfferStep { msg_type, from_role, step, text, offer_id } => {
            assert_eq!(msg_type, "offer_step");
            assert_eq!(from_role, "buyer");
            assert_eq!(step, "connect");
            assert_eq!(text, "Offer stage");
            assert!(offer_id.is_none());
        }
        _ => panic!("expected an offer step frame"),
    }
}

#[test]
fn payment_succeeded_broadcasts_in_fixed_order() {
    let mut hub = ChatHub::new();
    hub.join(&room(), 1, Role::Buyer);
    hub.join(&room(), 2, Role::Trader);
    let ds = hub.payment_succeeded(&room(), "paidoffer1".to_string());
    assert_eq!(ds.len(), 6);
    for d in &ds[0..2] {
        match &d.msg {
            OutboundMessage::OfferState { msg_type, offer_id, offer_accepted, offer_paid, offer_send, offer_dirty } => {
                assert_eq!(msg_type, "paid_offer");
                assert_eq!(offer_id.as_deref(), Some("paidoffer1"));
                assert!(*offer_accepted && *offer_paid && *offer_send && !*offer_dirty);
            }
            _ => panic!("expected the paid frame first"),
        }
    }
    for pair in ds[2..].chunks(2) {
        match &pair[0].msg {
            OutboundMessage::Text { msg_type, from_role, text, .. } => {
                assert_eq!(msg_type, "system");
                assert_eq!(from_role, "system");
                assert_eq!(text, "Offer successfully paid");
            }
            _ => panic!("expected the first notice"),
        }
        match &pair[1].msg {
            OutboundMessage::Text { msg_type, from_role, text, .. } => {
                assert_eq!(msg_type, "system");
                assert_eq!(from_role, "system");
                assert_eq!(text, "Trader is sending offer");
            }
            _ => panic!("expected the second notice"),
        }
        assert_eq!(pair[0].to, pair[1].to);
    }
}

#[test]
fn payment_succeeded_for_unknown_room_is_a_noop() {
    let mut hub = ChatHub::new();
    hub.join(&room(), 1, Role::Buyer);
    let ds = hub.payment_succeeded(&other_room(), "x".to_string());
    assert!(ds.is_empty());
}

#[test]
fn rooms_are_independent() {
    let mut hub = ChatHub::new();
    hub.join(&room(), 1, Role::Buyer);
    hub.join(&other_room(), 2, Role::Trader);
    hub.offer_state(&room(), "set_offer".to_string(), Some("only-here".to_string()), false, true, false, false);
    let ds = hub
        .broadcast(&other_room(), "chat".to_string(), "trader".to_string(), "hi".to_string())
        .unwrap();
    assert_eq!(ds.len(), 1);
    match &ds[0].msg {
        OutboundMessage::Text { offer_id, .. } => assert!(offer_id.is_none()),
        _ => panic!("expected a text frame"),
    }
}
