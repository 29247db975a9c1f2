use tastyrock::messages::{ClientEvent, FrameError, HubMsg};
use tastyrock::room::Role;
use tastyrock::session::{session_params, ConnectError, WsSession};

fn session(role: Role) -> WsSession {
    let mut s = session_params("76561198000000001".to_string(), "76561198000000002".to_string(), None)
        .expect("valid ids");
    s.role = role;
    s
}

#[test]
fn connect_requires_both_ids() {
    assert!(matches!(
        session_params("".to_string(), "t".to_string(), None),
        Err(ConnectError::EmptyId)
    ));
    assert!(matches!(
        session_params("b".to_string(), "".to_string(), None),
        Err(ConnectError::EmptyId)
    ));
    // A whitespace-only id is empty after trimming and refused too.
    assert!(matches!(
        session_params("   ".to_string(), "t".to_string(), None),
        Err(ConnectError::EmptyId)
    ));
    assert!(matches!(
        session_params("b".to_string(), "  \t ".to_string(), None),
        Err(ConnectError::EmptyId)
    ));
    assert!(session_params("b".to_string(), "t".to_string(), None).is_ok());
}

#[test]
fn connect_keeps_the_ids_verbatim() {
    // Trimming decides only the emptiness check; the room identity is the
    // ids exactly as given.
    let s = session_params(" b1 ".to_string(), " t1 ".to_string(), None).unwrap();
    assert_eq!(s.room.buyer_steamid, " b1 ");
    assert_eq!(s.room.trader_steamid, " t1 ");
}

#[test]
fn connect_role_defaults_to_buyer() {
    let s = session_params("b".to_string(), "t".to_string(), None).unwrap();
    assert_eq!(s.role, Role::Buyer);
    let s = session_params("b".to_string(), "t".to_string(), Some("trader".to_string())).unwrap();
    assert_eq!(s.role, Role::Trader);
    let s = session_params("b".to_string(), "t".to_string(), Some("admin".to_string())).unwrap();
    assert_eq!(s.role, Role::Buyer);
    assert!(s.offer_id.is_none());
}

#[test]
fn chat_is_trimmed_and_broadcast() {
    let mut s = session(Role::Buyer);
    let msgs = s.handle(ClientEvent::Chat { text: "  hello there  ".to_string() }).unwrap();
    assert_eq!(msgs.len(), 1);
    match &msgs[0] {
        HubMsg::Broadcast { msg_type, from_role, text, .. } => {
            assert_eq!(msg_type, "chat");
            assert_eq!(from_role, "buyer");
            assert_eq!(text, "hello there");
        }
        _ => panic!("expected a broadcast"),
    }
}

#[test]
fn blank_chat_is_dropped() {
    let mut s = session(Role::Buyer);
    let msgs = s.handle(ClientEvent::Chat { text: "   ".to_string() }).unwrap();
    assert!(msgs.is_empty());
    let msgs = s.handle(ClientEvent::System { text: "".to_string() }).unwrap();
    assert!(msgs.is_empty());
}

#[test]
fn offer_items_forwarded_verbatim() {
    let mut s = session(Role::Trader);
    let raw = r#"{"type":"offer_items","items":[{"assetID":"1"}]}"#.to_string();
    let msgs = s.handle(ClientEvent::OfferItems { raw: raw.clone() }).unwrap();
    assert_eq!(msgs.len(), 1);
    match &msgs[0] {
        HubMsg::Broadcast { msg_type, from_role, text, .. } => {
            assert_eq!(msg_type, "offer_items");
            assert_eq!(from_role, "trader");
            assert_eq!(text, &raw);
        }
        _ => panic!("expected a broadcast"),
    }
}

#[test]
fn set_offer_claims_trimmed_id() {
    let mut s = session(Role::Buyer);
    let msgs = s.handle(ClientEvent::SetOffer { offer_id: " abc123 ".to_string() }).unwrap();
    assert_eq!(s.offer_id.as_deref(), Some("abc123"));
    assert_eq!(msgs.len(), 2);
    match &msgs[0] {
        HubMsg::Broadcast { msg_type, text, .. } => {
            assert_eq!(msg_type, "offer_system");
            assert_eq!(text, "abc123");
        }
        _ => panic!("expected a broadcast first"),
    }
    match &msgs[1] {
        HubMsg::OfferState { msg_type, offer_id, offer_accepted, offer_dirty, offer_paid, offer_send, .. } => {
            assert_eq!(msg_type, "set_offer");
            assert_eq!(offer_id.as_deref(), Some("abc123"));
            assert!(!*offer_accepted && *offer_dirty && !*offer_paid && !*offer_send);
        }
        _ => panic!("expected an offer state second"),
    }
}

#[test]
fn set_offer_with_blank_id_is_refused() {
    let mut s = session(Role::Buyer);
    let r = s.handle(ClientEvent::SetOffer { offer_id: "   ".to_string() });
    assert!(matches!(r, Err(FrameError::EmptyOfferId)));
    assert!(s.offer_id.is_none());
}

#[test]
fn send_and_accept_echo_cached_offer() {
    let mut s = session(Role::Buyer);
    s.handle(ClientEvent::SetOffer { offer_id: "abc".to_string() }).unwrap();
    let msgs = s.handle(ClientEvent::SendOffer).unwrap();
    assert_eq!(msgs.len(), 1);
    match &msgs[0] {
        HubMsg::OfferState { msg_type, offer_id, offer_accepted, offer_send, .. } => {
            assert_eq!(msg_type, "send_offer");
            assert_eq!(offer_id.as_deref(), Some("abc"));
            assert!(!*offer_accepted && *offer_send);
        }
        _ => panic!("expected an offer state"),
    }
    let msgs = s.handle(ClientEvent::AcceptOffer).unwrap();
    match &msgs[0] {
        HubMsg::OfferState { msg_type, offer_accepted, offer_paid, .. } => {
            assert_eq!(msg_type, "accept_offer");
            assert!(*offer_accepted && !*offer_paid);
        }
        _ => panic!("expected an offer state"),
    }
}

#[test]
fn paid_offer_sends_state_then_two_notices() {
    let mut s = session(Role::Trader);
    s.handle(ClientEvent::SetOffer { offer_id: "abc".to_string() }).unwrap();
    let msgs = s.handle(ClientEvent::PaidOffer).unwrap();
    assert_eq!(msgs.len(), 3);
    match &msgs[0] {
        HubMsg::OfferState { msg_type, offer_accepted, offer_paid, offer_send, .. } => {
            assert_eq!(msg_type, "paid_offer");
            assert!(*offer_accepted && *offer_paid && *offer_send);
        }
        _ => panic!("expected an offer state first"),
    }
    match &msgs[1] {
        HubMsg::Broadcast { msg_type, text, .. } => {
            assert_eq!(msg_type, "system");
            assert_eq!(text, "Offer successfully paid");
        }
        _ => panic!("expected a system notice second"),
    }
    match &msgs[2] {
        HubMsg::Broadcast { msg_type, text, .. } => {
            assert_eq!(msg_type, "reveal_send_offer");
            assert_eq!(text, "Trader is sending offer");
        }
        _ => panic!("expected the reveal notice third"),
    }
}

#[test]
fn clear_offer_forgets_the_id() {
    let mut s = session(Role::Buyer);
    s.handle(ClientEvent::SetOffer { offer_id: "abc".to_string() }).unwrap();
    let msgs = s.handle(ClientEvent::ClearOffer).unwrap();
    assert!(s.offer_id.is_none());
    match &msgs[0] {
        HubMsg::OfferState { msg_type, offer_id, .. } => {
            assert_eq!(msg_type, "clear_offer");
            assert!(offer_id.is_none());
        }
        _ => panic!("expected an offer state"),
    }
}

#[test]
fn offer_steps_ping_progress() {
    let mut s = session(Role::Buyer);
    let msgs = s.handle(ClientEvent::OfferStepPaying).unwrap();
    assert_eq!(msgs.len(), 1);
    match &msgs[0] {
        HubMsg::OfferStep { msg_type, step_type, text, .. } => {
            assert_eq!(msg_type, "offer_step");
            assert_eq!(step_type, "pay");
            assert_eq!(text, "Buyer is paying for offer");
        }
        _ => panic!("expected an offer step"),
    }
}

#[test]
fn unknown_events_are_silently_dropped() {
    let mut s = session(Role::Buyer);
    let msgs = s.handle(ClientEvent::Unknown).unwrap();
    assert!(msgs.is_empty());
}

#[test]
fn started_and_stopped_notify_the_hub() {
    let s = session(Role::Trader);
    match s.started(7) {
        HubMsg::Join { handle, role, .. } => {
            assert_eq!(handle, 7);
            assert_eq!(role, Role::Trader);
        }
        _ => panic!("expected a join"),
    }
    match s.stopped(7) {
        HubMsg::Leave { handle, .. } => assert_eq!(handle, 7),
        _ => panic!("expected a leave"),
    }
}
