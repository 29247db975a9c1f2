//! Core of a peer-to-peer item-trading marketplace: a room-scoped chat hub
//! that synchronizes presence, chat and offer lifecycle between a buyer and a
//! trader, a round-based offer ledger that diffs successive item proposals,
//! and a one-shot draft handoff consumed by the client-side trade flow.
//!
//! Transport (websockets, HTTP, persistence) lives outside this crate; the
//! types here speak in plain values and structured messages.

pub mod draft;
pub mod hub;
pub mod inventory;
pub mod items;
pub mod market;
pub mod messages;
pub mod offer;
pub mod room;
pub mod seqs;
pub mod session;
pub mod wire;
