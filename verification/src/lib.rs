//! Giveaway lifecycle and conversation-state core.
//!
//! A promotional giveaway is created by an organizer, published to a
//! channel with a join control, joined by participants at most once each,
//! and finally drawn: a uniform sample of distinct winners is taken from
//! the participant list. This crate holds the verified core: the record
//! model, the field-to-value store it is persisted in, the lifecycle
//! operations, the participation gate, and the per-chat conversation
//! state machine. Transport and the remote store connection live outside.

pub mod clock;
pub mod draw;
pub mod errors;
pub mod gate;
pub mod ids;
pub mod lifecycle;
pub mod models;
pub mod payload;
pub mod render;
pub mod state;
pub mod store;
pub mod text;
