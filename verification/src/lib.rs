//! Per-session media playback queue coordinator for a chat-driven audio bot.
//!
//! The library holds, for each independent voice session, an ordered FIFO
//! queue of pending tracks. User commands append tracks; the external
//! playback engine's completion notifications remove the head. Pagination
//! turns a queue snapshot into display pages. All queue, pagination and
//! dispatch logic is verified; the chat gateway, the voice transport and the
//! metadata resolvers are external collaborators that hand this library plain
//! values and take plain values back.

pub mod handlers;
pub mod members;
pub mod pages;
pub mod pipeline;
pub mod queue;
pub mod session;
pub mod strutil;
pub mod track;
