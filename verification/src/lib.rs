//! Real-time notification and presence fan-out core.
//!
//! This crate holds the verified heart of a social platform's live-update
//! subsystem: a process-local connection registry, a typing-indicator
//! register, TTL-bound presence tracking, per-user offline notification
//! queues, and the delivery engine that decides between an immediate push
//! and queueing for later. All state that in production lives on a shared
//! bus (TTL keys, sets, lists) is modelled here as explicit data with the
//! clock passed in, so every rule about expiry, ordering and delivery is
//! proved rather than assumed. The surrounding process (sockets, the bus
//! client, JSON framing) drives these types and performs the published
//! effects they return.

pub mod engine;
pub mod effects;
pub mod mirror;
pub mod models;
pub mod presence;
pub mod queue;
pub mod registry;
pub mod seqtools;
pub mod typing;
pub mod upload;
