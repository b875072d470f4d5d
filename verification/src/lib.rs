//! Core of a single-room group chat service: the shared state registry with its
//! sessions, abuse guards and moderation rules, and the plan by which state
//! changes are fanned out to live connections.
//!
//! Everything here works on plain values. Network, disk and mail stay with the
//! caller, which feeds requests in and carries replies, saves and deliveries out.

pub mod accounts;
pub mod admin;
pub mod api;
pub mod chat;
pub mod clock;
pub mod guard;
pub mod laws;
pub mod models;
pub mod moderation;
pub mod policy;
pub mod seqs;
pub mod sessions;
pub mod state;
pub mod store;
pub mod text;
pub mod trusted;
pub mod users;
pub mod websocket;
