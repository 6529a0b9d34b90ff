//! Mirrors the messages of mapped threads into destination channels.
//!
//! The library decides; it neither sends nor fetches. It reads the mappings
//! of the configuration ([`config`]) into a registry ([`registry`]), reads
//! commands out of message bodies ([`command`]), renders messages
//! ([`render`], [`embed`], [`clock`]), and keeps the record of how a message
//! is sent ([`dispatch`]) and of how a history is replayed ([`backfill`]).
//! The engine ([`engine`]) takes in every message and says what becomes of it.
//! A program around the library does what the library asks for and reports
//! back how it went.

pub mod backfill;
pub mod clock;
pub mod command;
pub mod config;
pub mod dispatch;
pub mod embed;
pub mod endpoint;
pub mod engine;
pub mod error;
pub mod message;
pub mod registry;
pub mod render;
pub mod text;
