//! A version-aware network protocol core for a block-based multiplayer game
//! server, together with the palette-compressed chunk storage engine that
//! feeds its chunk encoders.
//!
//! The crate is organised leaves-first:
//! - [`blocks`] and [`palette`] hold the block state type and the
//!   value-to-index palette primitive;
//! - [`chunks`] holds the chunk column / section storage engine;
//! - [`wire`] holds the primitive wire encodings (variable-length integers,
//!   bounded byte strings, fixed-width big-endian integers);
//! - [`packets`] declares the logical packet kinds, field layouts and field
//!   values, with the field-sequence codec;
//! - [`table`] is the protocol version table: per packet kind, which
//!   protocol versions use which opcode and layout;
//! - [`codec`] is the generic packet encoder/decoder driven by the table,
//!   with the round-trip proof;
//! - [`specs`] holds the version-agnostic transfer objects from which the
//!   version-specific wire fields are derived by pure conversion;
//! - [`connection`] holds per-connection handler state and the packet
//!   handlers (keep-alive, client settings);
//! - [`config`] holds the typed settings objects and protocol version
//!   gating.

pub mod blocks;
pub mod palette;
pub mod chunks;
pub mod wire;
pub mod packets;
pub mod table;
pub mod codec;
pub mod connection;
pub mod config;
pub mod specs;
