//! Receive-only decoder for eBUS traffic tunnelled through an adapter's
//! byte-escaping framing.
//!
//! Raw bytes are deframed into logical bus bytes, assembled into telegrams by a
//! state machine that validates lengths and checksums, and finally matched
//! against a catalog of message definitions to extract named field values.

pub mod crc8;
pub mod hexfmt;
pub mod telegram;
pub mod deframer;
pub mod machine;
pub mod parser;
pub mod pattern;
pub mod catalog;
pub mod record;
pub mod mapper;
pub mod exchange;
pub mod log;
