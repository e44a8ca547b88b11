//! A room-based chat relay: the wire framing of the binary transport, the
//! command language of the text transport, the per-connection session state
//! machines and the broker that owns rooms and session records.
//!
//! Everything here is pure decision logic. The runtime around it moves bytes
//! and messages; it feeds events in and carries the returned actions out.

pub mod chat_server;
pub mod codec;
pub mod command;
pub mod history;
pub mod session;
pub mod text;
pub mod ws_session;
