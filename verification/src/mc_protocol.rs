//! The Minecraft protocol: VarInt numbers, packet framing, and the dialog
//! with a server.

pub mod buffer;
pub mod connection;
pub mod dialog;
pub mod types;
