//! Verified core of a Minecraft server scanner: the wire protocol (VarInt,
//! packet framing, the connection dialog), the conversion of scan results,
//! and the work splitting of the job manager.

pub mod net;
pub mod data_core;
pub mod manager;
pub mod ids;
pub mod mc_protocol;
pub mod time;
