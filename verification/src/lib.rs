//! Verified core logic of the Pumpkin Minecraft server: experience math,
//! protocol encoding, plugin API versioning, tick bookkeeping and structure
//! layout rules.

pub mod codec;
pub mod experience;
pub mod handshake;
pub mod leak_detector;
pub mod math;
pub mod native_loader;
pub mod plugin_api;
pub mod plugin_metadata;
pub mod scheduler;
pub mod ticker;
pub mod serverbound;
pub mod structures;
