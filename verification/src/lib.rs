//! Steam Cloud and achievement synchronization for the saves of The Binding of Isaac:
//! Repentance on iOS.
//!
//! The library decides and computes; files, the network and the clock of the device stay with
//! its caller, which hands in what it read and carries out what is decided.
// Foundations.
pub mod bytes;
pub mod clock;
pub mod digest;
pub mod ids;
pub mod order;
pub mod text;
pub mod text_laws;
// The save format.
pub mod isaac_crc;
pub mod isaac_crc_laws;
pub mod isaac_format;
pub mod isaac_format_laws;
pub mod isaac_layout;
pub mod lz4;
pub mod lz4_blocks;
pub mod lz4_laws;
pub mod save_achievements;
pub mod save_positions;
// The saves of the device.
pub mod discovery;
pub mod discovery_laws;
pub mod local;
pub mod model;
pub mod reading_laws;
pub mod slots;
pub mod stable_read;
// The saves on Steam.
pub mod archive;
pub mod cloud;
pub mod cloud_laws;
pub mod transfer;
pub mod transfer_laws;
pub mod upload;
// Synchronization.
pub mod engine;
pub mod exchange;
pub mod exchange_laws;
pub mod force;
pub mod lookup_laws;
pub mod message_laws;
pub mod pull;
pub mod push;
pub mod push_laws;
pub mod report;
pub mod slot_sync;
pub mod slot_sync_laws;
pub mod state_laws;
pub mod status;
pub mod sync_engine;
pub mod sync_state;
// Achievements.
pub mod achievement_plan;
pub mod achievements;
pub mod achievements_laws;
pub mod kv;
pub mod kv_laws;
pub mod unlock_sync;
