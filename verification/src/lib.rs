//! Verified core of the Yörü-K robot controller: the binary wire protocol,
//! stream framing, drive-input mixing and the controller state machine.

pub mod checksum;
pub mod types;
pub mod packet;
pub mod framing;
pub mod laws;
pub mod controls;
pub mod keyboard;
pub mod link;
pub mod input;
pub mod message;
pub mod state;
pub mod update;
pub mod tiles;
pub mod sender;
pub mod hotkeys;
pub mod camera;
pub mod redraw;
pub mod worker;
