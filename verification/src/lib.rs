//! Verified core of a launcher-agnostic playtime tracker for Linux.

pub mod text;
pub mod key;
pub mod vdf;
pub mod paths;
pub mod clock;
pub mod idle;
pub mod sleep;
pub mod idle_wayland;
pub mod session;
pub mod api;
pub mod enrich;
pub mod proc;
pub mod gate;
pub mod config;
pub mod sources;
