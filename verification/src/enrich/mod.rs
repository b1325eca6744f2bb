//! Metadata enrichment: filling in an application's identity from the
//! sources of truth on the system.

pub mod identity;
pub mod heroic;
pub mod lutris;
pub mod gog;
pub mod steam;
pub mod desktop;
pub mod pe;
pub mod context;
pub mod cascade;
