//! Game-lifecycle sources.

pub mod kwin;
pub mod steam;
