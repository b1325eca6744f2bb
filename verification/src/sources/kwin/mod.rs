//! The KWin foreground-window source.

pub mod source;
pub mod transition;
