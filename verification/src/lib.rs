//! Lazy enumeration of every contiguous sub-window of a character
//! sequence, in triangular order: all windows of width 1 from left to
//! right, then all windows of width 2, and so on, optionally cut off at
//! a maximum width.

pub mod counting;
pub mod sequencer;

pub use crate::counting::row_len;
pub use crate::counting::windows_through;
pub use crate::sequencer::Gradient;
