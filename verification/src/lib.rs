//! A terminal spinner: the state of single and multi-line spinners and the
//! exact text they write, with the rules that drive them.
//!
//! The library holds every decision a spinner makes: which frame comes
//! next, what a frame, a finalized line or a final redraw looks like, and
//! how a group of lines changes as lines are added, updated, finalized and
//! cleared. Writing that text to a terminal, sleeping between frames and
//! sharing the state between threads is left to the caller.
pub mod counts;
pub mod multi;
pub mod shared;
pub mod spelled;
pub mod spinner;

pub use multi::{LineStatus, MultiSpinner, MultiState, SpinnerLine, SpinnerLineHandle};
pub use shared::{Outcome, BLUE, CLEAR_LINE, GREEN, RED, RESET, YELLOW};
pub use spinner::{Spinner, SpinnerState};
