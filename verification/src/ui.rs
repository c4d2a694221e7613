//! The text of the terminal interface: its window, title bar and the
//! components drawn inside it.
use vstd::prelude::*;

pub mod environment;
pub mod input;
pub mod interface;
pub mod style;
pub mod window;

pub use environment::Environment;
pub use interface::Params;

verus! {

/// Errors of the interface's text layout.
#[derive(Debug)]
pub enum Error {
    /// A number did not fit the terminal's integer type.
    Conversion(std::num::TryFromIntError),
    /// Writing to the terminal failed.
    Write(std::io::Error),
    /// The interface cannot be turned off without another front end.
    RejectedDisable,
}

/// A change of state that the player sends to the interface.
#[derive(Clone, Debug)]
pub enum Update {
    /// The current track changed.
    Track(crate::player::Current),
    /// The current track was bookmarked or unbookmarked.
    Bookmarked(bool),
    /// The volume changed.
    Volume,
    /// The player is quitting.
    Quit,
}

} // verus!
