//! A small lofi player library: track lists, track names, bookmarks and the
//! text layout of the terminal interface.
pub mod args;
pub mod bandcamp;
pub mod bookmark;
pub mod download;
pub mod downloader;
pub mod message;
pub mod player;
pub mod scrapers;
pub mod text;
pub mod volume;
pub mod tracks;
pub mod ui;

pub use args::{Args, Commands};
pub use message::Message;
