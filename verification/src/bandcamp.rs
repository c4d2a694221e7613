//! Bandcamp discographies: what an artist's page lists, and the tracks of
//! each album.
pub mod album;
pub mod discography;
pub mod dom;
pub mod page;
pub mod pattern;

pub use discography::{DiscographyItem, DiscographyParser, TrackInfo};
