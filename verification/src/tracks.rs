//! Tracks: how they are named, listed and described.
//!
//! A raw entry of a track list is split into a path and an optional display
//! name; once downloaded, the track is a [`Queued`] track whose display name
//! may have been formatted from its path; once decoded, its [`Info`] records
//! the name's width and the track's duration.
use vstd::prelude::*;

pub mod cache;
pub mod error;
pub mod format;
pub mod list;
pub mod bookmark;
pub mod utils;

pub use error::{Error, Result};
pub use list::List;

use crate::text::{grapheme_count, spec_graphemes};
use format::{format_stem_spec, slash_file_stem, slash_separated};

verus! {

#[verifier::external_type_specification]
#[verifier::external_body]
pub struct ExBytes(bytes::Bytes);

/// A track waiting in the queue: its name, its path and its raw data.
pub struct Queued {
    /// Display name of the track.
    pub display: String,
    /// Full downloadable path or URL of the track.
    pub path: String,
    /// The raw, undecoded data of the track.
    pub data: bytes::Bytes,
}

impl Queued {
    /// Creates a queued track. Without a custom display name, the name is
    /// formatted from the path by [`format::name`].
    pub fn new(path: String, data: bytes::Bytes, display: Option<String>) -> (r: Result<Self>)
        ensures
            r matches Ok(q) ==> q.path == path && q.data == data,
            display matches Some(d) ==> (r matches Ok(q) && q.display == d),
            display is None && slash_separated(path@) ==> (r is Err <==> slash_file_stem(path@) is None),
            display is None && slash_separated(path@) && slash_file_stem(path@) is Some ==> (r matches Ok(
                q,
            ) && q.display@ == format_stem_spec(slash_file_stem(path@)->0)),
            display is None ==> (r matches Ok(q) ==> exists|stem: Seq<char>|
                q.display@ == #[trigger] format_stem_spec(stem)),
            r matches Err(e) ==> e.kind is InvalidName && (e.track matches Some(t) && t@ == path@),
    {
        let display = match display {
            None => match format::name(path.as_str()) {
                Ok(name) => name,
                Err(e) => return Err(e),
            },
            Some(custom) => custom,
        };
        Ok(Self { path, display, data })
    }
}

/// What the player knows of a decoded track.
#[derive(Clone, Debug)]
pub struct Info {
    /// The full downloadable path or URL of the track.
    pub path: String,
    /// The formatted display name.
    pub display: String,
    /// The width of the display name in the terminal, in grapheme clusters.
    pub width: usize,
    /// The duration of the track in whole seconds, when known.
    pub duration: Option<u64>,
}

/// The track-list entry of a track: its path, `!`, and its display name.
pub open spec fn entry_of(path: Seq<char>, display: Seq<char>) -> Seq<char> {
    path + seq!['!'] + display
}

/// Two infos describe the same track the same way.
pub open spec fn same_info(a: Info, b: Info) -> bool {
    a.path@ == b.path@ && a.display@ == b.display@ && a.width == b.width && a.duration == b.duration
}

impl Info {
    /// Converts the info back into a full track-list entry.
    pub fn to_entry(&self) -> (r: String)
        ensures
            r@ == entry_of(self.path@, self.display@),
    {
        let mut entry = self.path.clone();
        entry.append("!");
        entry.append(self.display.as_str());
        proof {
            reveal_strlit("!");
        }
        entry
    }

    /// A copy of the info.
    pub fn copy(&self) -> (r: Info)
        ensures
            same_info(r, *self),
    {
        Info {
            path: self.path.clone(),
            display: self.display.clone(),
            width: self.width,
            duration: self.duration,
        }
    }

    /// Creates the info of a decoded track from its duration (in whole
    /// seconds, when the decoder knows it), its path and its display name.
    pub fn new(duration: Option<u64>, path: String, display: String) -> (r: Result<Self>)
        ensures
            r matches Ok(i) && i.path == path && i.display == display && i.duration == duration
                && i.width == spec_graphemes(display@).len(),
    {
        let width = grapheme_count(display.as_str());
        Ok(Self { duration, width, path, display })
    }
}

} // verus!
