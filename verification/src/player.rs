//! The player's state, and how it answers each message.
use vstd::prelude::*;

use crate::downloader::Progress;
use crate::message::Message;
use crate::tracks::Info;

verus! {

/// What the player is playing, as far as it knows.
#[derive(Clone, Debug)]
pub enum Current {
    /// Waiting for a track; the progress of the download, when known.
    Loading(Option<Progress>),
    /// A decoded track, ready to play.
    Track(Info),
}

impl Default for Current {
    /// The player starts out loading, with no progress to show.
    fn default() -> (r: Self)
        ensures
            r matches Current::Loading(None),
    {
        Current::Loading(None)
    }
}

impl Current {
    /// Whether the player is waiting for a track.
    pub fn loading(&self) -> (r: bool)
        ensures
            r == (self is Loading),
    {
        match self {
            Current::Loading(_) => true,
            Current::Track(_) => false,
        }
    }
}

/// What the player does in answer to a message.
#[derive(PartialEq, Eq, Structural, Debug, Clone, Copy)]
pub enum Action {
    /// Nothing.
    Ignore,
    /// Stop the current track and take the next one from the downloader.
    Advance,
    /// Resume playback.
    Play,
    /// Pause playback.
    Pause,
    /// Change the volume by this many hundredths, within full volume, and
    /// show it.
    ChangeVolume(i32),
    /// Set the volume to this many hundredths, within full volume, and show
    /// it.
    SetVolume(u32),
    /// Toggle the bookmark of the playing track and show it.
    Bookmark,
    /// Stop the message loop.
    Quit,
}

/// The action that answers `message`, while the player is `loading` or
/// not and playback is `paused` or not.
pub open spec fn action_for(message: Message, loading: bool, paused: bool) -> Action {
    match message {
        Message::Next => if loading {
            Action::Ignore
        } else {
            Action::Advance
        },
        Message::End => if loading {
            Action::Ignore
        } else {
            Action::Advance
        },
        Message::Init => Action::Advance,
        Message::Loaded => Action::Advance,
        Message::Play => Action::Play,
        Message::Pause => Action::Pause,
        Message::PlayPause => if paused {
            Action::Play
        } else {
            Action::Pause
        },
        Message::ChangeVolume(c) => Action::ChangeVolume(c),
        Message::SetVolume(v) => Action::SetVolume(v),
        Message::Bookmark => if loading {
            Action::Ignore
        } else {
            Action::Bookmark
        },
        Message::Quit => Action::Quit,
    }
}

/// Decides how the player answers a message: a request for the next track
/// is dropped while one is loading, play-pause flips the playback state,
/// and a bookmark needs a track.
pub fn decide(message: Message, current: &Current, paused: bool) -> (r: Action)
    ensures
        r == action_for(message, current is Loading, paused),
{
    let loading = current.loading();
    match message {
        Message::Next | Message::End => if loading {
            Action::Ignore
        } else {
            Action::Advance
        },
        Message::Init | Message::Loaded => Action::Advance,
        Message::Play => Action::Play,
        Message::Pause => Action::Pause,
        Message::PlayPause => if paused {
            Action::Play
        } else {
            Action::Pause
        },
        Message::ChangeVolume(c) => Action::ChangeVolume(c),
        Message::SetVolume(v) => Action::SetVolume(v),
        Message::Bookmark => if loading {
            Action::Ignore
        } else {
            Action::Bookmark
        },
        Message::Quit => Action::Quit,
    }
}

/// Only a quit message stops the player, and a message never both stops
/// it and changes the track.
pub proof fn law_only_quit_stops(message: Message, loading: bool, paused: bool)
    ensures
        (action_for(message, loading, paused) == Action::Quit) <==> (message == Message::Quit),
        action_for(message, loading, paused) == Action::Advance ==> message != Message::Quit,
{
}

/// While a track loads, no message but the first one or a finished download
/// makes the player take another track.
pub proof fn law_no_skip_while_loading(message: Message, paused: bool)
    ensures
        action_for(message, true, paused) == Action::Advance <==> (message == Message::Init
            || message == Message::Loaded),
{
}

} // verus!
