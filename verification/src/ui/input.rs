//! The keys that the interface listens to, and the message each sends.
use vstd::prelude::*;

use crate::message::Message;
use crate::tracks::format::ascii_lower;

verus! {

/// A key press, as far as the player tells keys apart.
#[derive(Debug)]
pub enum Key {
    /// The up arrow.
    Up,
    /// The right arrow.
    Right,
    /// The down arrow.
    Down,
    /// The left arrow.
    Left,
    /// A character key.
    Char(char),
    /// A media key.
    Media(MediaKey),
    /// Any other key.
    Other,
}

/// A media key.
#[derive(Debug)]
pub enum MediaKey {
    /// Play.
    Play,
    /// Pause.
    Pause,
    /// Play or pause.
    PlayPause,
    /// Stop.
    Stop,
    /// Next track.
    TrackNext,
    /// Volume down.
    LowerVolume,
    /// Volume up.
    RaiseVolume,
    /// Mute.
    MuteVolume,
    /// Any other media key.
    Other,
}

/// The message that a character key sends, matched in lower case; with
/// `control`, `c` quits.
pub open spec fn char_message(c: char, control: bool) -> Option<Message> {
    let l = ascii_lower(c);
    if l == 'c' && control {
        Some(Message::Quit)
    } else if l == 'q' {
        Some(Message::Quit)
    } else if l == 's' || l == 'n' || l == 'l' {
        Some(Message::Next)
    } else if l == 'p' || l == ' ' {
        Some(Message::PlayPause)
    } else if l == '+' || l == '=' || l == 'k' {
        Some(Message::ChangeVolume(10i32))
    } else if l == '-' || l == '_' || l == 'j' {
        Some(Message::ChangeVolume(-10i32))
    } else if l == 'b' {
        Some(Message::Bookmark)
    } else {
        None
    }
}

/// The message that a key press sends, if any; releases send none.
pub open spec fn key_message_spec(key: Key, control: bool, release: bool) -> Option<Message> {
    if release {
        None
    } else {
        match key {
            Key::Up => Some(Message::ChangeVolume(10i32)),
            Key::Right => Some(Message::ChangeVolume(1i32)),
            Key::Down => Some(Message::ChangeVolume(-10i32)),
            Key::Left => Some(Message::ChangeVolume(-1i32)),
            Key::Char(c) => char_message(c, control),
            Key::Media(m) => match m {
                MediaKey::Pause | MediaKey::Play | MediaKey::PlayPause => Some(Message::PlayPause),
                MediaKey::Stop => Some(Message::Pause),
                MediaKey::TrackNext => Some(Message::Next),
                MediaKey::LowerVolume => Some(Message::ChangeVolume(-10i32)),
                MediaKey::RaiseVolume => Some(Message::ChangeVolume(10i32)),
                MediaKey::MuteVolume => Some(Message::ChangeVolume(-100i32)),
                MediaKey::Other => None,
            },
            Key::Other => None,
        }
    }
}

/// `char::to_ascii_lowercase`.
fn to_ascii_lower(c: char) -> (r: char)
    ensures
        r == ascii_lower(c),
{
    if 'A' <= c && c <= 'Z' {
        ((c as u8) + 32) as char
    } else {
        c
    }
}

/// The message that a key press sends, if any: arrows and `+`/`-` change
/// the volume, `s`/`n`/`l` skip, `p` and space pause, `b` bookmarks, `q`
/// and control-`c` quit, and media keys do what they say.
pub fn key_message(key: Key, control: bool, release: bool) -> (r: Option<Message>)
    ensures
        r == key_message_spec(key, control, release),
{
    if release {
        return None;
    }
    match key {
        Key::Up => Some(Message::ChangeVolume(10i32)),
        Key::Right => Some(Message::ChangeVolume(1i32)),
        Key::Down => Some(Message::ChangeVolume(-10i32)),
        Key::Left => Some(Message::ChangeVolume(-1i32)),
        Key::Char(c) => {
            let l = to_ascii_lower(c);
            if l == 'c' && control {
                Some(Message::Quit)
            } else if l == 'q' {
                Some(Message::Quit)
            } else if l == 's' || l == 'n' || l == 'l' {
                Some(Message::Next)
            } else if l == 'p' || l == ' ' {
                Some(Message::PlayPause)
            } else if l == '+' || l == '=' || l == 'k' {
                Some(Message::ChangeVolume(10i32))
            } else if l == '-' || l == '_' || l == 'j' {
                Some(Message::ChangeVolume(-10i32))
            } else if l == 'b' {
                Some(Message::Bookmark)
            } else {
                None
            }
        },
        Key::Media(m) => match m {
            MediaKey::Pause | MediaKey::Play | MediaKey::PlayPause => Some(Message::PlayPause),
            MediaKey::Stop => Some(Message::Pause),
            MediaKey::TrackNext => Some(Message::Next),
            MediaKey::LowerVolume => Some(Message::ChangeVolume(-10i32)),
            MediaKey::RaiseVolume => Some(Message::ChangeVolume(10i32)),
            MediaKey::MuteVolume => Some(Message::ChangeVolume(-100i32)),
            MediaKey::Other => None,
        },
        Key::Other => None,
    }
}

} // verus!
