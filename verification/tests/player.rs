use lowfi::downloader::Progress;
use lowfi::message::Message;
use lowfi::player::{decide, Action, Current};
use lowfi::tracks::Info;

fn test_info(path: &str, display: &str) -> Info {
    Info {
        path: path.into(),
        display: display.into(),
        width: display.len(),
        duration: Some(180),
    }
}

#[test]
fn default_is_loading() {
    let c = Current::default();
    assert!(c.loading());
}

#[test]
fn track_is_not_loading() {
    let info = test_info("x.mp3", "Track X");
    let c = Current::Track(info);
    assert!(!c.loading());
}

#[test]
fn loading_without_progress() {
    let c = Current::Loading(None);
    assert!(c.loading());
}

#[test]
fn current_clone_works() {
    let info = test_info("p.mp3", "P");
    let c1 = Current::Track(info);
    let c2 = c1.clone();
    assert!(!c2.loading());
}

#[test]
fn loading_with_progress_is_loading() {
    let c = Current::Loading(Some(Progress::new()));
    assert!(c.loading());
}

#[test]
fn next_is_ignored_while_loading() {
    let loading = Current::Loading(None);
    let playing = Current::Track(test_info("a.mp3", "A"));
    assert_eq!(decide(Message::Next, &loading, false), Action::Ignore);
    assert_eq!(decide(Message::Next, &playing, false), Action::Advance);
    assert_eq!(decide(Message::Init, &loading, false), Action::Advance);
    assert_eq!(decide(Message::Loaded, &loading, true), Action::Advance);
}

#[test]
fn play_pause_flips() {
    let playing = Current::Track(test_info("a.mp3", "A"));
    assert_eq!(decide(Message::PlayPause, &playing, true), Action::Play);
    assert_eq!(decide(Message::PlayPause, &playing, false), Action::Pause);
    assert_eq!(decide(Message::Play, &playing, false), Action::Play);
    assert_eq!(decide(Message::Pause, &playing, true), Action::Pause);
}

#[test]
fn bookmark_needs_a_track() {
    let loading = Current::Loading(None);
    let playing = Current::Track(test_info("a.mp3", "A"));
    assert_eq!(decide(Message::Bookmark, &loading, false), Action::Ignore);
    assert_eq!(decide(Message::Bookmark, &playing, false), Action::Bookmark);
}

#[test]
fn volume_and_quit_messages() {
    let c = Current::Loading(None);
    assert_eq!(decide(Message::ChangeVolume(-10), &c, false), Action::ChangeVolume(-10));
    assert_eq!(decide(Message::SetVolume(50), &c, false), Action::SetVolume(50));
    assert_eq!(decide(Message::Quit, &c, false), Action::Quit);
}
