use crossterm::style::Stylize;
use lowfi::downloader::Progress;
use lowfi::player::Current;
use lowfi::tracks::Info;
use lowfi::ui::environment::{Environment, Step};
use lowfi::ui::input::{key_message, Key, MediaKey};
use lowfi::ui::interface::components::{
    action, audio_bar, controls, format_duration, progress_bar, ActionBar,
};
use lowfi::ui::interface::titlebar::TitleBar;
use lowfi::ui::interface::{menu, volume_bar_step, volume_timer_step, Params};
use lowfi::ui::window::Window;
use lowfi::Message;

#[test]
fn format_duration_works() {
    assert_eq!(format_duration(62), "01:02");
}

#[test]
fn format_duration_zero() {
    assert_eq!(format_duration(0), "00:00");
}

#[test]
fn format_duration_hours_wrap() {
    assert_eq!(format_duration(3661), "61:01");
}

#[test]
fn audio_bar_contains_percentage() {
    let s = audio_bar(5, "50%", 10);
    assert!(s.contains("50%"));
    assert!(s.starts_with(" volume:"));
    assert_eq!(s, " volume: [/////     ]  50% ");
}

#[test]
fn audio_bar_muted_volume() {
    let s = audio_bar(0, "0%", 8);
    assert!(s.contains("0%"));
    assert_eq!(s, " volume: [        ]   0% ");
}

#[test]
fn audio_bar_full_volume() {
    let s = audio_bar(10, "100%", 10);
    assert!(s.contains("100%"));
    assert_eq!(s, " volume: [//////////] 100% ");
}

#[test]
fn progress_bar_shows_times() {
    assert_eq!(progress_bar(0, 0, 0, 11), " [           ] 00:00/00:00 ");
    assert_eq!(progress_bar(0, 8, 0, 11), " [           ] 00:00/00:08 ");
    assert_eq!(progress_bar(61, 122, 3, 6), " [///   ] 01:01/02:02 ");
}

#[test]
fn controls_has_items() {
    let s = controls(30);
    assert!(s.contains("[s]"));
    assert!(s.contains("[p]"));
    assert!(s.contains("[q]"));
}

#[test]
fn controls_are_spaced_to_width() {
    let expected = format!("{}kip    {}ause    {}uit", "[s]".bold(), "[p]".bold(), "[q]".bold());
    assert_eq!(controls(27), expected);
    let even = format!("{}kip    {}ause    {}uit ", "[s]".bold(), "[p]".bold(), "[q]".bold());
    assert_eq!(controls(28), even);
}

#[test]
fn action_bar_loading_progress() {
    let bar = ActionBar::Loading(Some(50)).format(false, 27);
    assert_eq!(bar, format!("loading {}                ", "50%".bold()));
    let bar = ActionBar::Loading(Some(5)).format(false, 27);
    assert_eq!(bar, format!("loading {}                ", "5 %".bold()));
    let bar = ActionBar::Loading(Some(100)).format(false, 27);
    assert_eq!(bar, format!("loading {}                ", "99%".bold()));
}

#[test]
fn action_bar_track() {
    let track = Info {
        path: "/path".to_owned(),
        display: "Test Track".to_owned(),
        width: 4 + 1 + 5,
        duration: Some(8),
    };
    let bar = ActionBar::Playing(track.clone()).format(false, 27);
    assert_eq!(bar, format!("playing {}         ", track.display.clone().bold()));
    let paused = ActionBar::Paused(track.clone()).format(true, 27);
    assert_eq!(paused, format!("paused *{}         ", track.display.bold()));
}

#[test]
fn action_bar_muted() {
    let bar = ActionBar::Muted.format(false, 27);
    assert_eq!(bar, format!("muted, {}", "+ to increase volume".bold()));
}

#[test]
fn action_bar_truncates_long_names() {
    assert_eq!(ActionBar::truncate_with_ellipsis("abcdefgh", 6), "abc...");
    assert_eq!(ActionBar::truncate_with_ellipsis("abcdefgh", 2), "...");
    assert_eq!(ActionBar::truncate_with_ellipsis_padded("ab", 6), "ab ...");
    let long = Info {
        path: "/p".to_owned(),
        display: "A very long track name".to_owned(),
        width: 22,
        duration: None,
    };
    let bar = ActionBar::Playing(long).format(false, 20);
    assert_eq!(bar, format!("playing {}", "A very lo...".bold()));
}

#[test]
fn new_border_strings() {
    let w = Window::new(10, false);
    assert!(w.borders[0].starts_with('┌'));
    assert!(w.borders[1].starts_with('└'));

    let w2 = Window::new(5, true);
    assert!(w2.borders[0].is_empty());
    assert!(w2.borders[1].is_empty());
}

fn sided(text: &str) -> String {
    format!("│ {text} │")
}

#[test]
fn simple() {
    let w = Window::new(3, false);
    let (render, height) = w.render(vec![String::from("abc")], false, true).unwrap();

    const MIDDLE: &str = "─────";
    assert_eq!(format!("┌{MIDDLE}┐\n{}\n└{MIDDLE}┘", sided("abc")), render);
    assert_eq!(height, 3);
}

#[test]
fn spaced() {
    let w = Window::new(3, false);
    let (render, height) = w
        .render(vec![String::from("abc"), String::from(" b"), String::from("c")], true, true)
        .unwrap();

    const MIDDLE: &str = "─────";
    assert_eq!(
        format!("┌{MIDDLE}┐\n{}\n{}\n{}\n└{MIDDLE}┘", sided("abc"), sided(" b "), sided("c  "),),
        render
    );
    assert_eq!(height, 5);
}

#[test]
fn zero_width_window() {
    let w = Window::new(0, false);
    assert!(!w.borders[0].is_empty());
}

#[test]
fn window_display_in_top_border() {
    let mut w = Window::new(10, false);
    w.display("12:00", 5);
    assert_eq!(w.borders[0], format!("┌─ 12:00 {}─┐", "─".repeat(3)));
}

#[test]
fn titlebar_shows_text() {
    let mut t = TitleBar::new(12, false);
    t.display("lowfi");
    assert_eq!(t.rendered(), format!("┌─ lowfi {}─┐", "─".repeat(5)));
    t.empty();
    assert_eq!(t.rendered(), format!("┌{}┐", "─".repeat(14)));
}

#[test]
fn interface_window_renders_with_status_bar() {
    let w = lowfi::ui::interface::window::Window::new(3, false, false, false);
    let (render, height) = w.render(vec![String::from("abc")]).unwrap();
    assert_eq!(height, 3);
    assert!(render.ends_with("└─────┘"));
    assert!(render.contains("│ abc │"));
}

#[test]
fn keys_send_messages() {
    assert_eq!(key_message(Key::Char('Q'), false, false), Some(Message::Quit));
    assert_eq!(key_message(Key::Char('c'), true, false), Some(Message::Quit));
    assert_eq!(key_message(Key::Char('c'), false, false), None);
    assert_eq!(key_message(Key::Char('n'), false, false), Some(Message::Next));
    assert_eq!(key_message(Key::Char(' '), false, false), Some(Message::PlayPause));
    assert_eq!(key_message(Key::Char('+'), false, false), Some(Message::ChangeVolume(10)));
    assert_eq!(key_message(Key::Left, false, false), Some(Message::ChangeVolume(-1)));
    assert_eq!(key_message(Key::Media(MediaKey::MuteVolume), false, false), Some(Message::ChangeVolume(-100)));
    assert_eq!(key_message(Key::Media(MediaKey::Stop), false, false), Some(Message::Pause));
    assert_eq!(key_message(Key::Char('b'), false, true), None);
    assert_eq!(key_message(Key::Other, false, false), None);
}

#[test]
fn environment_steps() {
    assert_eq!(Environment::ready_steps(true), vec![Step::HideCursor, Step::EnterAlternateScreen, Step::EnableRawMode]);
    let (env, steps) = Environment::enhance(true, true);
    assert_eq!(steps, vec![Step::PushKeyboardEnhancement]);
    assert_eq!(
        env.cleanup_steps(true),
        vec![
            Step::LeaveAlternateScreen,
            Step::ClearAndShowCursor,
            Step::PopKeyboardEnhancement,
            Step::DisableRawMode,
            Step::SayBye
        ]
    );
    let plain = Environment { enhancement: false, alternate: false };
    assert_eq!(plain.cleanup_steps(false), vec![Step::ClearAndShowCursor, Step::DisableRawMode]);
}

#[test]
fn params_from_args() {
    let args = lowfi::Args {
        alternate: false,
        minimalist: true,
        borderless: false,
        clock: true,
        paused: false,
        fps: 12,
        timeout: 16,
        debug: false,
        width: 3,
        track_list: "chillhop".to_owned(),
        options: false,
        buffer_size: 5,
        command: None,
    };
    let delta = std::time::Duration::from_millis(83);
    let p = Params::from_args(&args, delta, false, false).ok().unwrap();
    assert_eq!(p.width, 27);
    assert!(p.minimalist && p.clock && p.enabled);
    assert_eq!(p.bar_widths(), (11, 10));
    assert!(Params::from_args(&args, delta, true, false).is_err());
    assert!(!Params::from_args(&args, delta, true, true).ok().unwrap().enabled);
    assert_eq!(Params::window_width(100), 85);
}

#[test]
fn menu_leaves_out_controls_when_minimalist() {
    let m = menu("a".into(), "b".into(), "c".into(), true);
    assert_eq!(m, vec!["a".to_owned(), "b".to_owned()]);
    let m = menu("a".into(), "b".into(), "c".into(), false);
    assert_eq!(m.len(), 3);
}

#[test]
fn volume_timer_counts_frames() {
    assert_eq!(volume_timer_step(0), (false, 0));
    assert_eq!(volume_timer_step(1), (true, 2));
    assert_eq!(volume_timer_step(10), (true, 11));
    assert_eq!(volume_timer_step(11), (true, 0));
}

#[test]
fn styling_writes_sgr_sequences() {
    assert_eq!(
        controls(19),
        "\x1b[1m[s]\x1b[0mkip\x1b[1m[p]\x1b[0mause\x1b[1m[q]\x1b[0muit"
    );
}

#[test]
fn volume_bar_shows_for_a_second() {
    assert_eq!(volume_bar_step(None), (false, false));
    assert_eq!(volume_bar_step(Some(0)), (true, true));
    assert_eq!(volume_bar_step(Some(1000)), (true, true));
    assert_eq!(volume_bar_step(Some(1001)), (true, false));
}

fn bold_controls() -> String {
    format!("{}kip    {}ause    {}uit", "[s]".bold(), "[p]".bold(), "[q]".bold())
}

/// The three lines of the menu for a state, 27 columns wide.
fn menu_for(current: &Current, middle: String) -> Vec<String> {
    let bar = action(current, false, false, 50).format(false, 27);
    menu(bar, middle, controls(27), false)
}

#[test]
fn loading() {
    let menu = menu_for(&Current::Loading(None), progress_bar(0, 0, 0, 11));
    assert_eq!(menu[0], "loading                    ");
    assert_eq!(menu[1], " [           ] 00:00/00:00 ");
    assert_eq!(menu[2], bold_controls());
}

#[test]
fn volume() {
    let menu = menu_for(&Current::Loading(None), audio_bar(5, "50%", 10));
    assert_eq!(menu[0], "loading                    ");
    assert_eq!(menu[1], " volume: [/////     ]  50% ");
    assert_eq!(menu[2], bold_controls());
}

#[test]
fn progress() {
    let menu = menu_for(&Current::Loading(Some(Progress::new())), progress_bar(0, 0, 0, 11));
    assert_eq!(menu[0], format!("loading {}                ", "50%".bold()));
    assert_eq!(menu[1], " [           ] 00:00/00:00 ");
    assert_eq!(menu[2], bold_controls());
}

#[test]
fn track() {
    let track = Info {
        path: "/path".to_owned(),
        display: "Test Track".to_owned(),
        width: 4 + 1 + 5,
        duration: Some(8),
    };
    let menu = menu_for(&Current::Track(track.clone()), progress_bar(0, 8, 0, 11));
    assert_eq!(menu[0], format!("playing {}         ", track.display.bold()));
    assert_eq!(menu[1], " [           ] 00:00/00:08 ");
    assert_eq!(menu[2], bold_controls());
}
