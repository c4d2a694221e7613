use bytes::Bytes;
use lowfi::tracks::error::Kind;
use lowfi::tracks::format::{format_stem, name};
use lowfi::tracks::list::split_entry;
use lowfi::tracks::{Info, List, Queued};
use unicode_segmentation::UnicodeSegmentation;

#[test]
fn strips_master_patterns() {
    let n = name("cool_track_master.mp3").unwrap();
    assert_eq!(n, "Cool Track");
}

#[test]
fn strips_id_prefix() {
    let n = name("a1 cool beat.mp3").unwrap();
    assert_eq!(n, "Cool Beat");
}

#[test]
fn handles_all_numeric_name() {
    let n = name("12345.mp3").unwrap();
    assert_eq!(n, "12345");
}

#[test]
fn decodes_url() {
    let n = name("lofi%20track.mp3").unwrap();
    assert_eq!(n, "Lofi Track");
}

#[test]
fn handles_extension_only() {
    let n = name(".mp3").unwrap();
    assert!(!n.is_empty());
}

#[test]
fn handles_mixed_case() {
    let n = name("MyTrack_Master.mp3").unwrap();
    assert_eq!(n, "Mytrack");
}

#[test]
fn name_of_path_without_file_name_is_an_error() {
    let e = name("..").unwrap_err();
    assert!(matches!(e.kind, Kind::InvalidName));
    assert_eq!(e.track.as_deref(), Some(".."));
}

#[test]
fn format_stem_decodes_plus_as_space() {
    assert_eq!(format_stem("lofi+beat"), "Lofi Beat");
}

#[test]
fn queued_uses_custom_display() {
    let q = Queued::new(
        "path/to/file.mp3".into(),
        Bytes::from_static(b"abc"),
        Some("Shown".into()),
    )
    .unwrap();

    assert_eq!(q.display, "Shown");
    assert_eq!(q.path, "path/to/file.mp3");
}

#[test]
fn queued_generates_display_if_none() {
    let q = Queued::new("path/to/cool_track.mp3".into(), Bytes::from_static(b"abc"), None).unwrap();

    assert_eq!(q.display, name("path/to/cool_track.mp3").unwrap());
    assert_eq!(q.display, "Cool Track");
}

#[test]
fn to_entry_roundtrip() {
    let info = Info {
        path: "p.mp3".into(),
        display: "Nice Track".into(),
        width: 10,
        duration: None,
    };

    assert_eq!(info.to_entry(), "p.mp3!Nice Track");
    assert_eq!(split_entry(&info.to_entry()), ("p.mp3".to_owned(), Some("Nice Track".to_owned())));
}

#[test]
fn info_width_counts_graphemes() {
    let display = "a\u{310}e\u{301}";
    let width = display.graphemes(true).count();

    let info = Info::new(None, "x".into(), display.into()).unwrap();

    assert_eq!(info.width, width);
    assert_eq!(info.width, 2);
}

#[test]
fn list_base_works() {
    let text = "http://base/\ntrack1\ntrack2";
    let list = List::new("test", text, None);
    assert_eq!(list.header(), "http://base/");
}

#[test]
fn list_random_path_parses_custom_display() {
    let text = "http://x/\npath!Display";
    let list = List::new("t", text, None);

    let (p, d) = list.random_path(&mut fastrand::Rng::new());
    assert_eq!(p, "path");
    assert_eq!(d, Some("Display".into()));
}

#[test]
fn list_random_path_no_display() {
    let text = "http://x/\ntrackA";
    let list = List::new("t", text, None);

    let (p, d) = list.random_path(&mut fastrand::Rng::new());
    assert_eq!(p, "trackA");
    assert!(d.is_none());
}

#[test]
fn new_trims_lines() {
    let text = "base\na  \nb ";
    let list = List::new("name", text, None);

    assert_eq!(list.header(), "base");
    assert_eq!(list.lines[1], "a");
    assert_eq!(list.lines[2], "b");
}

#[test]
fn list_noheader_base() {
    let text = "noheader\nhttps://example.com/track.mp3";
    let list = List::new("test", text, None);
    assert_eq!(list.header(), "noheader");
}

#[test]
fn list_custom_display_with_exclamation() {
    let text = "http://base/\nfile.mp3!My Custom Name";
    let list = List::new("t", text, None);
    let (path, display) = list.random_path(&mut fastrand::Rng::new());
    assert_eq!(path, "file.mp3");
    assert_eq!(display, Some("My Custom Name".into()));
}

#[test]
fn list_single_track() {
    let text = "base\nonly_track.mp3";
    let list = List::new("name", text, None);
    let (path, _) = list.random_path(&mut fastrand::Rng::new());
    assert_eq!(path, "only_track.mp3");
}

#[test]
fn list_resolves_relative_and_full_tracks() {
    let list = List::new("t", "http://base/\na.mp3", None);
    assert_eq!(list.resolve("a.mp3"), "http://base/a.mp3");
    assert_eq!(list.resolve("https://other/b.mp3"), "https://other/b.mp3");
    assert_eq!(list.resolve("file:///music/c.mp3"), "file:///music/c.mp3");
    assert_eq!(list.resolve("x/y://z"), "http://base/x/y://z");
    assert_eq!(list.resolve("9p://q"), "http://base/9p://q");
    assert_eq!(list.resolve("://q"), "http://base/://q");
    assert_eq!(list.resolve("2023/06/Foudroie.mp3"), "http://base/2023/06/Foudroie.mp3");
}

#[test]
fn list_local_files() {
    assert_eq!(List::local_file("x", "http://a/b", None).is_none(), true);
    let home = List::local_file("~/m.mp3", "file://~/m.mp3", Some("/home/u")).unwrap().unwrap();
    assert_eq!(home, "/home/u/m.mp3");
    let plain = List::local_file("/m.mp3", "file:///m.mp3", None).unwrap().unwrap();
    assert_eq!(plain, "/m.mp3");
    let missing = List::local_file("~/m.mp3", "file://~/m.mp3", None).unwrap();
    assert!(matches!(missing.unwrap_err().kind, Kind::InvalidPath));
}

#[test]
fn list_from_file_drops_noheader_mark() {
    let list = List::from_file("mine", "/data/mine.txt", "noheader\na.mp3\nb.mp3", true).unwrap();
    assert_eq!(list.name, "mine");
    assert_eq!(list.lines, vec!["".to_owned(), "a.mp3".to_owned(), "b.mp3".to_owned()]);
    assert_eq!(list.path.as_deref(), Some("/data/mine.txt"));
}

#[test]
fn list_files_are_txt_but_not_settings() {
    assert!(List::is_list_file("mine.txt"));
    assert!(!List::is_list_file("volume.txt"));
    assert!(!List::is_list_file("bookmarks.txt"));
    assert!(!List::is_list_file("mine.json"));
}

#[test]
fn name_uses_the_last_path_segment() {
    assert_eq!(name("path/to/cool_track.mp3").unwrap(), format_stem("cool_track"));
    assert_eq!(
        name("https://lofigirl.com/wp-content/uploads/2023/06/Foudroie-Finding-The-Edge-V2.mp3").unwrap(),
        format_stem("Foudroie-Finding-The-Edge-V2")
    );
    assert!(matches!(name("").err().unwrap().kind, Kind::InvalidName));
    assert!(matches!(name("songs/..").err().unwrap().kind, Kind::InvalidName));
}

#[test]
fn name_follows_the_path_file_name() {
    assert_eq!(name("a/cool_track.mp3/").unwrap(), "Cool Track");
    assert_eq!(name("a/cool_track.mp3/.").unwrap(), "Cool Track");
    assert_eq!(name("./cool_track.mp3").unwrap(), "Cool Track");
    assert!(name("/").is_err());
    assert!(name(".").is_err());
    assert!(name("a/../").is_err());
}

#[test]
fn track_number_is_stripped_from_the_word() {
    assert_eq!(name("12 sunrise.mp3").unwrap(), "Sunrise");
    assert_eq!(name("3 remaster.mp3").unwrap(), "Remaster");
    assert_eq!(name("0042 x.mp3").unwrap(), "X");
}
