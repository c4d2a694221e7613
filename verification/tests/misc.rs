use lowfi::downloader::{advance, queue_capacity};
use lowfi::text::number::parse_u64;
use lowfi::text::parts::{join_str, replace_str, split_lines, split_once_str, trim_end_matches_str};
use lowfi::volume::{Error, PersistentVolume};

#[test]
fn volume_from_file_text() {
    assert_eq!(PersistentVolume::from_contents("75\n").ok().unwrap().inner, 75);
    assert_eq!(PersistentVolume::from_contents(" 40% ").ok().unwrap().inner, 40);
    assert!(matches!(PersistentVolume::from_contents("abc"), Err(Error::Parse)));
    assert!(matches!(PersistentVolume::from_contents("70000"), Err(Error::Parse)));
    assert!(matches!(PersistentVolume::from_contents(""), Err(Error::Parse)));
    assert_eq!(PersistentVolume::full().inner, 100);
}

#[test]
fn volume_text_reads_back() {
    assert_eq!(PersistentVolume::text(57), "57");
    assert_eq!(PersistentVolume::text(0), "0");
    assert_eq!(PersistentVolume::text(100), "100");
    for p in [0u16, 9, 10, 100, 65535] {
        let text = PersistentVolume::text(p);
        assert_eq!(text, p.to_string());
        assert_eq!(PersistentVolume::from_contents(&text).ok().unwrap().inner, p);
    }
}

#[test]
fn parse_u64_like_std() {
    for s in ["0", "+7", "18446744073709551615", "18446744073709551616", "", "+", "-1", " 1", "1a", "007"] {
        assert_eq!(parse_u64(s), s.parse::<u64>().ok(), "{s}");
    }
}

#[test]
fn string_parts() {
    assert_eq!(replace_str("a/album/b/album/", "/album/", "/"), "a/b/");
    assert_eq!(split_once_str("a - b - c", " - "), Some(("a".to_owned(), "b - c".to_owned())));
    assert_eq!(split_once_str("abc", "x"), None);
    assert_eq!(trim_end_matches_str("x/music/music", "/music"), "x");
    assert_eq!(split_lines("a\r\nb\n\nc"), vec!["a".to_owned(), "b".to_owned(), "".to_owned(), "c".to_owned()]);
    assert_eq!(join_str(&["a".to_owned(), "b".to_owned()], ", "), "a, b");
    assert_eq!(join_str(&[], ", "), "");
}

#[test]
fn download_progress() {
    assert_eq!(advance(10, 5, 100), 15);
    assert_eq!(advance(98, 5, 100), 100);
    assert_eq!(queue_capacity(5), 4);
}
