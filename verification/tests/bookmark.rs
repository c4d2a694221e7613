use lowfi::bookmark::Bookmarks;
use lowfi::tracks::bookmark::{entry, toggle};
use lowfi::tracks::Info;

fn test_info(path: &str, display: &str) -> Info {
    Info {
        path: path.into(),
        display: display.into(),
        width: display.len(),
        duration: None,
    }
}

#[test]
fn toggle_and_check() {
    let mut bm = Bookmarks { entries: vec![] };
    let info = test_info("p.mp3", "Nice Track");

    assert!(!bm.bookmarked(&info));

    let added = bm.bookmark(&info).unwrap();
    assert!(added);
    assert!(bm.bookmarked(&info));

    let removed = bm.bookmark(&info).unwrap();
    assert!(!removed);
    assert!(!bm.bookmarked(&info));
}

#[test]
fn multiple_bookmarks() {
    let mut bm = Bookmarks { entries: vec![] };
    let info1 = test_info("track1.mp3", "Track One");
    let info2 = test_info("track2.mp3", "Track Two");

    bm.bookmark(&info1).unwrap();
    bm.bookmark(&info2).unwrap();

    assert!(bm.bookmarked(&info1));
    assert!(bm.bookmarked(&info2));
    assert_eq!(bm.entries.len(), 2);
}

#[test]
fn duplicate_bookmark_removes() {
    let mut bm = Bookmarks { entries: vec![] };
    let info = test_info("x.mp3", "X");

    bm.bookmark(&info).unwrap();
    let is_added = bm.bookmark(&info).unwrap();

    assert!(!is_added);
    assert!(bm.entries.is_empty());
}

#[test]
fn bookmarks_text_roundtrip() {
    let bm = Bookmarks { entries: vec!["a.mp3!A".to_owned(), "b.mp3".to_owned()] };
    let text = bm.to_text();
    let back = Bookmarks::from_text(&text);
    assert_eq!(back.entries, bm.entries);
}

#[test]
fn bookmarks_from_text_skips_header_and_blank_lines() {
    let bm = Bookmarks::from_text("noheader\na.mp3\n\n  b.mp3!B \n");
    assert_eq!(bm.entries, vec!["a.mp3".to_owned(), "  b.mp3!B".to_owned()]);
}

#[test]
fn bookmark_entry_with_and_without_name() {
    assert_eq!(entry("p.mp3", Some("Name")), "p.mp3!Name");
    assert_eq!(entry("p.mp3", None), "p.mp3");
}

#[test]
fn toggle_adds_then_removes() {
    let (text, now) = toggle("", "a.mp3");
    assert!(now);
    assert_eq!(text, "\na.mp3\n");
    let (text2, now2) = toggle(&text, "a.mp3");
    assert!(!now2);
    assert_eq!(text2, "\n\n");
}

#[test]
fn toggle_removes_every_copy() {
    let (text, now) = toggle("x\na.mp3\ny\na.mp3", "a.mp3");
    assert!(!now);
    assert_eq!(text, "\nx\ny\n");
}
