use lowfi::scrapers::chillhop::{
    list_tracks, order_releases, release_index, release_json, release_links, track_from_record,
    Release, Track,
};
use lowfi::scrapers::lofigirl::{listing_links, mp3_files, year_of, years};
use lowfi::scrapers::{answer, cache_path, is_cached, page_address, trim_slashes_str, Answer, Source};

fn chill_track(id: u32, title: &str, artists: &str) -> Track {
    Track { title: title.into(), file_id: id, artists: artists.into() }
}

#[test]
fn sources() {
    assert_eq!(Source::Chillhop.cache_dir(), "chillhop");
    assert_eq!(Source::Lofigirl.cache_dir(), "lofigirl");
    assert_eq!(Source::Archive.url(), "https://ia601004.us.archive.org/31/items/lofigirl");
    assert_eq!(Source::Chillhop.url(), "https://chillhop.com");
}

#[test]
fn page_paths() {
    assert_eq!(trim_slashes_str("//a/b//"), "a/b");
    assert_eq!(cache_path(Source::Chillhop, "/releases/?page=1/"), "./cache/chillhop/releases/?page=1.html");
    assert_eq!(page_address(Source::Lofigirl, "2023/"), "https://lofigirl.com/wp-content/uploads/2023");
}

#[test]
fn answers() {
    assert_eq!(answer(429), Answer::RateLimited);
    assert_eq!(answer(500), Answer::Failed(500));
    assert_eq!(answer(301), Answer::Redirect);
    assert_eq!(answer(404), Answer::NotFound);
    assert_eq!(answer(200), Answer::Success);
    assert!(is_cached(Answer::NotFound));
    assert!(!is_cached(Answer::RateLimited));
}

#[test]
fn chillhop_track_list() {
    let r1 = Release::new("a".into(), release_index(0, 1), vec![chill_track(1, "One", "X"), chill_track(2, "Two &amp; Co", "Y")]);
    assert_eq!(r1.tracks[0].file_id, 2);
    let r2 = Release::new("b".into(), release_index(1, 0), vec![chill_track(1, "Dup", "X"), chill_track(74707, "Ignored", "X"), chill_track(3, "Kenji song", "Kenji")]);
    assert_eq!(r2.index, 12);
    let ordered = order_releases(vec![r1, r2]);
    assert_eq!(ordered[0].index, 12);
    let listed = list_tracks(ordered);
    assert_eq!(listed, vec![(1, "Dup".to_owned()), (2, "Two & Co".to_owned())]);
}

#[test]
fn chillhop_orders_equal_indices_later_first() {
    let a = Release::new("a".into(), 5, vec![]);
    let b = Release::new("b".into(), 5, vec![]);
    let c = Release::new("c".into(), 7, vec![]);
    let o = order_releases(vec![a, b, c]);
    let paths: Vec<&str> = o.iter().map(|r| r.path.as_str()).collect();
    assert_eq!(paths, vec!["c", "b", "a"]);
}

#[test]
fn chillhop_track_clean() {
    let mut t = chill_track(1, "A &amp; B", "C &lt;3");
    t.clean();
    assert_eq!(t.title, "A & B");
    assert_eq!(t.artists, "C <3");
}

#[test]
fn lofigirl_directories() {
    assert_eq!(year_of("2021/"), Some(2021));
    assert_eq!(year_of("2021"), None);
    assert_eq!(year_of("abc/"), None);
    let entries: Vec<String> = vec!["2020/".into(), "../".into(), "2019/".into(), "x.mp3".into()];
    assert_eq!(years(&entries), vec![2020, 2019]);
    let files: Vec<String> = vec!["a.mp3".into(), "b.txt".into()];
    assert_eq!(mp3_files("2020/01/", &files), vec!["2020/01/a.mp3".to_owned()]);
}

#[test]
fn release_page_record_and_links() {
    let page = r#"<html><body><p>x</p><textarea>{"tracks":[]}</textarea><textarea>no</textarea></body></html>"#;
    assert_eq!(release_json(page).as_deref(), Some(r#"{"tracks":[]}"#));
    assert_eq!(release_json("<html><body></body></html>"), None);

    let list = r#"<html><body><div class="table-body"><a href="/r/1"><label>Album</label></a><a href="/r/2"><label>Compilation</label></a><a><label>EP</label></a><a href="/r/4"></a><a href="/r/5"><label>Single</label></a></div></body></html>"#;
    let links = release_links(list, 2).unwrap();
    assert_eq!(links, vec![("/r/1".to_owned(), 24), ("/r/5".to_owned(), 28)]);
    assert!(release_links(list, usize::MAX / 12).is_none());

    let t = track_from_record("Song".into(), "74707", "A".into()).unwrap();
    assert_eq!(t.file_id, 74707);
    assert!(track_from_record("Song".into(), "x1", "A".into()).is_none());
    assert!(track_from_record("Song".into(), "4294967296", "A".into()).is_none());
}

#[test]
fn directory_listing_skips_the_first_five_links() {
    let page = r#"<html><body><pre><a href="?C=N">n</a><a href="?C=M">m</a><a href="?C=S">s</a><a href="?C=D">d</a><a href="../">up</a><a href="2023/">2023</a><a href="a.mp3">a</a></pre></body></html>"#;
    assert_eq!(listing_links(page).unwrap(), vec!["2023/".to_owned(), "a.mp3".to_owned()]);
    let broken = r#"<html><body><pre><a href="1"></a><a href="2"></a><a href="3"></a><a href="4"></a><a href="5"></a><a>x</a></pre></body></html>"#;
    assert!(listing_links(broken).is_none());
    assert_eq!(listing_links("<html><body></body></html>").unwrap(), Vec::<String>::new());
}
