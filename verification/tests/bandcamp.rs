use lowfi::bandcamp::album::{AlbumError, ArtistField, TralbumTrack};
use lowfi::bandcamp::discography::FetchStep;
use lowfi::bandcamp::page::{
    find_url, insert_item, insert_new_item, without_excluded, ClientItem, JsonLd, PageError,
};
use lowfi::bandcamp::{DiscographyItem, DiscographyParser, TrackInfo};

fn item(kind: &str, id: Option<u64>, url: &str) -> DiscographyItem {
    DiscographyItem {
        item_type: kind.to_owned(),
        id,
        name: format!("name of {url}"),
        url: url.to_owned(),
        image_url: None,
        tracks: None,
    }
}

#[test]
fn excluded_album_is_recognised() {
    assert!(lowfi::bandcamp::discography::is_album_excluded(&item("album", Some(846504073), "u")));
    assert!(!lowfi::bandcamp::discography::is_album_excluded(&item("album", Some(1), "u")));
    assert!(!lowfi::bandcamp::discography::is_album_excluded(&item("album", None, "u")));
}

#[test]
fn normalize_url_cases() {
    let base = "https://artist.bandcamp.com/music";
    assert_eq!(DiscographyParser::normalize_url("/album/x", base), "https://artist.bandcamp.com/album/x");
    assert_eq!(DiscographyParser::normalize_url("//f4.bcbits.com/a.jpg", base), "https://f4.bcbits.com/a.jpg");
    assert_eq!(DiscographyParser::normalize_url("http://x.com/y", base), "http://x.com/y");
    assert_eq!(DiscographyParser::normalize_url("rel", "https://a.com///"), "https://a.com/rel");
}

#[test]
fn normalize_text_collapses_lines() {
    assert_eq!(DiscographyParser::normalize_text("  Hello \n\n  World \r\n"), "Hello World");
    assert_eq!(DiscographyParser::normalize_text("\n \n"), "");
}

#[test]
fn music_url_cases() {
    assert_eq!(DiscographyParser::music_url("https://a.bandcamp.com/"), "https://a.bandcamp.com/music");
    assert_eq!(DiscographyParser::music_url("https://a.bandcamp.com/music/"), "https://a.bandcamp.com/music");
    assert_eq!(DiscographyParser::music_url("https://a.bandcamp.com/album/x"), "https://a.bandcamp.com/album/x");
}

#[test]
fn limit_albums_keeps_first_albums_and_all_tracks() {
    let items = vec![item("album", None, "a1"), item("track", None, "t1"), item("album", None, "a2"), item("album", None, "a3")];
    let kept = DiscographyParser::limit_albums(items.clone(), Some(1));
    let urls: Vec<&str> = kept.iter().map(|i| i.url.as_str()).collect();
    assert_eq!(urls, vec!["a1", "t1"]);
    assert_eq!(DiscographyParser::limit_albums(items.clone(), Some(0)).len(), 4);
    assert_eq!(DiscographyParser::limit_albums(items, None).len(), 4);
}

#[test]
fn track_source_urls_lists_albums_then_tracks() {
    let items = vec![item("track", None, "t1"), item("album", None, "a1"), item("other", None, "o"), item("album", None, "a2")];
    assert_eq!(DiscographyParser::track_source_urls(&items), vec!["a1".to_owned(), "a2".to_owned(), "t1".to_owned()]);
}

#[test]
fn fetch_steps() {
    assert_eq!(DiscographyParser::fetch_step(1, 429), FetchStep::Retry);
    assert_eq!(DiscographyParser::fetch_step(5, 429), FetchStep::RateLimited);
    assert_eq!(DiscographyParser::fetch_step(1, 404), FetchStep::Failed);
    assert_eq!(DiscographyParser::fetch_step(2, 200), FetchStep::Done);
    assert_eq!(DiscographyParser::failure_word("Rate limited by Bandcamp"), "WARNING");
    assert_eq!(DiscographyParser::failure_word("HTTP error 500"), "ERROR");
}

#[test]
fn set_tracks_gives_tracks_to_first_match() {
    let mut items = vec![item("album", None, "a"), item("album", None, "b"), item("album", None, "b")];
    let tracks = vec![TrackInfo { name: "n".into(), url: "u".into(), artist: None }];
    DiscographyParser::set_tracks(&mut items, "b", tracks);
    assert!(items[0].tracks.is_none());
    assert_eq!(items[1].tracks.as_ref().unwrap().len(), 1);
    assert!(items[2].tracks.is_none());
}

#[test]
fn items_are_kept_by_url() {
    let mut items = Vec::new();
    insert_item(&mut items, item("album", Some(1), "a"));
    insert_item(&mut items, item("track", Some(2), "b"));
    insert_item(&mut items, item("track", Some(3), "a"));
    assert_eq!(items.len(), 2);
    assert_eq!(items[0].id, Some(3));
    assert!(!insert_new_item(&mut items, item("album", Some(4), "b")));
    assert!(insert_new_item(&mut items, item("album", Some(846504073), "c")));
    assert_eq!(find_url(&items, "c"), Some(2));
    assert_eq!(find_url(&items, "z"), None);
    let kept = without_excluded(items);
    assert_eq!(kept.len(), 2);
}

#[test]
fn json_ld_items() {
    let data = JsonLd {
        ld_type: Some("MusicAlbum".into()),
        name: None,
        url: Some("/album/x".into()),
        image: Some("//img".into()),
    };
    let it = DiscographyParser::parse_json_ld(&data, "https://a.com/music").ok().unwrap().unwrap();
    assert_eq!(it.item_type, "album");
    assert_eq!(it.name, "Unknown");
    assert_eq!(it.url, "https://a.com/album/x");
    assert_eq!(it.image_url.as_deref(), Some("https://img"));
    let rec = JsonLd { ld_type: Some("MusicRecording".into()), name: Some("S".into()), url: None, image: None };
    let it = DiscographyParser::parse_json_ld(&rec, "https://a.com").ok().unwrap().unwrap();
    assert_eq!(it.item_type, "track");
    assert_eq!(it.url, "https://a.com");
    let other = JsonLd { ld_type: Some("Thing".into()), name: None, url: None, image: None };
    assert_eq!(DiscographyParser::parse_json_ld(&other, "u").ok().unwrap().unwrap().item_type, "unknown");
    let missing = JsonLd { ld_type: None, name: None, url: None, image: None };
    assert!(matches!(DiscographyParser::parse_json_ld(&missing, "u"), Err(PageError::MissingType)));
}

#[test]
fn client_items() {
    let c = ClientItem {
        item_type: Some("album".into()),
        page_url: Some("/album/y".into()),
        title: Some("Y".into()),
        art_id: Some(42),
        id: Some(7),
    };
    let it = DiscographyParser::client_item(&c, "https://a.com").unwrap();
    assert_eq!(it.url, "https://a.com/album/y");
    assert_eq!(it.image_url.as_deref(), Some("https://f4.bcbits.com/img/a42_9.jpg"));
    assert_eq!(it.id, Some(7));
    let bad = ClientItem { item_type: Some("band".into()), page_url: Some("/x".into()), title: Some("X".into()), art_id: None, id: None };
    assert!(DiscographyParser::client_item(&bad, "https://a.com").is_none());
    let mut items = Vec::new();
    DiscographyParser::extract_data_client_items(&[c, bad], "https://a.com", &mut items);
    assert_eq!(items.len(), 1);
}

#[test]
fn ids_images_and_titles() {
    assert_eq!(DiscographyParser::extract_id(Some("album-123"), &[]), Some(123));
    assert_eq!(DiscographyParser::extract_id(Some("nothing"), &["track-9".to_owned()]), Some(9));
    assert_eq!(DiscographyParser::extract_id(None, &["x".to_owned(), "album-5".to_owned()]), Some(5));
    assert_eq!(DiscographyParser::extract_id(None, &[]), None);
    assert_eq!(
        DiscographyParser::extract_image_url(Some("https://f4.bcbits.com/img/a1_10.jpg"), Some("s")),
        Some("https://f4.bcbits.com/img/a1_9.jpg".to_owned())
    );
    assert_eq!(DiscographyParser::extract_image_url(None, Some("a.png")), Some("a.png".to_owned()));
    assert_eq!(DiscographyParser::extract_image_url(None, None), None);
    assert_eq!(DiscographyParser::extract_title(None), "Unknown");
    assert_eq!(DiscographyParser::extract_title(Some("\n  Album  \n")), "Album");
}

const PAGE: &str = r#"<html><body>
<ol data-client-items="[{&quot;type&quot;:&quot;album&quot;,&quot;page_url&quot;:&quot;/album/one&quot;,&quot;title&quot;:&quot;One&quot;,&quot;id&quot;:1}]"></ol>
<ul id="discography">
<li data-item-id="album-2"><a href="/album/two"><img src="https://f4.bcbits.com/img/a2_10.jpg"><p class="title">
 Two </p></a></li>
<li data-item-id="track-3"><a href="/track/three"><p class="title">Three</p></a></li>
<li data-item-id="album-846504073"><a href="/album/vocals"><p class="title">Vocals</p></a></li>
</ul>
</body></html>"#;

#[test]
fn discography_page_items() {
    assert!(!DiscographyParser::is_single_page_html(PAGE));
    assert!(DiscographyParser::is_single_page_html("<html><body></body></html>"));
    let json = DiscographyParser::client_items_json(PAGE).unwrap();
    assert!(json.contains("\"page_url\":\"/album/one\""));
    let albums = DiscographyParser::page_links(PAGE, "a[href*='/album/']");
    assert_eq!(albums.len(), 2);
    assert_eq!(albums[0].href.as_deref(), Some("/album/two"));
    assert_eq!(albums[0].parent_item_id.as_deref(), Some("album-2"));
    assert_eq!(albums[0].listed_item_ids, vec!["album-2".to_owned()]);
    let client = vec![ClientItem {
        item_type: Some("album".into()),
        page_url: Some("/album/one".into()),
        title: Some("One".into()),
        art_id: None,
        id: Some(1),
    }];
    let items = DiscographyParser::parse_discography_items(PAGE, "https://a.com", &client);
    let urls: Vec<&str> = items.iter().map(|i| i.url.as_str()).collect();
    assert_eq!(urls, vec!["https://a.com/album/one", "https://a.com/album/two", "https://a.com/track/three"]);
    assert_eq!(items[1].id, Some(2));
    assert_eq!(items[1].name, "Two");
    assert_eq!(items[1].image_url.as_deref(), Some("https://f4.bcbits.com/img/a2_9.jpg"));
    assert_eq!(items[2].item_type, "track");
    assert_eq!(items[2].id, Some(3));
}

#[test]
fn single_item_page_records() {
    let html = r#"<html><head><script type="application/ld+json">{"@type":"MusicAlbum"}</script></head></html>"#;
    assert_eq!(DiscographyParser::ld_json_texts(html), vec![r#"{"@type":"MusicAlbum"}"#.to_owned()]);
}

#[test]
fn artist_and_title_normalization() {
    assert_eq!(
        DiscographyParser::normalize_artist_title("Lofi Girl", "Song by Someone", None),
        ("Lofi Girl".to_owned(), "Song".to_owned())
    );
    assert_eq!(
        DiscographyParser::normalize_artist_title("Various Artists", "Artist A - Title", None),
        ("Artist A".to_owned(), "Title".to_owned())
    );
    let band = "Band X".to_owned();
    assert_eq!(
        DiscographyParser::normalize_artist_title("Band", "Tune ft. Guest", Some(&band)),
        ("Band X ft. Guest".to_owned(), "Tune".to_owned())
    );
    assert_eq!(
        DiscographyParser::normalize_artist_title("  ", "Song", None),
        ("Lofi Girl".to_owned(), "Song".to_owned())
    );
    let various = "VARIOUS".to_owned();
    assert_eq!(
        DiscographyParser::normalize_artist_title("Various", "Plain", Some(&various)),
        ("Lofi Girl".to_owned(), "Plain".to_owned())
    );
    assert_eq!(
        DiscographyParser::extract_featured_artist("Song FEAT. X"),
        ("Song".to_owned(), Some("X".to_owned()))
    );
    assert_eq!(DiscographyParser::extract_featured_artist("Song"), ("Song".to_owned(), None));
}

#[test]
fn tralbum_tracks() {
    assert_eq!(DiscographyParser::tralbum_base_url("https://a.com/album/x"), "https://a.com");
    assert_eq!(DiscographyParser::tralbum_base_url("https://a.com/track/y"), "https://a.com");
    assert_eq!(DiscographyParser::tralbum_base_url("https://a.com"), "https://a.com");
    assert_eq!(DiscographyParser::tralbum_track_url(Some("/track/y"), "https://a.com"), "https://a.com/track/y");
    assert_eq!(
        DiscographyParser::tralbum_track_url(Some("https://a.com/album/track/z"), "b"),
        "https://a.com/track/z"
    );
    assert_eq!(DiscographyParser::tralbum_track_url(None, "b"), "");
    assert!(matches!(DiscographyParser::parse_tralbum_tracks(None, "u", "A"), Err(AlbumError::NoTrackInfo)));
    let tracks = vec![
        TralbumTrack { title: Some("One".into()), artist: None, title_link: Some("/track/one".into()) },
        TralbumTrack { title: None, artist: None, title_link: None },
    ];
    let out = DiscographyParser::parse_tralbum_tracks(Some(&tracks), "https://a.com/album/x", "Art").ok().unwrap();
    assert_eq!(out.len(), 1);
    assert_eq!(out[0].name, "One");
    assert_eq!(out[0].url, "https://a.com/track/one");
    assert_eq!(out[0].artist.as_deref(), Some("Art"));
}

#[test]
fn album_page_sources() {
    let html = "<script>var TralbumData = {\"artist\":\"X\"};</script><div data-band=\"{&quot;name&quot;:&quot;B&quot;}\"></div>";
    assert_eq!(DiscographyParser::tralbum_data_json(html).as_deref(), Some("{\"artist\":\"X\"}"));
    let sources = DiscographyParser::album_artist_sources(html);
    assert_eq!(sources.len(), 2);
    assert_eq!(sources[0], ("{\"artist\":\"X\"}".to_owned(), ArtistField::Artist));
    assert_eq!(sources[1], ("{\"name\":\"B\"}".to_owned(), ArtistField::Name));
    let page = r#"<script data-tralbum="{&quot;trackinfo&quot;:[]}"></script><a href="/track/a">  Song by Z </a><a href="/track/b"> </a>"#;
    assert_eq!(DiscographyParser::tralbum_json(page).as_deref(), Some("{\"trackinfo\":[]}"));
    let tracks = DiscographyParser::parse_tracks_from_html(page, "https://a.com/album/q", "Art");
    assert_eq!(tracks.len(), 1);
    assert_eq!(tracks[0].name, "Song");
    assert_eq!(tracks[0].url, "https://a.com/album/q/track/a");
}

#[test]
fn album_artist_first_named() {
    let none: Vec<Option<String>> = vec![None, None];
    assert_eq!(DiscographyParser::album_artist(&none), "Unknown Artist");
    assert_eq!(DiscographyParser::album_artist(&[]), "Unknown Artist");
    let found = vec![None, Some("B".to_owned()), Some("C".to_owned())];
    assert_eq!(DiscographyParser::album_artist(&found), "B");
}

#[test]
fn normalize_text_is_idempotent() {
    for t in ["  Hello \n\n  World  ", "a\r\nb", "", " \n ", "one"] {
        let once = DiscographyParser::normalize_text(t);
        assert!(!once.contains('\n'));
        assert_eq!(once.trim(), once);
        assert_eq!(DiscographyParser::normalize_text(&once), once);
    }
    assert_eq!(DiscographyParser::normalize_text("  Hello \n\n  World  "), "Hello World");
}

#[test]
fn fetched_tracks_go_to_their_items() {
    let mk = |url: &str| DiscographyItem {
        item_type: "album".into(),
        id: None,
        name: url.to_uppercase(),
        url: url.into(),
        image_url: None,
        tracks: None,
    };
    let mut items = vec![mk("a"), mk("b"), mk("a")];
    let t = |n: &str| TrackInfo { name: n.into(), url: format!("u/{n}"), artist: None };
    DiscographyParser::set_fetched_tracks(
        &mut items,
        vec![("a".into(), Some(vec![t("x")])), ("b".into(), None), ("c".into(), Some(vec![t("y")]))],
    );
    assert_eq!(items.len(), 3);
    assert_eq!(items[0].tracks.as_ref().unwrap()[0].name, "x");
    assert!(items[1].tracks.is_none());
    assert!(items[2].tracks.is_none());
    assert_eq!(items[1].name, "B");
}
