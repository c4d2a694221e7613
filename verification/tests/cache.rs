use std::collections::hash_map::DefaultHasher;
use std::hash::{Hash, Hasher};

use lowfi::bandcamp::{DiscographyItem, TrackInfo};
use lowfi::tracks::cache::{
    cache_from_presave, cache_key, cached_new_item, is_cache_file, plan_update, stale_cache_files, unseen_items,
    BandcampCache,
    CachedDiscographyItem, UpdatePlan,
};
use lowfi::tracks::utils::{current_timestamp, hash_items_with_ids, hash_string, timestamp_from};

fn cached(id: Option<u64>, url: &str) -> CachedDiscographyItem {
    CachedDiscographyItem {
        id,
        item_type: "album".into(),
        name: url.to_uppercase(),
        url: url.into(),
        image_url: None,
        tracks: None,
    }
}

fn found(id: Option<u64>, url: &str) -> DiscographyItem {
    DiscographyItem {
        item_type: "album".into(),
        id,
        name: url.to_uppercase(),
        url: url.into(),
        image_url: Some(format!("{url}.jpg")),
        tracks: None,
    }
}

#[test]
fn hash_string_is_the_std_hash_of_a_str() {
    let mut h = DefaultHasher::new();
    "https://lofigirl.bandcamp.com".hash(&mut h);
    assert_eq!(hash_string("https://lofigirl.bandcamp.com"), h.finish());
    assert_ne!(hash_string("a"), hash_string("b"));
}

#[test]
fn hash_of_ids_ignores_order_and_missing_ids() {
    let a = vec![cached(Some(3), "x"), cached(None, "y"), cached(Some(1), "z")];
    let b = vec![cached(Some(1), "z"), cached(Some(3), "x")];
    assert_eq!(hash_items_with_ids(&a), hash_items_with_ids(&b));
    assert_ne!(hash_items_with_ids(&a), hash_items_with_ids(&[cached(Some(2), "x")]));
}

#[test]
fn hash_of_ids_matches_hashing_sorted_ids_little_endian() {
    let items = vec![cached(Some(20), "a"), cached(Some(10), "b")];
    let mut h = DefaultHasher::new();
    h.write(&10u64.to_le_bytes());
    h.write(&20u64.to_le_bytes());
    assert_eq!(hash_items_with_ids(&items), h.finish());
}

#[test]
fn cache_keeps_its_hash_consistent() {
    let mut cache = BandcampCache::new("https://a.com".into(), vec![cached(Some(1), "a")]);
    assert_eq!(cache.items_hash, BandcampCache::hash_items(&cache.items));
    assert!(cache.timestamp > 0);
    cache.add_items(vec![cached(Some(2), "b"), cached(None, "c")]);
    assert_eq!(cache.items.len(), 3);
    assert_eq!(cache.items_hash, BandcampCache::hash_items(&[cached(Some(2), "x"), cached(Some(1), "y")]));
    assert_eq!(cache.get_item_ids(), vec![Some(1), Some(2), None]);
}

#[test]
fn cache_expiry() {
    let mut cache = BandcampCache::new("u".into(), vec![]);
    cache.timestamp = 1000;
    assert!(!cache.is_expired_at(1500, 600));
    assert!(cache.is_expired_at(1601, 600));
    assert!(cache.is_expired_at(999, 600));
    cache.timestamp = current_timestamp();
    assert!(!cache.is_expired(3600));
}

#[test]
fn cache_file_names() {
    assert_eq!(cache_key(12, 34), "bandcamp_cache_12_34");
    assert!(is_cache_file("bandcamp_cache_12_34.cache.gz", 12));
    assert!(is_cache_file("bandcamp_cache_12_99.cache", 12));
    assert!(!is_cache_file("bandcamp_cache_123_4.cache", 12));
    assert!(!is_cache_file("bandcamp_cache_12_34.json", 12));
}

#[test]
fn update_plans() {
    let cache = BandcampCache::new("u".into(), vec![cached(Some(1), "a"), cached(None, "n")]);
    assert!(matches!(plan_update(&cache, vec![found(Some(1), "a"), found(Some(846504073), "v")]), UpdatePlan::Unchanged));
    match plan_update(&cache, vec![found(Some(1), "a"), found(Some(2), "b"), found(None, "c")]) {
        UpdatePlan::Fetch(v) => {
            assert_eq!(v.len(), 1);
            assert_eq!(v[0].url, "b");
        }
        UpdatePlan::Unchanged => panic!("expected new items"),
    }
    let unseen = unseen_items(&[Some(5)], vec![found(Some(5), "x"), found(None, "y")]);
    assert_eq!(unseen.len(), 1);
}

#[test]
fn new_items_need_tracks() {
    let it = found(Some(9), "a");
    assert!(cached_new_item(&it, &[]).is_none());
    let tracks = vec![TrackInfo { name: "t".into(), url: "u".into(), artist: Some("z".into()) }];
    let c = cached_new_item(&it, &tracks).unwrap();
    assert_eq!(c.id, Some(9));
    assert_eq!(c.image_url.as_deref(), Some("a.jpg"));
    let t = c.tracks.unwrap();
    assert_eq!(t[0].artist.as_deref(), Some("z"));
}

#[test]
fn timestamp_from_clock_reading() {
    assert_eq!(timestamp_from(Some(1_700_000_000)), 1_700_000_000);
    assert_eq!(timestamp_from(None), 0);
    assert!(current_timestamp() > 1_600_000_000);
}

#[test]
fn cache_dated_by_the_given_time() {
    let mut cache = BandcampCache::new_at("https://a.com".into(), vec![cached(Some(1), "a")], 1000);
    assert_eq!(cache.timestamp, 1000);
    assert_eq!(cache.items_hash, BandcampCache::hash_items(&cache.items));
    cache.add_items_at(vec![cached(Some(2), "b")], 2000);
    assert_eq!(cache.timestamp, 2000);
    assert_eq!(cache.items.len(), 2);
    assert_eq!(cache.items[1].url, "b");
    assert_eq!(cache.items_hash, BandcampCache::hash_items(&cache.items));
}

#[test]
fn stale_cache_files_spare_the_new_cache() {
    assert_eq!(
        stale_cache_files("bandcamp_cache_1_2.cache.gz", "bandcamp_cache_1_3"),
        vec!["bandcamp_cache_1_2.cache.gz".to_owned(), "bandcamp_cache_1_2.cache.gz.gz".to_owned()]
    );
    assert_eq!(
        stale_cache_files("bandcamp_cache_1_2.cache", "bandcamp_cache_1_3"),
        vec!["bandcamp_cache_1_2.cache".to_owned(), "bandcamp_cache_1_2.cache.gz".to_owned()]
    );
    assert!(stale_cache_files("bandcamp_cache_1_3.cache.gz", "bandcamp_cache_1_3").is_empty());
    assert!(stale_cache_files("bandcamp_cache_1_3.cache", "bandcamp_cache_1_3").is_empty());
}

#[test]
fn gzip_text_round_trips() {
    let text = "{\"items\":[1,2,3]} ünïcode";
    let bytes = BandcampCache::gz_of_text(text).unwrap();
    assert_eq!(&bytes[..2], &[0x1f, 0x8b]);
    assert_eq!(BandcampCache::text_of_gz(&bytes).as_deref(), Some(text));
    assert_eq!(BandcampCache::text_of_gz(b"not gzip"), None);
    assert_eq!(BandcampCache::text_of_gz(&BandcampCache::gz_of_text("").unwrap()).as_deref(), Some(""));
}

#[test]
fn presaved_items_make_a_cache() {
    assert!(cache_from_presave("https://a.com".into(), &[], 5).is_none());
    let mut with_tracks = found(Some(7), "x");
    with_tracks.tracks = Some(vec![TrackInfo { name: "T".into(), url: "x/t".into(), artist: None }]);
    let items = vec![with_tracks, found(None, "y")];
    let cache = cache_from_presave("https://a.com".into(), &items, 5).unwrap();
    assert_eq!(cache.timestamp, 5);
    assert_eq!(cache.items.len(), 2);
    assert_eq!(cache.items[0].tracks.as_ref().unwrap()[0].url, "x/t");
    assert!(cache.items[1].tracks.is_none());
    assert_eq!(cache.items[1].image_url.as_deref(), Some("y.jpg"));
    assert_eq!(cache.items_hash, hash_items_with_ids(&items));
}

#[test]
fn fetched_items_with_tracks_are_added() {
    let mut cache = BandcampCache::new_at("https://a.com".into(), vec![cached(Some(1), "a")], 1);
    let new_items = vec![found(Some(2), "b"), found(Some(3), "c")];
    let fetched = vec![
        vec![TrackInfo { name: "T".into(), url: "b/t".into(), artist: None }],
        vec![],
    ];
    cache.add_fetched_at(&new_items, &fetched, 9);
    assert_eq!(cache.timestamp, 9);
    assert_eq!(cache.items.len(), 2);
    assert_eq!(cache.items[0].url, "a");
    assert_eq!(cache.items[1].id, Some(2));
    assert_eq!(cache.items[1].tracks.as_ref().unwrap()[0].url, "b/t");
    assert_eq!(cache.items_hash, BandcampCache::hash_items(&cache.items));
}
