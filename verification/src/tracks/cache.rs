//! The Bandcamp cache: a discography with its tracks, the hash of its item
//! ids, and the time it was made; and the decisions of its background
//! update.
use vstd::prelude::*;

use super::utils::{current_timestamp, hash_items_with_ids, ids_hash, present_ids, HasId};
use crate::bandcamp::page::{not_excluded, without_excluded};
use crate::bandcamp::{DiscographyItem, TrackInfo};
use crate::text::{
    chars_of, decimal, ends_with, ends_with_chars, push_decimal, push_str, starts_with,
    starts_with_chars, string_from,
};

verus! {

/// The text that a gzip stream decompresses to, when it is one whose
/// content is UTF-8 text.
pub uninterp spec fn spec_gunzip_text(bytes: Seq<u8>) -> Option<Seq<char>>;

/// The gzip stream that `flate2` makes of a text at the default level.
pub uninterp spec fn spec_gzip(text: Seq<char>) -> Seq<u8>;

/// `flate2::read::GzDecoder` over the bytes, read to a string with
/// `Read::read_to_string`. Claimed: the result is named by
/// `spec_gunzip_text`; `None` where reading fails (not a gzip stream, or
/// not UTF-8 text).
#[verifier::external_body]
fn gunzip_text(bytes: &[u8]) -> (r: Option<String>)
    ensures
        crate::tracks::list::opt_view(r) == spec_gunzip_text(bytes@),
{
    let mut decoder = flate2::read::GzDecoder::new(bytes);
    let mut out = String::new();
    match std::io::Read::read_to_string(&mut decoder, &mut out) {
        Ok(_) => Some(out),
        Err(_) => None,
    }
}

/// `flate2::write::GzEncoder` over a new `Vec` at `Compression::default()`,
/// `Write::write_all` of the text's bytes, then `finish`. Claimed: the
/// bytes are named by `spec_gzip`, and, as the crate's own round-trip test
/// of exactly these calls (`gz::tests::roundtrip`) shows, decoding them with
/// `GzDecoder` gives the text back. Of when writing fails nothing is stated.
#[verifier::external_body]
fn gzip_text(text: &str) -> (r: Option<Vec<u8>>)
    ensures
        r matches Some(b) ==> b@ == spec_gzip(text@) && spec_gunzip_text(b@) == Some(text@),
{
    let mut encoder = flate2::write::GzEncoder::new(Vec::new(), flate2::Compression::default());
    std::io::Write::write_all(&mut encoder, text.as_bytes()).ok()?;
    encoder.finish().ok()
}

/// A cached discography.
#[derive(Debug)]
pub struct BandcampCache {
    /// The artist's URL.
    pub base_url: String,
    /// The discography's items.
    pub items: Vec<CachedDiscographyItem>,
    /// The hash of the items' ids.
    pub items_hash: u64,
    /// When the cache was made or last checked, in Unix seconds.
    pub timestamp: u64,
}

/// An item of a cached discography.
#[derive(Debug)]
pub struct CachedDiscographyItem {
    /// Bandcamp's id of the item.
    pub id: Option<u64>,
    /// `"album"` or `"track"`.
    pub item_type: String,
    /// The item's title.
    pub name: String,
    /// The item's page.
    pub url: String,
    /// The item's cover art.
    pub image_url: Option<String>,
    /// The item's tracks.
    pub tracks: Option<Vec<CachedTrackInfo>>,
}

/// A track of a cached item.
#[derive(Debug)]
pub struct CachedTrackInfo {
    /// The track's title.
    pub name: String,
    /// The track's page.
    pub url: String,
    /// The track's artist.
    pub artist: Option<String>,
}

impl HasId for CachedDiscographyItem {
    open spec fn spec_id(&self) -> Option<u64> {
        self.id
    }

    fn get_id(&self) -> (r: Option<u64>) {
        self.id
    }
}

/// The hash of a cache's items: that of the ids they carry.
pub open spec fn items_hash_of(items: Seq<CachedDiscographyItem>) -> u64 {
    ids_hash(present_ids(items))
}

/// The ids of the items, one per item.
pub open spec fn item_ids(items: Seq<CachedDiscographyItem>) -> Seq<Option<u64>> {
    items.map_values(|i: CachedDiscographyItem| i.id)
}

/// Whether a cache made at `timestamp` is older than `max_age` seconds at
/// `now`; the clock's difference wraps when `now` is earlier.
pub open spec fn expired_at(timestamp: u64, now: u64, max_age: u64) -> bool {
    (if now >= timestamp {
        now - timestamp
    } else {
        now - timestamp + 0x1_0000_0000_0000_0000
    }) > max_age
}

impl BandcampCache {
    /// The hash of the items agrees with the items.
    pub open spec fn hash_consistent(&self) -> bool {
        self.items_hash == items_hash_of(self.items@)
    }

    /// A cache of `items`, dated now.
    pub fn new(base_url: String, items: Vec<CachedDiscographyItem>) -> (r: Self)
        ensures
            r.base_url == base_url,
            r.items@ == items@,
            r.hash_consistent(),
    {
        Self::new_at(base_url, items, current_timestamp())
    }

    /// A cache of `items`, dated `now`.
    pub fn new_at(base_url: String, items: Vec<CachedDiscographyItem>, now: u64) -> (r: Self)
        ensures
            r.base_url == base_url,
            r.items@ == items@,
            r.hash_consistent(),
            r.timestamp == now,
    {
        let items_hash = Self::hash_items(items.as_slice());
        Self { base_url, items, items_hash, timestamp: now }
    }

    /// The text of a cache file compressed with gzip, given its bytes; `None`
    /// when they are not gzip-compressed UTF-8 text.
    pub fn text_of_gz(bytes: &[u8]) -> (r: Option<String>)
        ensures
            crate::tracks::list::opt_view(r) == spec_gunzip_text(bytes@),
    {
        gunzip_text(bytes)
    }

    /// The bytes of a cache file compressed with gzip, for its text; they
    /// decompress to the text. `None` when compressing fails.
    pub fn gz_of_text(content: &str) -> (r: Option<Vec<u8>>)
        ensures
            r matches Some(b) ==> b@ == spec_gzip(content@) && spec_gunzip_text(b@) == Some(
                content@,
            ),
    {
        gzip_text(content)
    }

    /// The hash of the items' ids, whatever their order.
    pub fn hash_items(items: &[CachedDiscographyItem]) -> (r: u64)
        ensures
            r == items_hash_of(items@),
    {
        hash_items_with_ids(items)
    }

    /// Whether the cache is older than `max_age_secs` at `now`.
    pub fn is_expired_at(&self, now: u64, max_age_secs: u64) -> (r: bool)
        ensures
            r == expired_at(self.timestamp, now, max_age_secs),
    {
        now.wrapping_sub(self.timestamp) > max_age_secs
    }

    /// Whether the cache is older than `max_age_secs` now: what
    /// [`BandcampCache::is_expired_at`] says at some reading of the clock.
    pub fn is_expired(&self, max_age_secs: u64) -> (r: bool)
        ensures
            exists|now: u64| r == expired_at(self.timestamp, now, max_age_secs),
    {
        let now = current_timestamp();
        self.is_expired_at(now, max_age_secs)
    }

    /// The ids of the items, in order.
    pub fn get_item_ids(&self) -> (r: Vec<Option<u64>>)
        ensures
            r@ == item_ids(self.items@),
    {
        let mut ids: Vec<Option<u64>> = Vec::new();
        let mut i: usize = 0;
        while i < self.items.len()
            invariant
                i <= self.items.len(),
                ids@ == item_ids(self.items@.subrange(0, i as int)),
            decreases self.items.len() - i,
        {
            ids.push(self.items[i].id);
            assert(ids@ =~= item_ids(self.items@.subrange(0, i + 1)));
            i = i + 1;
        }
        assert(self.items@.subrange(0, self.items@.len() as int) =~= self.items@);
        ids
    }

    /// Adds items at the end, hashes the items anew and dates the cache
    /// now.
    pub fn add_items(&mut self, new_items: Vec<CachedDiscographyItem>)
        ensures
            final(self).base_url == old(self).base_url,
            final(self).items@ == old(self).items@ + new_items@,
            final(self).hash_consistent(),
    {
        let now = current_timestamp();
        self.add_items_at(new_items, now);
    }

    /// Adds items to the cache at the end, rehashes it and dates it `now`.
    pub fn add_items_at(&mut self, new_items: Vec<CachedDiscographyItem>, now: u64)
        ensures
            final(self).base_url == old(self).base_url,
            final(self).items@ == old(self).items@ + new_items@,
            final(self).hash_consistent(),
            final(self).timestamp == now,
    {
        let mut new_items = new_items;
        self.items.append(&mut new_items);
        self.items_hash = Self::hash_items(self.items.as_slice());
        self.timestamp = now;
    }
}

/// The item's fields, with the given tracks.
pub open spec fn cached_from(
    c: CachedDiscographyItem,
    item: DiscographyItem,
    tracks: Option<Vec<CachedTrackInfo>>,
) -> bool {
    &&& c.id == item.id
    &&& c.item_type@ == item.item_type@
    &&& c.name@ == item.name@
    &&& c.url@ == item.url@
    &&& crate::tracks::list::opt_view(c.image_url) == crate::tracks::list::opt_view(item.image_url)
    &&& c.tracks == tracks
}

/// The cached form of a track: the same name, URL and artist.
pub open spec fn cached_track_is(c: CachedTrackInfo, t: TrackInfo) -> bool {
    c.name@ == t.name@ && c.url@ == t.url@ && crate::tracks::list::opt_view(c.artist)
        == crate::tracks::list::opt_view(t.artist)
}

/// What the background update does with the discography it found.
#[derive(Debug)]
pub enum UpdatePlan {
    /// The items' ids are those of the cache: the cache is only dated anew.
    Unchanged,
    /// The items whose id the cache does not have, whose tracks are then
    /// fetched and added.
    Fetch(Vec<DiscographyItem>),
}

/// The items whose id is not among `existing`, in order.
pub open spec fn unseen(items: Seq<DiscographyItem>, existing: Seq<Option<u64>>) -> Seq<DiscographyItem>
    decreases items.len(),
{
    if items.len() == 0 {
        Seq::empty()
    } else if existing.contains(items.last().id) {
        unseen(items.drop_last(), existing)
    } else {
        unseen(items.drop_last(), existing).push(items.last())
    }
}

/// Lemma: each item not yet seen is one of the items, and its id is not
/// among `existing`.
proof fn lemma_unseen_items(items: Seq<DiscographyItem>, existing: Seq<Option<u64>>)
    ensures
        forall|k: int|
            0 <= k < unseen(items, existing).len() ==> !existing.contains(
                (#[trigger] unseen(items, existing)[k]).id,
            ) && exists|m: int| 0 <= m < items.len() && unseen(items, existing)[k] == items[m],
    decreases items.len(),
{
    if items.len() > 0 {
        let init = items.drop_last();
        lemma_unseen_items(init, existing);
        let r = unseen(items, existing);
        let q = unseen(init, existing);
        assert forall|k: int| 0 <= k < r.len() implies !existing.contains((#[trigger] r[k]).id)
            && exists|m: int| 0 <= m < items.len() && r[k] == items[m] by {
            if k < q.len() {
                assert(r[k] == q[k]);
                let m = choose|m: int| 0 <= m < init.len() && q[k] == init[m];
                assert(init[m] == items[m]);
            } else {
                assert(r[k] == items[items.len() - 1]);
            }
        }
    }
}

/// Lemma: no item left after leaving out the excluded albums is one of
/// them.
proof fn lemma_not_excluded_items(items: Seq<DiscographyItem>)
    ensures
        forall|k: int|
            0 <= k < not_excluded(items).len() ==> !crate::bandcamp::discography::excluded(
                #[trigger] not_excluded(items)[k],
            ),
    decreases items.len(),
{
    if items.len() > 0 {
        lemma_not_excluded_items(items.drop_last());
        let r = not_excluded(items);
        let q = not_excluded(items.drop_last());
        assert forall|k: int| 0 <= k < r.len() implies !crate::bandcamp::discography::excluded(
            #[trigger] r[k],
        ) by {
            if k < q.len() {
                assert(r[k] == q[k]);
            }
        }
    }
}

/// The items that an update plans to fetch are new to the cache: none is an
/// excluded album, and none has an id that the cache holds.
pub proof fn law_planned_items_are_new(found: Seq<DiscographyItem>, cache_items: Seq<CachedDiscographyItem>)
    ensures
        forall|k: int|
            0 <= k < unseen(not_excluded(found), item_ids(cache_items)).len() ==> {
                let x = #[trigger] unseen(not_excluded(found), item_ids(cache_items))[k];
                &&& !item_ids(cache_items).contains(x.id)
                &&& !crate::bandcamp::discography::excluded(x)
            },
{
    let kept = not_excluded(found);
    lemma_unseen_items(kept, item_ids(cache_items));
    lemma_not_excluded_items(found);
    let r = unseen(kept, item_ids(cache_items));
    assert forall|k: int| 0 <= k < r.len() implies !item_ids(cache_items).contains((#[trigger] r[k]).id)
        && !crate::bandcamp::discography::excluded(r[k]) by {
        let m = choose|m: int| 0 <= m < kept.len() && r[k] == kept[m];
        assert(!crate::bandcamp::discography::excluded(kept[m]));
    }
}

/// The ids of discography items.
pub open spec fn discography_ids(items: Seq<DiscographyItem>) -> Seq<u64> {
    present_ids(items)
}

/// The file name of a cache, from the hash of the artist's URL and that of
/// the items' ids (without the extension).
pub open spec fn cache_key_of(url_hash: u64, items_hash: u64) -> Seq<char> {
    "bandcamp_cache_"@ + decimal(url_hash as nat) + "_"@ + decimal(items_hash as nat)
}

/// Whether a file name is that of a cache of the artist whose URL hashes
/// to `url_hash`, compressed or not.
pub open spec fn is_cache_file_of(file_name: Seq<char>, url_hash: u64) -> bool {
    starts_with(file_name, "bandcamp_cache_"@ + decimal(url_hash as nat) + "_"@) && (ends_with(
        file_name,
        ".cache.gz"@,
    ) || ends_with(file_name, ".cache"@))
}

/// Whether `v` holds `x`.
fn contains_opt_id(v: &[Option<u64>], x: Option<u64>) -> (r: bool)
    ensures
        r == v@.contains(x),
{
    let mut i: usize = 0;
    while i < v.len()
        invariant
            i <= v.len(),
            forall|j: int| 0 <= j < i ==> v@[j] != x,
        decreases v.len() - i,
    {
        if v[i] == x {
            assert(v@[i as int] == x);
            return true;
        }
        i = i + 1;
    }
    false
}

/// The cached form of a discography item, with the given tracks.
pub fn cached_item(item: &DiscographyItem, tracks: Option<Vec<CachedTrackInfo>>) -> (r:
    CachedDiscographyItem)
    ensures
        cached_from(r, *item, tracks),
{
    CachedDiscographyItem {
        id: item.id,
        item_type: item.item_type.clone(),
        name: item.name.clone(),
        url: item.url.clone(),
        image_url: match &item.image_url {
            Some(u) => Some(u.clone()),
            None => None,
        },
        tracks,
    }
}

/// The cached copy of an item: its fields, and its tracks, if it has them,
/// each in its cached form.
pub open spec fn cached_copy(c: CachedDiscographyItem, item: DiscographyItem) -> bool {
    &&& c.id == item.id
    &&& c.item_type@ == item.item_type@
    &&& c.name@ == item.name@
    &&& c.url@ == item.url@
    &&& crate::tracks::list::opt_view(c.image_url) == crate::tracks::list::opt_view(item.image_url)
    &&& match (c.tracks, item.tracks) {
        (None, None) => true,
        (Some(ct), Some(it)) => ct@.len() == it@.len() && forall|i: int|
            0 <= i < ct@.len() ==> cached_track_is(#[trigger] ct@[i], it@[i]),
        _ => false,
    }
}

/// The cache made from a presaved discography, dated `now`: each item
/// copied with its tracks, in order. An empty discography makes no cache.
pub fn cache_from_presave(base_url: String, items: &[DiscographyItem], now: u64) -> (r: Option<
    BandcampCache,
>)
    ensures
        items@.len() == 0 <==> r is None,
        r matches Some(c) ==> {
            &&& c.base_url == base_url
            &&& c.timestamp == now
            &&& c.hash_consistent()
            &&& c.items@.len() == items@.len()
            &&& forall|i: int| 0 <= i < items@.len() ==> cached_copy(#[trigger] c.items@[i], items@[i])
        },
{
    if items.len() == 0 {
        return None;
    }
    let mut copies: Vec<CachedDiscographyItem> = Vec::new();
    let mut i: usize = 0;
    while i < items.len()
        invariant
            i <= items.len(),
            copies@.len() == i,
            forall|k: int| 0 <= k < i ==> cached_copy(#[trigger] copies@[k], items@[k]),
        decreases items.len() - i,
    {
        let item = &items[i];
        let tracks = match &item.tracks {
            Some(ts) => Some(cached_tracks(ts.as_slice())),
            None => None,
        };
        let c = cached_item(item, tracks);
        copies.push(c);
        assert(copies@[i as int] == c);
        i = i + 1;
    }
    Some(BandcampCache::new_at(base_url, copies, now))
}

/// The cached form of tracks.
pub fn cached_tracks(tracks: &[TrackInfo]) -> (r: Vec<CachedTrackInfo>)
    ensures
        r@.len() == tracks@.len(),
        forall|i: int| 0 <= i < r@.len() ==> cached_track_is(#[trigger] r@[i], tracks@[i]),
{
    let mut out: Vec<CachedTrackInfo> = Vec::new();
    let mut i: usize = 0;
    while i < tracks.len()
        invariant
            i <= tracks.len(),
            out@.len() == i,
            forall|k: int| 0 <= k < i ==> cached_track_is(#[trigger] out@[k], tracks@[k]),
        decreases tracks.len() - i,
    {
        let t = &tracks[i];
        out.push(
            CachedTrackInfo {
                name: t.name.clone(),
                url: t.url.clone(),
                artist: match &t.artist {
                    Some(a) => Some(a.clone()),
                    None => None,
                },
            },
        );
        i = i + 1;
    }
    out
}

/// The cached form of a newly found item once its tracks are fetched; no
/// item when it has no tracks.
pub fn cached_new_item(item: &DiscographyItem, tracks: &[TrackInfo]) -> (r: Option<
    CachedDiscographyItem,
>)
    ensures
        tracks@.len() == 0 <==> r is None,
        r matches Some(c) ==> (cached_from(c, *item, c.tracks) && (c.tracks matches Some(ts)
            && ts@.len() == tracks@.len() && forall|i: int|
            0 <= i < ts@.len() ==> cached_track_is(#[trigger] ts@[i], tracks@[i]))),
{
    if tracks.len() == 0 {
        return None;
    }
    let ts = cached_tracks(tracks);
    Some(cached_item(item, Some(ts)))
}

/// The cached form of a newly found item with its fetched tracks.
pub open spec fn new_cached_is(c: CachedDiscographyItem, item: DiscographyItem, tracks: Seq<TrackInfo>) -> bool {
    cached_from(c, item, c.tracks) && (c.tracks matches Some(ts) && ts@.len() == tracks.len()
        && forall|i: int| 0 <= i < ts@.len() ==> cached_track_is(#[trigger] ts@[i], tracks[i]))
}

/// Whether `added` holds, in order, the cached forms of those of the items
/// whose fetched tracks (`fetched`, item by item) are not empty.
pub open spec fn fetched_added(
    added: Seq<CachedDiscographyItem>,
    items: Seq<DiscographyItem>,
    fetched: Seq<Seq<TrackInfo>>,
) -> bool
    decreases items.len(),
{
    if items.len() == 0 {
        added.len() == 0
    } else if fetched[items.len() - 1].len() == 0 {
        fetched_added(added, items.drop_last(), fetched)
    } else {
        added.len() > 0 && new_cached_is(added.last(), items.last(), fetched[items.len() - 1])
            && fetched_added(added.drop_last(), items.drop_last(), fetched)
    }
}

/// Lemma: each item added was one of the new items, and holds tracks.
proof fn lemma_fetched_added_from(
    added: Seq<CachedDiscographyItem>,
    items: Seq<DiscographyItem>,
    fetched: Seq<Seq<TrackInfo>>,
)
    requires
        fetched_added(added, items, fetched),
    ensures
        forall|k: int|
            0 <= k < added.len() ==> (exists|m: int|
                0 <= m < items.len() && (#[trigger] added[k]).id == items[m].id) && (added[k].tracks
                matches Some(ts) && ts@.len() > 0),
    decreases items.len(),
{
    if items.len() > 0 {
        let init = items.drop_last();
        if fetched[items.len() - 1].len() == 0 {
            lemma_fetched_added_from(added, init, fetched);
            assert forall|k: int| 0 <= k < added.len() implies (exists|m: int|
                0 <= m < items.len() && (#[trigger] added[k]).id == items[m].id) by {
                let m = choose|m: int| 0 <= m < init.len() && added[k].id == init[m].id;
                assert(init[m] == items[m]);
            }
        } else {
            let a = added.drop_last();
            lemma_fetched_added_from(a, init, fetched);
            assert forall|k: int| 0 <= k < added.len() implies (exists|m: int|
                0 <= m < items.len() && (#[trigger] added[k]).id == items[m].id) && (added[k].tracks
                matches Some(ts) && ts@.len() > 0) by {
                if k < a.len() {
                    assert(added[k] == a[k]);
                    let m = choose|m: int| 0 <= m < init.len() && a[k].id == init[m].id;
                    assert(init[m] == items[m]);
                } else {
                    assert(added[k] == added.last());
                    assert(items.last() == items[items.len() - 1]);
                }
            }
        }
    }
}

/// The views of fetched track lists.
pub open spec fn fetched_views(fetched: Seq<Vec<TrackInfo>>) -> Seq<Seq<TrackInfo>> {
    fetched.map_values(|v: Vec<TrackInfo>| v@)
}

impl BandcampCache {
    /// Adds the new items whose fetched tracks are not empty, each with its
    /// tracks, in order; rehashes the cache and dates it `now`.
    pub fn add_fetched_at(
        &mut self,
        new_items: &[DiscographyItem],
        fetched: &Vec<Vec<TrackInfo>>,
        now: u64,
    )
        requires
            new_items@.len() == fetched@.len(),
        ensures
            final(self).base_url == old(self).base_url,
            final(self).hash_consistent(),
            final(self).timestamp == now,
            final(self).items@.len() >= old(self).items@.len(),
            final(self).items@.subrange(0, old(self).items@.len() as int) == old(self).items@,
            fetched_added(
                final(self).items@.subrange(
                    old(self).items@.len() as int,
                    final(self).items@.len() as int,
                ),
                new_items@,
                fetched_views(fetched@),
            ),
    {
        let ghost f = fetched_views(fetched@);
        let mut added: Vec<CachedDiscographyItem> = Vec::new();
        let mut i: usize = 0;
        assert(new_items@.subrange(0, 0) =~= Seq::<DiscographyItem>::empty());
        while i < new_items.len()
            invariant
                i <= new_items@.len() == fetched@.len(),
                f == fetched_views(fetched@),
                fetched_added(added@, new_items@.subrange(0, i as int), f),
            decreases new_items.len() - i,
        {
            let ghost sub = new_items@.subrange(0, i + 1);
            assert(sub.drop_last() =~= new_items@.subrange(0, i as int));
            assert(sub.last() == new_items@[i as int]);
            assert(f[i as int] == fetched@[i as int]@);
            let ghost before = added@;
            match cached_new_item(&new_items[i], fetched[i].as_slice()) {
                Some(c) => {
                    added.push(c);
                    assert(added@.drop_last() =~= before);
                },
                None => {},
            }
            i = i + 1;
        }
        assert(new_items@.subrange(0, new_items@.len() as int) =~= new_items@);
        let ghost old_items = self.items@;
        let ghost t = added@;
        self.add_items_at(added, now);
        assert(self.items@.subrange(0, old_items.len() as int) =~= old_items);
        assert(self.items@.subrange(old_items.len() as int, self.items@.len() as int) =~= t);
    }
}

/// An update adds to the cache only items new to it: each added item is one
/// that the update planned to fetch (so neither an excluded album nor one
/// whose id the cache held) and comes with tracks.
pub proof fn law_update_adds_new_items(
    found: Seq<DiscographyItem>,
    cache_items: Seq<CachedDiscographyItem>,
    fetched: Seq<Seq<TrackInfo>>,
    added: Seq<CachedDiscographyItem>,
)
    requires
        fetched_added(added, unseen(not_excluded(found), item_ids(cache_items)), fetched),
    ensures
        forall|k: int|
            0 <= k < added.len() ==> {
                &&& !item_ids(cache_items).contains((#[trigger] added[k]).id)
                &&& added[k].tracks matches Some(ts) && ts@.len() > 0
            },
{
    let planned = unseen(not_excluded(found), item_ids(cache_items));
    lemma_fetched_added_from(added, planned, fetched);
    law_planned_items_are_new(found, cache_items);
    assert forall|k: int| 0 <= k < added.len() implies !item_ids(cache_items).contains(
        (#[trigger] added[k]).id,
    ) by {
        let m = choose|m: int| 0 <= m < planned.len() && added[k].id == planned[m].id;
        assert(!item_ids(cache_items).contains(planned[m].id));
    }
}

/// The items whose id the cache does not have.
pub fn unseen_items(existing: &[Option<u64>], items: Vec<DiscographyItem>) -> (r: Vec<
    DiscographyItem,
>)
    ensures
        r@ == unseen(items@, existing@),
{
    let ghost all = items@;
    assert(all.len() == items.len());
    let mut rest = items;
    let mut kept: Vec<DiscographyItem> = Vec::new();
    let mut i: usize = 0;
    while rest.len() > 0
        invariant
            i + rest@.len() == all.len(),
            all.len() <= usize::MAX,
            rest@ == all.subrange(i as int, all.len() as int),
            kept@ == unseen(all.subrange(0, i as int), existing@),
        decreases rest.len(),
    {
        let item = rest.remove(0);
        let ghost prefix = all.subrange(0, i + 1);
        assert(prefix.drop_last() =~= all.subrange(0, i as int));
        assert(prefix.last() == item);
        if !contains_opt_id(existing, item.id) {
            kept.push(item);
        }
        i = i + 1;
        assert(rest@ =~= all.subrange(i as int, all.len() as int));
    }
    assert(all.subrange(0, all.len() as int) =~= all);
    kept
}

/// Decides the background update of `cache` from the discography found on
/// the artist's page: excluded albums are left out; when the remaining
/// items' ids hash as the cache's do, nothing is fetched; otherwise the
/// items whose id the cache lacks are fetched.
pub fn plan_update(cache: &BandcampCache, found: Vec<DiscographyItem>) -> (r: UpdatePlan)
    ensures
        ids_hash(discography_ids(not_excluded(found@))) == cache.items_hash <==> r is Unchanged,
        r matches UpdatePlan::Fetch(v) ==> v@ == unseen(not_excluded(found@), item_ids(cache.items@)),
{
    let items = without_excluded(found);
    let current = hash_items_with_ids(items.as_slice());
    if current == cache.items_hash {
        return UpdatePlan::Unchanged;
    }
    let existing = cache.get_item_ids();
    UpdatePlan::Fetch(unseen_items(existing.as_slice(), items))
}

/// The file name of a cache, without its extension:
/// `bandcamp_cache_{url_hash}_{items_hash}`.
pub fn cache_key(url_hash: u64, items_hash: u64) -> (r: String)
    ensures
        r@ == cache_key_of(url_hash, items_hash),
{
    let mut v = chars_of("bandcamp_cache_");
    push_decimal(&mut v, url_hash);
    push_str(&mut v, "_");
    push_decimal(&mut v, items_hash);
    string_from(v.as_slice())
}

/// The files to remove once the cache was written anew under `key` (as
/// `{key}.cache.gz`), when it was read from the file `old`: `old` and
/// `old.gz`, unless `old` is the cache of the same key, plain or compressed,
/// so that the file just written is never removed.
pub open spec fn stale_files_of(old: Seq<char>, key: Seq<char>) -> Seq<Seq<char>> {
    if old == key + ".cache"@ || old == key + ".cache.gz"@ {
        Seq::empty()
    } else {
        seq![old, old + ".gz"@]
    }
}

/// The names of the files, beside the old cache file `old`, to remove after
/// the cache was written as `{key}.cache.gz`.
pub fn stale_cache_files(old: &str, key: &str) -> (r: Vec<String>)
    ensures
        r@.map_values(|s: String| s@) == stale_files_of(old@, key@),
{
    let mut plain = key.to_owned();
    plain.append(".cache");
    let mut gz = key.to_owned();
    gz.append(".cache.gz");
    if crate::bandcamp::discography::str_eq(old, plain.as_str())
        || crate::bandcamp::discography::str_eq(old, gz.as_str()) {
        let r: Vec<String> = Vec::new();
        assert(r@.map_values(|s: String| s@) =~= Seq::<Seq<char>>::empty());
        r
    } else {
        let mut old_gz = old.to_owned();
        old_gz.append(".gz");
        let r = vec![old.to_owned(), old_gz];
        assert(r@.map_values(|s: String| s@) =~= seq![old@, old@ + ".gz"@]);
        r
    }
}

/// Whether a file name is that of a cache of the artist whose URL hashes
/// to `url_hash`.
pub fn is_cache_file(file_name: &str, url_hash: u64) -> (r: bool)
    ensures
        r == is_cache_file_of(file_name@, url_hash),
{
    let f = chars_of(file_name);
    let mut prefix = chars_of("bandcamp_cache_");
    push_decimal(&mut prefix, url_hash);
    push_str(&mut prefix, "_");
    let gz = chars_of(".cache.gz");
    let plain = chars_of(".cache");
    starts_with_chars(f.as_slice(), prefix.as_slice()) && (ends_with_chars(f.as_slice(), gz.as_slice())
        || ends_with_chars(f.as_slice(), plain.as_slice()))
}

} // verus!
