//! Parses Bandcamp discography pages and album pages.
//!
//! The items of a discography are kept in a vector in which no URL occurs
//! twice; an item found again under the same URL takes the place of the
//! first.
use vstd::prelude::*;

use crate::text::parts::{join, join_str, split_lines, trim_end_matches, trim_end_matches_str};
use crate::text::{
    is_whitespace, lemma_trim_shapes, lines_from, strip_cr, trim_end, trim_start,
    chars_of, lines, push_chars, push_str, starts_with, starts_with_chars, string_from, trim,
    trim_string, views,
};

verus! {

/// An album or a single track of a discography.
#[derive(Clone, Debug)]
pub struct DiscographyItem {
    /// `"album"`, `"track"`, or what else the page calls it.
    pub item_type: String,
    /// Bandcamp's numeric id of the item, when the page gives it.
    pub id: Option<u64>,
    /// The item's title.
    pub name: String,
    /// The item's page.
    pub url: String,
    /// The item's cover art.
    pub image_url: Option<String>,
    /// The item's tracks, once fetched.
    pub tracks: Option<Vec<TrackInfo>>,
}

/// A track of an album.
#[derive(Clone, Debug)]
pub struct TrackInfo {
    /// The track's title.
    pub name: String,
    /// The track's page.
    pub url: String,
    /// The track's artist.
    pub artist: Option<String>,
}

/// What a track of an album holds, as text.
pub struct TrackView {
    /// The track's title.
    pub name: Seq<char>,
    /// The track's page.
    pub url: Seq<char>,
    /// The track's artist.
    pub artist: Option<Seq<char>>,
}

impl View for TrackInfo {
    type V = TrackView;

    open spec fn view(&self) -> TrackView {
        TrackView {
            name: self.name@,
            url: self.url@,
            artist: match self.artist {
                Some(a) => Some(a@),
                None => None,
            },
        }
    }
}

/// What an item holds, as text.
pub struct ItemView {
    /// The kind of item.
    pub item_type: Seq<char>,
    /// The item's id.
    pub id: Option<u64>,
    /// The item's title.
    pub name: Seq<char>,
    /// The item's page.
    pub url: Seq<char>,
    /// The item's cover art.
    pub image_url: Option<Seq<char>>,
    /// The item's tracks, once fetched.
    pub tracks: Option<Seq<TrackView>>,
}

impl View for DiscographyItem {
    type V = ItemView;

    open spec fn view(&self) -> ItemView {
        ItemView {
            item_type: self.item_type@,
            id: self.id,
            name: self.name@,
            url: self.url@,
            image_url: match self.image_url {
                Some(u) => Some(u@),
                None => None,
            },
            tracks: match self.tracks {
                Some(ts) => Some(ts@.map_values(|t: TrackInfo| t@)),
                None => None,
            },
        }
    }
}

/// The views of items, in order.
pub open spec fn item_views(items: Seq<DiscographyItem>) -> Seq<ItemView> {
    items.map_values(|i: DiscographyItem| i@)
}

/// The views of tracks, in order.
pub open spec fn track_views(tracks: Seq<TrackInfo>) -> Seq<TrackView> {
    tracks.map_values(|t: TrackInfo| t@)
}

/// An item with the given tracks.
pub open spec fn with_item_tracks(v: ItemView, ts: Seq<TrackView>) -> ItemView {
    ItemView {
        item_type: v.item_type,
        id: v.id,
        name: v.name,
        url: v.url,
        image_url: v.image_url,
        tracks: Some(ts),
    }
}

/// The items with the tracks `ts` given to the first item with the URL
/// `url`, if any.
pub open spec fn tracks_set(items: Seq<ItemView>, url: Seq<char>, ts: Seq<TrackView>) -> Seq<ItemView>
    decreases items.len(),
{
    if items.len() == 0 {
        items
    } else if items[0].url == url {
        items.update(0, with_item_tracks(items[0], ts))
    } else {
        seq![items[0]] + tracks_set(items.drop_first(), url, ts)
    }
}

/// The items after the fetch results are applied, one after the other:
/// each fetched track list goes to the first item with its URL; a failed
/// fetch changes nothing.
pub open spec fn fetched_tracks_set(
    items: Seq<ItemView>,
    results: Seq<(Seq<char>, Option<Seq<TrackView>>)>,
) -> Seq<ItemView>
    decreases results.len(),
{
    if results.len() == 0 {
        items
    } else {
        let before = fetched_tracks_set(items, results.drop_last());
        match results.last().1 {
            Some(ts) => tracks_set(before, results.last().0, ts),
            None => before,
        }
    }
}

/// The view of a fetch result: the URL and, if the fetch succeeded, the
/// tracks.
pub open spec fn result_views(results: Seq<(String, Option<Vec<TrackInfo>>)>) -> Seq<
    (Seq<char>, Option<Seq<TrackView>>),
> {
    results.map_values(
        |r: (String, Option<Vec<TrackInfo>>)|
            (
                r.0@,
                match r.1 {
                    Some(v) => Some(track_views(v@)),
                    None => None,
                },
            ),
    )
}

/// Lemma: giving tracks reaches the first item with the URL.
proof fn lemma_tracks_set_at(items: Seq<ItemView>, url: Seq<char>, ts: Seq<TrackView>, i: int)
    requires
        0 <= i < items.len(),
        items[i].url == url,
        forall|j: int| 0 <= j < i ==> items[j].url != url,
    ensures
        tracks_set(items, url, ts) == items.update(i, with_item_tracks(items[i], ts)),
    decreases i,
{
    if i > 0 {
        let rest = items.drop_first();
        assert forall|j: int| 0 <= j < i - 1 implies rest[j].url != url by {
            assert(rest[j] == items[j + 1]);
        }
        lemma_tracks_set_at(rest, url, ts, i - 1);
        assert(seq![items[0]] + rest.update(i - 1, with_item_tracks(rest[i - 1], ts)) =~= items.update(
            i,
            with_item_tracks(items[i], ts),
        ));
    }
}

/// Lemma: giving tracks to a URL that no item has changes nothing.
proof fn lemma_tracks_set_none(items: Seq<ItemView>, url: Seq<char>, ts: Seq<TrackView>)
    requires
        forall|j: int| 0 <= j < items.len() ==> items[j].url != url,
    ensures
        tracks_set(items, url, ts) == items,
    decreases items.len(),
{
    if items.len() > 0 {
        let rest = items.drop_first();
        assert forall|j: int| 0 <= j < rest.len() implies rest[j].url != url by {
            assert(rest[j] == items[j + 1]);
        }
        lemma_tracks_set_none(rest, url, ts);
        assert(seq![items[0]] + rest =~= items);
    }
}

/// Whether two item views agree on everything but their tracks.
pub open spec fn same_but_tracks(a: ItemView, b: ItemView) -> bool {
    a.item_type == b.item_type && a.id == b.id && a.name == b.name && a.url == b.url && a.image_url
        == b.image_url
}

/// Lemma: giving tracks keeps the items, their order and every field but
/// the tracks.
proof fn lemma_tracks_set_keeps(items: Seq<ItemView>, url: Seq<char>, ts: Seq<TrackView>)
    ensures
        tracks_set(items, url, ts).len() == items.len(),
        forall|k: int|
            0 <= k < items.len() ==> same_but_tracks(#[trigger] tracks_set(items, url, ts)[k], items[k]),
    decreases items.len(),
{
    if items.len() > 0 && items[0].url != url {
        let rest = items.drop_first();
        lemma_tracks_set_keeps(rest, url, ts);
        let r = tracks_set(items, url, ts);
        assert forall|k: int| 0 <= k < items.len() implies same_but_tracks(#[trigger] r[k], items[k]) by {
            if k > 0 {
                assert(r[k] == tracks_set(rest, url, ts)[k - 1]);
                assert(items[k] == rest[k - 1]);
            }
        }
    }
}

/// Whether `k` is the first position of an item with the URL `url`.
pub open spec fn first_with_url(items: Seq<ItemView>, url: Seq<char>, k: int) -> bool {
    0 <= k < items.len() && items[k].url == url && forall|j: int| 0 <= j < k ==> items[j].url != url
}

/// Fetched tracks go to the first item with their URL, and only to it:
/// every other item keeps its tracks.
pub proof fn law_tracks_go_to_first_item(items: Seq<ItemView>, url: Seq<char>, ts: Seq<TrackView>)
    ensures
        tracks_set(items, url, ts).len() == items.len(),
        forall|k: int|
            0 <= k < items.len() ==> (#[trigger] tracks_set(items, url, ts)[k]).tracks == if first_with_url(
                items,
                url,
                k,
            ) {
                Some(ts)
            } else {
                items[k].tracks
            },
    decreases items.len(),
{
    lemma_tracks_set_keeps(items, url, ts);
    if items.len() > 0 {
        let r = tracks_set(items, url, ts);
        if items[0].url == url {
            assert forall|k: int| 0 <= k < items.len() implies (#[trigger] r[k]).tracks == if first_with_url(
                items,
                url,
                k,
            ) {
                Some(ts)
            } else {
                items[k].tracks
            } by {
                if k > 0 {
                    assert(!first_with_url(items, url, k));
                }
            }
        } else {
            let rest = items.drop_first();
            law_tracks_go_to_first_item(rest, url, ts);
            assert forall|k: int| 0 <= k < items.len() implies (#[trigger] r[k]).tracks == if first_with_url(
                items,
                url,
                k,
            ) {
                Some(ts)
            } else {
                items[k].tracks
            } by {
                if k > 0 {
                    assert(r[k] == tracks_set(rest, url, ts)[k - 1]);
                    assert(items[k] == rest[k - 1]);
                    if first_with_url(items, url, k) {
                        assert forall|j: int| 0 <= j < k - 1 implies rest[j].url != url by {
                            assert(rest[j] == items[j + 1]);
                        }
                        assert(first_with_url(rest, url, k - 1));
                    } else if first_with_url(rest, url, k - 1) {
                        assert forall|j: int| 0 <= j < k implies items[j].url != url by {
                            if j > 0 {
                                assert(rest[j - 1] == items[j]);
                            }
                        }
                        assert(first_with_url(items, url, k));
                    }
                }
            }
        }
    }
}

/// Applying fetched tracks keeps the items, their order and every field of
/// each item but its tracks.
pub proof fn law_fetched_tracks_keep_items(
    items: Seq<ItemView>,
    results: Seq<(Seq<char>, Option<Seq<TrackView>>)>,
)
    ensures
        fetched_tracks_set(items, results).len() == items.len(),
        forall|k: int|
            0 <= k < items.len() ==> same_but_tracks(
                #[trigger] fetched_tracks_set(items, results)[k],
                items[k],
            ),
    decreases results.len(),
{
    if results.len() > 0 {
        law_fetched_tracks_keep_items(items, results.drop_last());
        let before = fetched_tracks_set(items, results.drop_last());
        match results.last().1 {
            Some(ts) => {
                lemma_tracks_set_keeps(before, results.last().0, ts);
                assert forall|k: int| 0 <= k < items.len() implies same_but_tracks(
                    #[trigger] fetched_tracks_set(items, results)[k],
                    items[k],
                ) by {
                    assert(same_but_tracks(before[k], items[k]));
                    assert(same_but_tracks(tracks_set(before, results.last().0, ts)[k], before[k]));
                }
            },
            None => {},
        }
    }
}

/// Parses discography and album pages.
pub struct DiscographyParser;

/// The ids of albums that are never played (an album with vocals).
pub open spec fn excluded_album_ids() -> Seq<u64> {
    seq![846504073u64]
}

/// Whether an item is one of the excluded albums.
pub open spec fn excluded(item: DiscographyItem) -> bool {
    item.id matches Some(id) && excluded_album_ids().contains(id)
}

/// Whether `v` holds `x`.
fn contains_id(v: &[u64], x: u64) -> (r: bool)
    ensures
        r == v@.contains(x),
{
    let mut i: usize = 0;
    while i < v.len()
        invariant
            i <= v.len(),
            forall|j: int| 0 <= j < i ==> v@[j] != x,
        decreases v.len() - i,
    {
        if v[i] == x {
            assert(v@[i as int] == x);
            return true;
        }
        i = i + 1;
    }
    false
}

/// Checks whether an item is excluded, by its id.
pub fn is_album_excluded(item: &DiscographyItem) -> (r: bool)
    ensures
        r == excluded(*item),
{
    match item.id {
        Some(id) => {
            let ids: Vec<u64> = vec![846504073];
            assert(ids@ =~= excluded_album_ids());
            contains_id(ids.as_slice(), id)
        },
        None => false,
    }
}

/// `"album"`.
pub open spec fn album() -> Seq<char> {
    seq!['a', 'l', 'b', 'u', 'm']
}

/// `"track"`.
pub open spec fn track() -> Seq<char> {
    seq!['t', 'r', 'a', 'c', 'k']
}

/// `"/music"`.
pub open spec fn music_suffix() -> Seq<char> {
    seq!['/', 'm', 'u', 's', 'i', 'c']
}

/// `"/album/"`.
pub open spec fn album_part() -> Seq<char> {
    seq!['/', 'a', 'l', 'b', 'u', 'm', '/']
}

/// `"https:"`.
pub open spec fn https_scheme() -> Seq<char> {
    seq!['h', 't', 't', 'p', 's', ':']
}

/// A link of a page made absolute: full URLs are kept, protocol-relative
/// ones get `https:`, root-relative ones are put after the base URL (minus
/// a trailing `/music`), and the rest after the base URL and a `/`.
pub open spec fn normalized_url(url: Seq<char>, base: Seq<char>) -> Seq<char> {
    if starts_with(url, seq!['h', 't', 't', 'p', ':', '/', '/']) || starts_with(
        url,
        https_scheme() + seq!['/', '/'],
    ) {
        url
    } else if starts_with(url, seq!['/', '/']) {
        https_scheme() + url
    } else if starts_with(url, seq!['/']) {
        trim_end_matches(base, music_suffix()) + url
    } else {
        trim_end_matches(base, seq!['/']) + seq!['/'] + url
    }
}

/// The non-empty trimmed lines of `ls`.
pub open spec fn kept_lines(ls: Seq<Seq<char>>) -> Seq<Seq<char>>
    decreases ls.len(),
{
    if ls.len() == 0 {
        Seq::empty()
    } else if trim(ls.last()).len() > 0 {
        kept_lines(ls.drop_last()).push(trim(ls.last()))
    } else {
        kept_lines(ls.drop_last())
    }
}

/// A text's lines, trimmed, without the empty ones, joined by spaces.
pub open spec fn normalized_text(text: Seq<char>) -> Seq<char> {
    join(kept_lines(lines(text)), seq![' '])
}

/// Whether `s` holds no line feed.
pub open spec fn one_line(s: Seq<char>) -> bool {
    forall|i: int| 0 <= i < s.len() ==> s[i] != '\n'
}

/// Whether `s` is not empty and begins and ends with a non-whitespace
/// character.
pub open spec fn trimmed_word(s: Seq<char>) -> bool {
    s.len() > 0 && !is_whitespace(s[0]) && !is_whitespace(s.last())
}

/// Lemma: what trimming the start leaves begins with a non-whitespace
/// character, if anything is left.
proof fn lemma_trim_start_first(s: Seq<char>)
    ensures
        trim_start(s).len() > 0 ==> !is_whitespace(trim_start(s)[0]),
    decreases s.len(),
{
    if s.len() > 0 && is_whitespace(s[0]) {
        lemma_trim_start_first(s.drop_first());
    }
}

/// Lemma: what trimming the end leaves ends with a non-whitespace
/// character, if anything is left.
proof fn lemma_trim_end_last(s: Seq<char>)
    ensures
        trim_end(s).len() > 0 ==> !is_whitespace(trim_end(s).last()),
    decreases s.len(),
{
    if s.len() > 0 && is_whitespace(s.last()) {
        lemma_trim_end_last(s.drop_last());
    }
}

/// Lemma: a trimmed text that is not empty is a trimmed word, and trimming
/// keeps a text on one line.
proof fn lemma_trim_word(s: Seq<char>)
    ensures
        trim(s).len() > 0 ==> trimmed_word(trim(s)),
        one_line(s) ==> one_line(trim(s)),
{
    let t = trim_start(s);
    lemma_trim_start_first(s);
    lemma_trim_end_last(t);
    lemma_trim_shapes(s);
    lemma_trim_shapes(t);
    if trim(s).len() > 0 {
        assert(trim(s)[0] == t[0]);
    }
    if one_line(s) {
        assert forall|i: int| 0 <= i < trim(s).len() implies trim(s)[i] != '\n' by {
            assert(trim(s)[i] == t[i]);
            assert(t[i] == s[s.len() - t.len() + i]);
        }
    }
}

/// Lemma: a trimmed word is its own trim.
proof fn lemma_trim_fixed(s: Seq<char>)
    requires
        trimmed_word(s),
    ensures
        trim(s) == s,
{
    assert(trim_start(s) == s);
    assert(trim_end(s) == s);
}

/// Lemma: the lines of a text hold no line feed.
proof fn lemma_lines_one_line(s: Seq<char>, cur: Seq<char>)
    requires
        one_line(cur),
    ensures
        forall|k: int| 0 <= k < lines_from(s, cur).len() ==> one_line(#[trigger] lines_from(s, cur)[k]),
    decreases s.len(),
{
    if s.len() == 0 {
        if cur.len() > 0 {
            assert(lines_from(s, cur) == seq![cur]);
            assert(seq![cur][0] == cur);
        } else {
            assert(lines_from(s, cur).len() == 0);
        }
    } else if s[0] == '\n' {
        lemma_lines_one_line(s.drop_first(), Seq::empty());
        let rest = lines_from(s.drop_first(), Seq::empty());
        let all = seq![strip_cr(cur)] + rest;
        assert(lines_from(s, cur) == all);
        assert forall|k: int| 0 <= k < all.len() implies one_line(#[trigger] all[k]) by {
            if k > 0 {
                assert(all[k] == rest[k - 1]);
            } else {
                assert(forall|i: int| 0 <= i < strip_cr(cur).len() ==> strip_cr(cur)[i] == cur[i]);
            }
        }
    } else {
        let c2 = cur.push(s[0]);
        assert forall|i: int| 0 <= i < c2.len() implies c2[i] != '\n' by {
            if i < cur.len() {
                assert(c2[i] == cur[i]);
            }
        }
        lemma_lines_one_line(s.drop_first(), c2);
        assert(lines_from(s, cur) == lines_from(s.drop_first(), c2));
    }
}

/// Lemma: the kept lines of one-line lines are one-line trimmed words.
proof fn lemma_kept_words(ls: Seq<Seq<char>>)
    requires
        forall|k: int| 0 <= k < ls.len() ==> one_line(#[trigger] ls[k]),
    ensures
        forall|k: int|
            0 <= k < kept_lines(ls).len() ==> trimmed_word(#[trigger] kept_lines(ls)[k]) && one_line(
                kept_lines(ls)[k],
            ),
    decreases ls.len(),
{
    if ls.len() > 0 {
        let init = ls.drop_last();
        assert forall|k: int| 0 <= k < init.len() implies one_line(#[trigger] init[k]) by {
            assert(init[k] == ls[k]);
        }
        lemma_kept_words(init);
        assert(one_line(ls[ls.len() - 1]));
        lemma_trim_word(ls.last());
        let r = kept_lines(ls);
        let rest = kept_lines(init);
        assert forall|k: int| 0 <= k < r.len() implies trimmed_word(#[trigger] r[k]) && one_line(
            r[k],
        ) by {
            if k < rest.len() {
                assert(r[k] == rest[k]);
            }
        }
    }
}

/// Lemma: joining one-line trimmed words by spaces gives a one-line text
/// that, unless empty, is a trimmed word.
proof fn lemma_join_words(parts: Seq<Seq<char>>)
    requires
        forall|k: int| 0 <= k < parts.len() ==> trimmed_word(#[trigger] parts[k]) && one_line(
            parts[k],
        ),
    ensures
        one_line(join(parts, seq![' '])),
        parts.len() > 0 ==> trimmed_word(join(parts, seq![' '])),
    decreases parts.len(),
{
    if parts.len() == 1 {
        assert(trimmed_word(parts[0]) && one_line(parts[0]));
    } else if parts.len() > 1 {
        let init = parts.drop_last();
        assert forall|k: int| 0 <= k < init.len() implies trimmed_word(#[trigger] init[k])
            && one_line(init[k]) by {
            assert(init[k] == parts[k]);
        }
        lemma_join_words(init);
        let a = join(init, seq![' ']);
        let b = parts.last();
        assert(trimmed_word(parts[parts.len() - 1]) && one_line(parts[parts.len() - 1]));
        let j = a + seq![' '] + b;
        assert(join(parts, seq![' ']) == j);
        assert forall|i: int| 0 <= i < j.len() implies j[i] != '\n' by {
            if i < a.len() {
                assert(j[i] == a[i]);
            } else if i > a.len() {
                assert(j[i] == b[i - a.len() - 1]);
            }
        }
        assert(j[0] == a[0]);
        assert(j.last() == b.last());
    }
}

/// Lemma: a one-line text that is not empty is its own single line.
proof fn lemma_single_line(s: Seq<char>, cur: Seq<char>)
    requires
        one_line(s),
        (cur + s).len() > 0,
    ensures
        lines_from(s, cur) == seq![cur + s],
    decreases s.len(),
{
    if s.len() == 0 {
        assert(cur + s =~= cur);
    } else {
        assert(one_line(s.drop_first())) by {
            assert forall|i: int| 0 <= i < s.drop_first().len() implies s.drop_first()[i] != '\n' by {
                assert(s.drop_first()[i] == s[i + 1]);
            }
        }
        assert(s[0] != '\n');
        lemma_single_line(s.drop_first(), cur.push(s[0]));
        assert(cur.push(s[0]) + s.drop_first() =~= cur + s);
    }
}

/// Normalizing a text is idempotent: a normalized text is on one line,
/// without surrounding whitespace, and normalizing it again changes
/// nothing.
pub proof fn law_normalize_text_idempotent(text: Seq<char>)
    ensures
        one_line(normalized_text(text)),
        normalized_text(text).len() > 0 ==> trimmed_word(normalized_text(text)),
        normalized_text(normalized_text(text)) == normalized_text(text),
{
    let ls = lines(text);
    lemma_lines_one_line(text, Seq::empty());
    lemma_kept_words(ls);
    lemma_join_words(kept_lines(ls));
    let r = normalized_text(text);
    if r.len() == 0 {
        assert(lines(r) =~= Seq::<Seq<char>>::empty());
        assert(kept_lines(lines(r)) =~= Seq::<Seq<char>>::empty());
    } else {
        lemma_single_line(r, Seq::empty());
        assert(Seq::<char>::empty() + r =~= r);
        assert(lines(r) == seq![r]);
        lemma_trim_fixed(r);
        assert(seq![r].drop_last() =~= Seq::<Seq<char>>::empty());
        assert(kept_lines(Seq::<Seq<char>>::empty()) =~= Seq::<Seq<char>>::empty());
        assert(seq![r].last() == r);
        assert(kept_lines(seq![r]) =~= seq![r]);
    }
}

/// The discography page of an artist's URL; an album's URL is its own page.
pub open spec fn music_page(artist_url: Seq<char>) -> Seq<char> {
    if crate::text::contains(artist_url, album_part()) {
        artist_url
    } else {
        trim_end_matches(trim_end_matches(artist_url, seq!['/']), music_suffix()) + music_suffix()
    }
}

/// Whether an item is an album.
pub open spec fn is_album(item: DiscographyItem) -> bool {
    item.item_type@ == album()
}

/// The number of albums among `items`.
pub open spec fn album_count(items: Seq<DiscographyItem>) -> nat
    decreases items.len(),
{
    if items.len() == 0 {
        0
    } else {
        album_count(items.drop_last()) + if is_album(items.last()) {
            1nat
        } else {
            0nat
        }
    }
}

/// The items, with the albums after the first `max` left out.
pub open spec fn within_album_limit(items: Seq<DiscographyItem>, max: nat) -> Seq<DiscographyItem>
    decreases items.len(),
{
    if items.len() == 0 {
        Seq::empty()
    } else if !is_album(items.last()) || album_count(items) <= max {
        within_album_limit(items.drop_last(), max).push(items.last())
    } else {
        within_album_limit(items.drop_last(), max)
    }
}

/// The albums among `items`, in order.
pub open spec fn albums_in(items: Seq<DiscographyItem>) -> Seq<DiscographyItem>
    decreases items.len(),
{
    if items.len() == 0 {
        Seq::empty()
    } else if is_album(items.last()) {
        albums_in(items.drop_last()).push(items.last())
    } else {
        albums_in(items.drop_last())
    }
}

/// The items among `items` that are not albums, in order.
pub open spec fn non_albums_in(items: Seq<DiscographyItem>) -> Seq<DiscographyItem>
    decreases items.len(),
{
    if items.len() == 0 {
        Seq::empty()
    } else if is_album(items.last()) {
        non_albums_in(items.drop_last())
    } else {
        non_albums_in(items.drop_last()).push(items.last())
    }
}

/// Lemma: the albums listed are as many as the albums counted.
proof fn lemma_albums_in_len(items: Seq<DiscographyItem>)
    ensures
        albums_in(items).len() == album_count(items),
    decreases items.len(),
{
    if items.len() > 0 {
        lemma_albums_in_len(items.drop_last());
    }
}

/// Limiting the albums to `max` keeps every item that is not an album, in
/// order, and of the albums exactly the first `max` (all of them when there
/// are fewer), in order: tracks do not count towards the limit.
pub proof fn law_album_limit_keeps_first_albums(items: Seq<DiscographyItem>, max: nat)
    ensures
        non_albums_in(within_album_limit(items, max)) == non_albums_in(items),
        albums_in(within_album_limit(items, max)) == albums_in(items).take(
            if album_count(items) < max {
                album_count(items) as int
            } else {
                max as int
            },
        ),
    decreases items.len(),
{
    lemma_albums_in_len(items);
    if items.len() == 0 {
        assert(albums_in(items).take(0) =~= Seq::<DiscographyItem>::empty());
    } else {
        let init = items.drop_last();
        let last = items.last();
        law_album_limit_keeps_first_albums(init, max);
        lemma_albums_in_len(init);
        let w = within_album_limit(init, max);
        let c = album_count(items);
        if !is_album(last) {
            assert(within_album_limit(items, max) == w.push(last));
            assert(w.push(last).drop_last() =~= w);
            assert(albums_in(w.push(last)) == albums_in(w));
            assert(non_albums_in(w.push(last)) == non_albums_in(w).push(last));
        } else if c <= max {
            assert(within_album_limit(items, max) == w.push(last));
            assert(w.push(last).drop_last() =~= w);
            assert(albums_in(w.push(last)) == albums_in(w).push(last));
            assert(albums_in(init).take((c - 1) as int) =~= albums_in(init));
            assert(albums_in(items).take(c as int) =~= albums_in(items));
        } else {
            assert(within_album_limit(items, max) == w);
            assert(albums_in(items) == albums_in(init).push(last));
            assert(albums_in(init).push(last).take(max as int) =~= albums_in(init).take(max as int));
        }
    }
}

/// The URLs of the items of the type `kind`, in order.
pub open spec fn urls_of_type(items: Seq<DiscographyItem>, kind: Seq<char>) -> Seq<Seq<char>>
    decreases items.len(),
{
    if items.len() == 0 {
        Seq::empty()
    } else if items.last().item_type@ == kind {
        urls_of_type(items.drop_last(), kind).push(items.last().url@)
    } else {
        urls_of_type(items.drop_last(), kind)
    }
}

/// Whether two strings are equal.
pub fn str_eq(a: &str, b: &str) -> (r: bool)
    ensures
        r == (a@ == b@),
{
    let x = chars_of(a);
    let y = chars_of(b);
    if x.len() != y.len() {
        return false;
    }
    let r = starts_with_chars(x.as_slice(), y.as_slice());
    proof {
        assert(x@.subrange(0, y@.len() as int) =~= x@);
    }
    r
}

/// Whether the type of an item is `"album"`.
fn is_album_type(t: &str) -> (r: bool)
    ensures
        r == (t@ == album()),
{
    let v = vec!['a', 'l', 'b', 'u', 'm'];
    assert(v@ =~= album());
    let a = string_from(v.as_slice());
    str_eq(t, a.as_str())
}

impl DiscographyParser {
    /// Makes a link of a page absolute, against the URL of the page's
    /// artist.
    pub fn normalize_url(url: &str, base_url: &str) -> (r: String)
        ensures
            r@ == normalized_url(url@, base_url@),
    {
        let u = chars_of(url);
        let http = vec!['h', 't', 't', 'p', ':', '/', '/'];
        let https = vec!['h', 't', 't', 'p', 's', ':', '/', '/'];
        let slashes = vec!['/', '/'];
        let slash = vec!['/'];
        assert(https@ =~= https_scheme() + seq!['/', '/']);
        assert(http@ =~= seq!['h', 't', 't', 'p', ':', '/', '/']);
        assert(slashes@ =~= seq!['/', '/']);
        assert(slash@ =~= seq!['/']);
        if starts_with_chars(u.as_slice(), http.as_slice()) || starts_with_chars(
            u.as_slice(),
            https.as_slice(),
        ) {
            return url.to_owned();
        }
        let mut out: Vec<char> = Vec::new();
        if starts_with_chars(u.as_slice(), slashes.as_slice()) {
            out.push('h');
            out.push('t');
            out.push('t');
            out.push('p');
            out.push('s');
            out.push(':');
            assert(out@ =~= https_scheme());
            push_chars(&mut out, u.as_slice());
        } else if starts_with_chars(u.as_slice(), slash.as_slice()) {
            let mv = vec!['/', 'm', 'u', 's', 'i', 'c'];
            assert(mv@ =~= music_suffix());
            let music = string_from(mv.as_slice());
            let base = trim_end_matches_str(base_url, music.as_str());
            push_str(&mut out, base.as_str());
            push_chars(&mut out, u.as_slice());
        } else {
            let sl = string_from(slash.as_slice());
            let base = trim_end_matches_str(base_url, sl.as_str());
            push_str(&mut out, base.as_str());
            out.push('/');
            push_chars(&mut out, u.as_slice());
        }
        assert(out@ =~= normalized_url(url@, base_url@));
        string_from(out.as_slice())
    }

    /// Collapses a text onto one line: each line is trimmed, empty lines
    /// are dropped, and the rest are joined by single spaces.
    pub fn normalize_text(text: &str) -> (r: String)
        ensures
            r@ == normalized_text(text@),
    {
        let ls = split_lines(text);
        let mut kept: Vec<String> = Vec::new();
        let mut i: usize = 0;
        while i < ls.len()
            invariant
                i <= ls.len(),
                views(ls@) == lines(text@),
                views(kept@) == kept_lines(views(ls@).subrange(0, i as int)),
            decreases ls.len() - i,
        {
            let ghost prefix = views(ls@).subrange(0, i + 1);
            assert(prefix.drop_last() =~= views(ls@).subrange(0, i as int));
            assert(prefix.last() == ls@[i as int]@);
            let t = trim_string(ls[i].as_str());
            if t.as_str().unicode_len() > 0 {
                let ghost before = views(kept@);
                kept.push(t);
                assert(views(kept@) =~= before.push(t@));
            }
            i = i + 1;
        }
        assert(views(ls@).subrange(0, ls@.len() as int) =~= views(ls@));
        let sv = vec![' '];
        assert(sv@ =~= seq![' ']);
        let space = string_from(sv.as_slice());
        join_str(kept.as_slice(), space.as_str())
    }

    /// The page that lists an artist's discography.
    pub fn music_url(artist_url: &str) -> (r: String)
        ensures
            r@ == music_page(artist_url@),
    {
        let u = chars_of(artist_url);
        let part = vec!['/', 'a', 'l', 'b', 'u', 'm', '/'];
        assert(part@ =~= album_part());
        if crate::text::contains_chars(u.as_slice(), part.as_slice()) {
            return artist_url.to_owned();
        }
        let sv = vec!['/'];
        let mv = vec!['/', 'm', 'u', 's', 'i', 'c'];
        assert(sv@ =~= seq!['/']);
        assert(mv@ =~= music_suffix());
        let slash = string_from(sv.as_slice());
        let music = string_from(mv.as_slice());
        let a = trim_end_matches_str(artist_url, slash.as_str());
        let b = trim_end_matches_str(a.as_str(), music.as_str());
        let mut out: Vec<char> = Vec::new();
        push_str(&mut out, b.as_str());
        push_str(&mut out, music.as_str());
        assert(out@ =~= music_page(artist_url@));
        string_from(out.as_slice())
    }

    /// Keeps at most `max_albums` albums, the first ones, when a positive
    /// limit is given; items of other types all stay.
    pub fn limit_albums(items: Vec<DiscographyItem>, max_albums: Option<usize>) -> (r: Vec<
        DiscographyItem,
    >)
        ensures
            max_albums matches Some(m) ==> r@ == if m > 0 {
                within_album_limit(items@, m as nat)
            } else {
                items@
            },
            max_albums is None ==> r@ == items@,
    {
        let max = match max_albums {
            Some(m) if m > 0 => m,
            _ => {
                return items;
            },
        };
        let ghost all = items@;
        assert(all.len() == items.len());
        let mut rest = items;
        let mut kept: Vec<DiscographyItem> = Vec::new();
        let mut count: usize = 0;
        let mut i: usize = 0;
        while rest.len() > 0
            invariant
                i + rest@.len() == all.len(),
                all.len() <= usize::MAX,
                rest@ == all.subrange(i as int, all.len() as int),
                count == album_count(all.subrange(0, i as int)),
                count <= i,
                kept@ == within_album_limit(all.subrange(0, i as int), max as nat),
            decreases rest.len(),
        {
            let item = rest.remove(0);
            let ghost prefix = all.subrange(0, i + 1);
            assert(prefix.drop_last() =~= all.subrange(0, i as int));
            assert(prefix.last() == item);
            if is_album_type(item.item_type.as_str()) {
                count = count + 1;
                if count <= max {
                    kept.push(item);
                }
            } else {
                kept.push(item);
            }
            i = i + 1;
            assert(rest@ =~= all.subrange(i as int, all.len() as int));
        }
        assert(all.subrange(0, all.len() as int) =~= all);
        kept
    }

    /// The URLs whose tracks are fetched: those of the albums, then those
    /// of the single tracks.
    pub fn track_source_urls(items: &[DiscographyItem]) -> (r: Vec<String>)
        ensures
            views(r@) == urls_of_type(items@, album()) + urls_of_type(items@, track()),
    {
        let mut albums: Vec<String> = Vec::new();
        let mut tracks: Vec<String> = Vec::new();
        let a = string_from(vec!['a', 'l', 'b', 'u', 'm'].as_slice());
        let t = string_from(vec!['t', 'r', 'a', 'c', 'k'].as_slice());
        let mut i: usize = 0;
        while i < items.len()
            invariant
                i <= items.len(),
                a@ == album(),
                t@ == track(),
                views(albums@) == urls_of_type(items@.subrange(0, i as int), album()),
                views(tracks@) == urls_of_type(items@.subrange(0, i as int), track()),
            decreases items.len() - i,
        {
            let ghost prefix = items@.subrange(0, i + 1);
            assert(prefix.drop_last() =~= items@.subrange(0, i as int));
            assert(prefix.last() == items@[i as int]);
            if str_eq(items[i].item_type.as_str(), a.as_str()) {
                let ghost before = views(albums@);
                albums.push(items[i].url.clone());
                assert(views(albums@) =~= before.push(items@[i as int].url@));
            } else if str_eq(items[i].item_type.as_str(), t.as_str()) {
                let ghost before = views(tracks@);
                tracks.push(items[i].url.clone());
                assert(views(tracks@) =~= before.push(items@[i as int].url@));
            }
            i = i + 1;
        }
        assert(items@.subrange(0, items@.len() as int) =~= items@);
        let ghost x = views(albums@);
        let ghost y = views(tracks@);
        albums.append(&mut tracks);
        assert(views(albums@) =~= x + y);
        albums
    }
}

/// The next step of fetching a page, after the answer to attempt number
/// `attempt` (counted from 1, five at most).
#[derive(PartialEq, Eq, Structural, Debug, Clone, Copy)]
pub enum FetchStep {
    /// Rate limited: wait, then try again.
    Retry,
    /// Still rate limited after the last attempt.
    RateLimited,
    /// An HTTP error other than rate limiting.
    Failed,
    /// A success: read the page.
    Done,
}

/// The number of attempts at fetching a page.
pub open spec fn max_attempts() -> u32 {
    5
}

/// The step after the answer to an attempt.
pub open spec fn fetch_step_spec(attempt: u32, status: u16) -> FetchStep {
    if status == 429 {
        if attempt < max_attempts() {
            FetchStep::Retry
        } else {
            FetchStep::RateLimited
        }
    } else if !(200 <= status <= 299) {
        FetchStep::Failed
    } else {
        FetchStep::Done
    }
}

/// The word that introduces the report of a failed item.
pub open spec fn failure_word(message: Seq<char>) -> Seq<char> {
    if crate::text::contains(message, "Rate limited"@) {
        "WARNING"@
    } else {
        "ERROR"@
    }
}

impl DiscographyParser {
    /// Decides what follows the answer to an attempt at fetching a page:
    /// rate limiting is retried until the last attempt, other HTTP errors
    /// fail, and a success is read.
    pub fn fetch_step(attempt: u32, status: u16) -> (r: FetchStep)
        ensures
            r == fetch_step_spec(attempt, status),
    {
        if status == 429 {
            if attempt < 5 {
                FetchStep::Retry
            } else {
                FetchStep::RateLimited
            }
        } else if !(200 <= status && status <= 299) {
            FetchStep::Failed
        } else {
            FetchStep::Done
        }
    }

    /// Gives its tracks to the first item with the URL `url`, if any.
    pub fn set_tracks(items: &mut Vec<DiscographyItem>, url: &str, tracks: Vec<TrackInfo>)
        ensures
            item_views(final(items)@) == tracks_set(item_views(old(items)@), url@, track_views(tracks@)),
            final(items)@.len() == old(items)@.len(),
            forall|k: int|
                0 <= k < old(items)@.len() && old(items)@[k].url@ != url@ ==> final(items)@[k]
                    == old(items)@[k],
            forall|k: int|
                0 <= k < old(items)@.len() && old(items)@[k].url@ == url@ && (forall|j: int|
                    0 <= j < k ==> old(items)@[j].url@ != url@) ==> {
                    let (a, b) = (final(items)@[k], old(items)@[k]);
                    &&& a.tracks == Some(tracks)
                    &&& a.item_type == b.item_type
                    &&& a.id == b.id
                    &&& a.name == b.name
                    &&& a.url == b.url
                    &&& a.image_url == b.image_url
                },
            forall|k: int|
                0 <= k < old(items)@.len() && old(items)@[k].url@ == url@ && (exists|j: int|
                    0 <= j < k && old(items)@[j].url@ == url@) ==> final(items)@[k] == old(items)@[k],
    {
        let mut i: usize = 0;
        while i < items.len()
            invariant
                i <= items@.len(),
                items@ == old(items)@,
                forall|j: int| 0 <= j < i ==> items@[j].url@ != url@,
            decreases items.len() - i,
        {
            if str_eq(items[i].url.as_str(), url) {
                let ghost vs = item_views(items@);
                proof {
                    assert forall|j: int| 0 <= j < i implies vs[j].url != url@ by {
                        assert(vs[j].url == items@[j].url@);
                    }
                    lemma_tracks_set_at(vs, url@, track_views(tracks@), i as int);
                }
                items[i].tracks = Some(tracks);
                assert(item_views(items@) =~= vs.update(
                    i as int,
                    with_item_tracks(vs[i as int], track_views(tracks@)),
                ));
                return;
            }
            i = i + 1;
        }
        proof {
            let vs = item_views(items@);
            assert forall|j: int| 0 <= j < vs.len() implies vs[j].url != url@ by {
                assert(vs[j].url == items@[j].url@);
            }
            lemma_tracks_set_none(vs, url@, track_views(tracks@));
        }
    }

    /// Applies the results of fetching the tracks of items, in the order
    /// they came: each track list fetched goes to the first item with its
    /// URL; a failed fetch (`None`) changes nothing.
    pub fn set_fetched_tracks(
        items: &mut Vec<DiscographyItem>,
        results: Vec<(String, Option<Vec<TrackInfo>>)>,
    )
        ensures
            item_views(final(items)@) == fetched_tracks_set(
                item_views(old(items)@),
                result_views(results@),
            ),
    {
        let ghost all = result_views(results@);
        let ghost start = item_views(items@);
        assert(all.len() == results.len());
        let mut rest = results;
        let mut i: usize = 0;
        assert(all.subrange(0, 0) =~= Seq::<(Seq<char>, Option<Seq<TrackView>>)>::empty());
        while rest.len() > 0
            invariant
                i + rest@.len() == all.len(),
                all.len() <= usize::MAX,
                result_views(rest@) == all.subrange(i as int, all.len() as int),
                item_views(items@) == fetched_tracks_set(start, all.subrange(0, i as int)),
            decreases rest.len(),
        {
            let ghost before = result_views(rest@);
            let (url, fetched) = rest.remove(0);
            assert(before[0] == all[i as int]);
            assert(all.subrange(0, i + 1).drop_last() =~= all.subrange(0, i as int));
            assert(all.subrange(0, i + 1).last() == all[i as int]);
            assert(result_views(rest@) =~= before.drop_first());
            match fetched {
                Some(tracks) => {
                    Self::set_tracks(items, url.as_str(), tracks);
                },
                None => {},
            }
            i = i + 1;
            assert(result_views(rest@) =~= all.subrange(i as int, all.len() as int));
        }
        assert(all.subrange(0, all.len() as int) =~= all);
    }

    /// The word that introduces the report of a failed item: a warning when
    /// the failure was rate limiting, an error otherwise.
    pub fn failure_word(message: &str) -> (r: &'static str)
        ensures
            r@ == failure_word(message@),
    {
        let m = chars_of(message);
        let p = chars_of("Rate limited");
        if crate::text::contains_chars(m.as_slice(), p.as_slice()) {
            "WARNING"
        } else {
            "ERROR"
        }
    }
}

} // verus!
