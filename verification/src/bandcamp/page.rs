//! Discography pages: the items that a page lists, gathered by URL.
use vstd::prelude::*;

use super::album::group;
use super::discography::{
    item_views, ItemView, album, excluded, excluded_album_ids, is_album_excluded, normalized_text, normalized_url, str_eq, track,
    DiscographyItem, DiscographyParser,
};
use super::dom::{
    count_matches, nested_view, opt_views, select_attr, select_first_text, select_inner_attr,
    select_inner_text, select_parent_attr, spec_match_count, spec_select_attr,
    spec_select_first_text, spec_select_inner_attr, spec_select_inner_text,
    spec_select_parent_attr,
};
use super::pattern::{
    decode_html_entities, regex_captures, regex_replace, spec_decode_html_entities,
    spec_regex_captures, spec_regex_replace,
};
use crate::text::number::{parse_u64, parsed_u64};
use crate::text::{chars_of, contains, contains_chars, push_decimal, push_str, starts_with,
    starts_with_chars, string_from, decimal,
};
use crate::tracks::list::opt_view;

verus! {

/// No two items share a URL.
pub open spec fn urls_unique(items: Seq<DiscographyItem>) -> bool {
    forall|i: int, j: int| 0 <= i < j < items.len() ==> items[i].url@ != items[j].url@
}

/// Some item has the URL `url`.
pub open spec fn has_url(items: Seq<DiscographyItem>, url: Seq<char>) -> bool {
    exists|i: int| 0 <= i < items.len() && items[i].url@ == url
}

/// The items not excluded, in order.
pub open spec fn not_excluded(items: Seq<DiscographyItem>) -> Seq<DiscographyItem>
    decreases items.len(),
{
    if items.len() == 0 {
        Seq::empty()
    } else if excluded(items.last()) {
        not_excluded(items.drop_last())
    } else {
        not_excluded(items.drop_last()).push(items.last())
    }
}

/// The position of the item with the URL `url`, if any.
pub fn find_url(items: &[DiscographyItem], url: &str) -> (r: Option<usize>)
    ensures
        r is None <==> !has_url(items@, url@),
        r matches Some(i) ==> i < items@.len() && items@[i as int].url@ == url@,
{
    let mut i: usize = 0;
    while i < items.len()
        invariant
            i <= items.len(),
            forall|j: int| 0 <= j < i ==> items@[j].url@ != url@,
        decreases items.len() - i,
    {
        if str_eq(items[i].url.as_str(), url) {
            return Some(i);
        }
        i = i + 1;
    }
    None
}

/// Puts an item in the collection under its URL: it takes the place of the
/// item with the same URL, if there is one, and goes at the end otherwise.
pub fn insert_item(items: &mut Vec<DiscographyItem>, item: DiscographyItem)
    requires
        urls_unique(old(items)@),
    ensures
        urls_unique(final(items)@),
        has_url(old(items)@, item.url@) ==> exists|i: int|
            0 <= i < old(items)@.len() && old(items)@[i].url@ == item.url@ && final(items)@ == old(
                items,
            )@.update(i, item),
        !has_url(old(items)@, item.url@) ==> final(items)@ == old(items)@.push(item),
        item_views(final(items)@) == put_item(item_views(old(items)@), item@),
{
    let ghost vs = item_views(items@);
    proof {
        lemma_views_have_url(items@, item.url@);
    }
    match find_url(items.as_slice(), item.url.as_str()) {
        Some(i) => {
            proof {
                assert(vs[i as int].url == item@.url);
                let j = choose|j: int| 0 <= j < vs.len() && vs[j].url == item@.url;
                assert(items@[j].url@ == items@[i as int].url@);
                assert(j == i);
            }
            items.set(i, item);
            assert(item_views(items@) =~= vs.update(i as int, item@));
        },
        None => {
            items.push(item);
            assert(item_views(items@) =~= vs.push(item@));
        },
    }
}

/// Puts an item in the collection unless an item with its URL is there
/// already; returns whether it was put.
pub fn insert_new_item(items: &mut Vec<DiscographyItem>, item: DiscographyItem) -> (r: bool)
    requires
        urls_unique(old(items)@),
    ensures
        urls_unique(final(items)@),
        r == !has_url(old(items)@, item.url@),
        r ==> final(items)@ == old(items)@.push(item),
        !r ==> final(items)@ == old(items)@,
        item_views(final(items)@) == put_new_item(item_views(old(items)@), item@),
{
    let ghost vs = item_views(items@);
    proof {
        lemma_views_have_url(items@, item.url@);
    }
    match find_url(items.as_slice(), item.url.as_str()) {
        Some(_) => false,
        None => {
            items.push(item);
            assert(item_views(items@) =~= vs.push(item@));
            true
        },
    }
}

/// The items that are not excluded albums, in order.
pub fn without_excluded(items: Vec<DiscographyItem>) -> (r: Vec<DiscographyItem>)
    ensures
        r@ == not_excluded(items@),
{
    let ghost all = items@;
    assert(all.len() == items.len());
    let mut rest = items;
    let mut kept: Vec<DiscographyItem> = Vec::new();
    let mut i: usize = 0;
    while rest.len() > 0
        invariant
            i + rest@.len() == all.len(),
            all.len() <= usize::MAX,
            rest@ == all.subrange(i as int, all.len() as int),
            kept@ == not_excluded(all.subrange(0, i as int)),
        decreases rest.len(),
    {
        let item = rest.remove(0);
        let ghost prefix = all.subrange(0, i + 1);
        assert(prefix.drop_last() =~= all.subrange(0, i as int));
        assert(prefix.last() == item);
        if !is_album_excluded(&item) {
            kept.push(item);
        }
        i = i + 1;
        assert(rest@ =~= all.subrange(i as int, all.len() as int));
    }
    assert(all.subrange(0, all.len() as int) =~= all);
    kept
}

/// The record of a single item's page (its `application/ld+json` script):
/// the fields that are read, where they are strings.
#[derive(Debug)]
pub struct JsonLd {
    /// `@type`.
    pub ld_type: Option<String>,
    /// `name`.
    pub name: Option<String>,
    /// `url`.
    pub url: Option<String>,
    /// `image`.
    pub image: Option<String>,
}

/// Why a page could not be read.
#[derive(Debug)]
pub enum PageError {
    /// The record of a single item's page has no `@type`.
    MissingType,
}

/// The kind of item that a record's `@type` describes.
pub open spec fn ld_kind(t: Seq<char>) -> Seq<char> {
    if contains(t, "MusicAlbum"@) {
        album()
    } else if contains(t, "MusicRecording"@) {
        track()
    } else {
        "unknown"@
    }
}

/// The item that a single item's record describes.
pub open spec fn ld_item_is(r: DiscographyItem, data: JsonLd, artist_url: Seq<char>) -> bool {
    &&& data.ld_type matches Some(t) && r.item_type@ == ld_kind(t@)
    &&& r.id is None
    &&& r.name@ == match data.name {
        Some(n) => n@,
        None => "Unknown"@,
    }
    &&& r.url@ == match data.url {
        Some(u) => normalized_url(u@, artist_url),
        None => artist_url,
    }
    &&& opt_view(r.image_url) == match data.image {
        Some(i) => Some(normalized_url(i@, artist_url)),
        None => None,
    }
    &&& r.tracks is None
}

/// An entry of a discography page's `data-client-items` list: the fields
/// that are read, where they have the right type.
#[derive(Debug)]
pub struct ClientItem {
    /// `type`.
    pub item_type: Option<String>,
    /// `page_url`.
    pub page_url: Option<String>,
    /// `title`.
    pub title: Option<String>,
    /// `art_id`.
    pub art_id: Option<u64>,
    /// `id`.
    pub id: Option<u64>,
}

/// The cover art URL for an art id.
pub open spec fn art_url(art_id: nat) -> Seq<char> {
    "https://f4.bcbits.com/img/a"@ + decimal(art_id) + "_9.jpg"@
}

/// Whether an entry of the list describes an album or a track, with a page
/// and a title.
pub open spec fn client_entry_usable(c: ClientItem) -> bool {
    &&& c.item_type matches Some(t) && (t@ == album() || t@ == track())
    &&& c.page_url is Some
    &&& c.title is Some
}

/// A link to an album or a track on a discography page, with what the page
/// holds around it.
#[derive(Debug)]
pub struct PageLink {
    /// The link's `href`.
    pub href: Option<String>,
    /// The `data-item-id` of the link's parent element.
    pub parent_item_id: Option<String>,
    /// The `data-item-id` of each listed item whose first album link has
    /// the same `href`, in the page's order.
    pub listed_item_ids: Vec<String>,
    /// The text of the link's first `.title` element.
    pub title: Option<String>,
    /// The `data-original` of the link's first image.
    pub image_original: Option<String>,
    /// The `src` of the link's first image.
    pub image_src: Option<String>,
}

/// Whether a link's `href` starts with `prefix`.
pub open spec fn link_has_prefix(link: PageLink, prefix: Seq<char>) -> bool {
    match link.href {
        Some(h) => starts_with(h@, prefix),
        None => false,
    }
}

/// The absolute URL of a link.
pub open spec fn link_url(link: PageLink, artist_url: Seq<char>) -> Seq<char> {
    match link.href {
        Some(h) => normalized_url(h@, artist_url),
        None => Seq::empty(),
    }
}

/// The pattern of an item id in a `data-item-id`.
pub open spec fn id_pattern() -> Seq<char> {
    r"(?:album|track)-(\d+)$"@
}

/// The id that a `data-item-id` value holds, if it is one and the number
/// fits in 64 bits.
pub open spec fn item_id_of(s: Seq<char>) -> Option<Option<u64>> {
    match spec_regex_captures(id_pattern(), s, false) {
        Some(g) => Some(parsed_u64(group(g, 1))),
        None => None,
    }
}

/// The id of an item from the first of `ids` that is an id value.
pub open spec fn first_listed_id(ids: Seq<Seq<char>>) -> Option<u64>
    decreases ids.len(),
{
    if ids.len() == 0 {
        None
    } else {
        match item_id_of(ids[0]) {
            Some(r) => r,
            None => first_listed_id(ids.drop_first()),
        }
    }
}

/// The id of a linked item: from its parent's `data-item-id`, else from the
/// listed items with the same link.
pub open spec fn link_id(parent: Option<Seq<char>>, listed: Seq<Seq<char>>) -> Option<u64> {
    let from_parent = match parent {
        Some(p) => match item_id_of(p) {
            Some(r) => r,
            None => None,
        },
        None => None,
    };
    if from_parent is Some {
        from_parent
    } else {
        first_listed_id(listed)
    }
}

/// The pattern of the size suffix of an image file.
pub open spec fn image_size_pattern() -> Seq<char> {
    r"_(\d+)\.jpg$"@
}

/// The image of a link, at the size that the player uses.
pub open spec fn link_image(original: Option<Seq<char>>, src: Option<Seq<char>>) -> Option<
    Seq<char>,
> {
    let chosen = if original is Some {
        original
    } else {
        src
    };
    match chosen {
        Some(s) => Some(
            match spec_regex_replace(image_size_pattern(), s, "_9.jpg"@) {
                Some(x) => x,
                None => s,
            },
        ),
        None => None,
    }
}

/// Whether a page shows a single item rather than a discography: it has no
/// `#discography` element, or that element is hidden or lists at most one
/// item.
pub open spec fn single_page(discography_style: Option<Option<Seq<char>>>, listed: nat) -> bool {
    match discography_style {
        None => true,
        Some(style) => contains(
            match style {
                Some(s) => s,
                None => Seq::empty(),
            },
            "display: none"@,
        ) || listed <= 1,
    }
}

/// The first entry of a list, if any.
pub open spec fn first_of<A>(s: Seq<A>) -> Option<A> {
    if s.len() > 0 {
        Some(s[0])
    } else {
        None
    }
}

/// The present entries of a list, in order.
pub open spec fn present<A>(s: Seq<Option<A>>) -> Seq<A>
    decreases s.len(),
{
    if s.len() == 0 {
        Seq::empty()
    } else {
        match s.last() {
            Some(x) => present(s.drop_last()).push(x),
            None => present(s.drop_last()),
        }
    }
}

/// The `data-item-id`s, among the first `n` listed items, of those whose
/// first album link is `href`, given each listed item's first album link
/// and `data-item-id`.
pub open spec fn listed_ids_for(
    href: Seq<char>,
    links: Seq<Option<Option<Seq<char>>>>,
    ids: Seq<Option<Seq<char>>>,
    n: nat,
) -> Seq<Seq<char>>
    decreases n,
{
    if n == 0 {
        Seq::empty()
    } else {
        let rest = listed_ids_for(href, links, ids, (n - 1) as nat);
        if links[n - 1] == Some(Some(href)) && ids[n - 1] is Some {
            rest.push(ids[n - 1]->0)
        } else {
            rest
        }
    }
}

/// An optional optional value, flattened.
pub open spec fn flat<A>(o: Option<Option<A>>) -> Option<A> {
    match o {
        Some(Some(x)) => Some(x),
        _ => None,
    }
}

/// Whether an optional `href` starts with `prefix`.
pub open spec fn href_has_prefix(href: Option<Seq<char>>, prefix: Seq<char>) -> bool {
    match href {
        Some(h) => starts_with(h, prefix),
        None => false,
    }
}

/// The absolute URL of an optional `href`.
pub open spec fn href_url(href: Option<Seq<char>>, artist_url: Seq<char>) -> Seq<char> {
    match href {
        Some(h) => normalized_url(h, artist_url),
        None => Seq::empty(),
    }
}

/// The selector of the listed items of a discography page.
pub open spec fn listed_selector() -> Seq<char> {
    "li[data-item-id]"@
}

/// The selector of album links.
pub open spec fn album_links_selector() -> Seq<char> {
    "a[href*='/album/']"@
}

/// The selector of track links.
pub open spec fn track_links_selector() -> Seq<char> {
    "a[href*='/track/']"@
}

/// The link at position `i` among those that `selector` matches on the page
/// `html`, with what the page holds around it.
pub open spec fn page_link_is(l: PageLink, html: Seq<char>, selector: Seq<char>, i: int) -> bool {
    &&& opt_view(l.href) == spec_select_attr(html, selector, "href"@)[i]
    &&& opt_view(l.parent_item_id) == spec_select_parent_attr(html, selector, "data-item-id"@)[i]
    &&& opt_view(l.title) == spec_select_inner_text(html, selector, ".title"@)[i]
    &&& opt_view(l.image_original) == flat(
        spec_select_inner_attr(html, selector, "img"@, "data-original"@)[i],
    )
    &&& opt_view(l.image_src) == flat(spec_select_inner_attr(html, selector, "img"@, "src"@)[i])
    &&& l.listed_item_ids@.map_values(|s: String| s@) == match opt_view(l.href) {
        Some(h) => listed_ids_for(
            h,
            spec_select_inner_attr(html, listed_selector(), album_links_selector(), "href"@),
            spec_select_attr(html, listed_selector(), "data-item-id"@),
            spec_match_count(html, listed_selector()),
        ),
        None => Seq::empty(),
    }
}

/// What a link holds, as text.
pub struct LinkView {
    /// The link's `href`.
    pub href: Option<Seq<char>>,
    /// The `data-item-id` of the link's parent element.
    pub parent_item_id: Option<Seq<char>>,
    /// The `data-item-id`s of the listed items with the same link.
    pub listed_item_ids: Seq<Seq<char>>,
    /// The text of the link's first `.title` element.
    pub title: Option<Seq<char>>,
    /// The `data-original` of the link's first image.
    pub image_original: Option<Seq<char>>,
    /// The `src` of the link's first image.
    pub image_src: Option<Seq<char>>,
}

impl View for PageLink {
    type V = LinkView;

    open spec fn view(&self) -> LinkView {
        LinkView {
            href: opt_view(self.href),
            parent_item_id: opt_view(self.parent_item_id),
            listed_item_ids: self.listed_item_ids@.map_values(|s: String| s@),
            title: opt_view(self.title),
            image_original: opt_view(self.image_original),
            image_src: opt_view(self.image_src),
        }
    }
}

/// The views of links, in order.
pub open spec fn link_views(links: Seq<PageLink>) -> Seq<LinkView> {
    links.map_values(|l: PageLink| l@)
}

/// The links that `selector` matches on the page `html`, with what the
/// page holds around each.
pub open spec fn page_link_views(html: Seq<char>, selector: Seq<char>) -> Seq<LinkView> {
    Seq::new(
        spec_match_count(html, selector),
        |i: int|
            LinkView {
                href: spec_select_attr(html, selector, "href"@)[i],
                parent_item_id: spec_select_parent_attr(html, selector, "data-item-id"@)[i],
                listed_item_ids: match spec_select_attr(html, selector, "href"@)[i] {
                    Some(h) => listed_ids_for(
                        h,
                        spec_select_inner_attr(html, listed_selector(), album_links_selector(), "href"@),
                        spec_select_attr(html, listed_selector(), "data-item-id"@),
                        spec_match_count(html, listed_selector()),
                    ),
                    None => Seq::empty(),
                },
                title: spec_select_inner_text(html, selector, ".title"@)[i],
                image_original: flat(spec_select_inner_attr(html, selector, "img"@, "data-original"@)[i]),
                image_src: flat(spec_select_inner_attr(html, selector, "img"@, "src"@)[i]),
            },
    )
}

/// Some item view has the URL `url`.
pub open spec fn views_have_url(items: Seq<ItemView>, url: Seq<char>) -> bool {
    exists|i: int| 0 <= i < items.len() && items[i].url == url
}

/// `items` with `item` put in under its URL: in place of the item with
/// that URL if there is one, at the end otherwise.
pub open spec fn put_item(items: Seq<ItemView>, item: ItemView) -> Seq<ItemView> {
    if views_have_url(items, item.url) {
        items.update(choose|i: int| 0 <= i < items.len() && items[i].url == item.url, item)
    } else {
        items.push(item)
    }
}

/// `items` with `item` added at the end, unless an item has its URL.
pub open spec fn put_new_item(items: Seq<ItemView>, item: ItemView) -> Seq<ItemView> {
    if views_have_url(items, item.url) {
        items
    } else {
        items.push(item)
    }
}

/// The item that a usable entry of the `data-client-items` list describes.
pub open spec fn client_item_view(c: ClientItem, artist_url: Seq<char>) -> ItemView {
    ItemView {
        item_type: opt_view(c.item_type)->0,
        id: c.id,
        name: opt_view(c.title)->0,
        url: normalized_url(opt_view(c.page_url)->0, artist_url),
        image_url: match c.art_id {
            Some(a) => Some(art_url(a as nat)),
            None => None,
        },
        tracks: None,
    }
}

/// The collection after the usable entries of the list are put in, one
/// after the other.
pub open spec fn with_client_items(
    items: Seq<ItemView>,
    entries: Seq<ClientItem>,
    artist_url: Seq<char>,
) -> Seq<ItemView>
    decreases entries.len(),
{
    if entries.len() == 0 {
        items
    } else {
        let before = with_client_items(items, entries.drop_last(), artist_url);
        if client_entry_usable(entries.last()) {
            put_item(before, client_item_view(entries.last(), artist_url))
        } else {
            before
        }
    }
}

/// The item of type `kind` that a link describes.
pub open spec fn link_item_view(link: LinkView, kind: Seq<char>, artist_url: Seq<char>) -> ItemView {
    ItemView {
        item_type: kind,
        id: link_id(link.parent_item_id, link.listed_item_ids),
        name: match link.title {
            Some(t) => normalized_text(t),
            None => "Unknown"@,
        },
        url: href_url(link.href, artist_url),
        image_url: link_image(link.image_original, link.image_src),
        tracks: None,
    }
}

/// The collection after the items of the links whose `href` starts with
/// `prefix` are added, one after the other, each unless its URL is there.
pub open spec fn with_links(
    items: Seq<ItemView>,
    links: Seq<LinkView>,
    prefix: Seq<char>,
    kind: Seq<char>,
    artist_url: Seq<char>,
) -> Seq<ItemView>
    decreases links.len(),
{
    if links.len() == 0 {
        items
    } else {
        let before = with_links(items, links.drop_last(), prefix, kind, artist_url);
        if href_has_prefix(links.last().href, prefix) {
            put_new_item(before, link_item_view(links.last(), kind, artist_url))
        } else {
            before
        }
    }
}

/// The items that a discography page lists, before the excluded albums are
/// left out: the usable entries of its `data-client-items` list, then its
/// album links, then its track links.
pub open spec fn discography_items(
    html: Seq<char>,
    artist_url: Seq<char>,
    client_items: Seq<ClientItem>,
) -> Seq<ItemView> {
    let listed = with_client_items(Seq::empty(), client_items, artist_url);
    let albums = with_links(
        listed,
        page_link_views(html, album_links_selector()),
        "/album/"@,
        "album"@,
        artist_url,
    );
    with_links(albums, page_link_views(html, track_links_selector()), "/track/"@, "track"@, artist_url)
}

/// The item views that are not excluded albums, in order.
pub open spec fn kept_views(items: Seq<ItemView>) -> Seq<ItemView>
    decreases items.len(),
{
    if items.len() == 0 {
        Seq::empty()
    } else if items.last().id matches Some(id) && excluded_album_ids().contains(id) {
        kept_views(items.drop_last())
    } else {
        kept_views(items.drop_last()).push(items.last())
    }
}

/// No two item views share a URL.
pub open spec fn view_urls_unique(items: Seq<ItemView>) -> bool {
    forall|i: int, j: int| 0 <= i < j < items.len() ==> items[i].url != items[j].url
}

/// Lemma: putting an item in keeps URLs unique.
proof fn lemma_put_unique(items: Seq<ItemView>, item: ItemView)
    requires
        view_urls_unique(items),
    ensures
        view_urls_unique(put_item(items, item)),
        view_urls_unique(put_new_item(items, item)),
{
    if views_have_url(items, item.url) {
        let c = choose|i: int| 0 <= i < items.len() && items[i].url == item.url;
        let r = items.update(c, item);
        assert forall|i: int, j: int| 0 <= i < j < r.len() implies r[i].url != r[j].url by {
            assert(r[i].url == items[i].url);
            assert(r[j].url == items[j].url);
        }
    } else {
        let r = items.push(item);
        assert forall|i: int, j: int| 0 <= i < j < r.len() implies r[i].url != r[j].url by {
            if j == items.len() {
                assert(r[i] == items[i]);
            }
        }
    }
}

/// Lemma: putting in the entries of the list keeps URLs unique.
proof fn lemma_client_items_unique(items: Seq<ItemView>, entries: Seq<ClientItem>, artist_url: Seq<char>)
    requires
        view_urls_unique(items),
    ensures
        view_urls_unique(with_client_items(items, entries, artist_url)),
    decreases entries.len(),
{
    if entries.len() > 0 {
        lemma_client_items_unique(items, entries.drop_last(), artist_url);
        lemma_put_unique(
            with_client_items(items, entries.drop_last(), artist_url),
            client_item_view(entries.last(), artist_url),
        );
    }
}

/// Lemma: adding the items of links keeps URLs unique.
proof fn lemma_links_unique(
    items: Seq<ItemView>,
    links: Seq<LinkView>,
    prefix: Seq<char>,
    kind: Seq<char>,
    artist_url: Seq<char>,
)
    requires
        view_urls_unique(items),
    ensures
        view_urls_unique(with_links(items, links, prefix, kind, artist_url)),
    decreases links.len(),
{
    if links.len() > 0 {
        lemma_links_unique(items, links.drop_last(), prefix, kind, artist_url);
        lemma_put_unique(
            with_links(items, links.drop_last(), prefix, kind, artist_url),
            link_item_view(links.last(), kind, artist_url),
        );
    }
}

/// Lemma: every kept view is one of the views.
proof fn lemma_kept_from(items: Seq<ItemView>)
    ensures
        forall|k: int|
            0 <= k < kept_views(items).len() ==> exists|m: int|
                0 <= m < items.len() && #[trigger] kept_views(items)[k] == items[m],
    decreases items.len(),
{
    if items.len() > 0 {
        lemma_kept_from(items.drop_last());
        let rest = kept_views(items.drop_last());
        assert forall|k: int| 0 <= k < kept_views(items).len() implies exists|m: int|
            0 <= m < items.len() && #[trigger] kept_views(items)[k] == items[m] by {
            if k < rest.len() {
                let m = choose|m: int| 0 <= m < items.drop_last().len() && rest[k] == items.drop_last()[m];
                assert(kept_views(items)[k] == items[m]);
            } else {
                assert(kept_views(items)[k] == items[items.len() - 1]);
            }
        }
    }
}

/// Lemma: leaving out excluded items keeps URLs unique.
proof fn lemma_kept_unique(items: Seq<ItemView>)
    requires
        view_urls_unique(items),
    ensures
        view_urls_unique(kept_views(items)),
    decreases items.len(),
{
    if items.len() > 0 {
        let init = items.drop_last();
        assert(view_urls_unique(init));
        lemma_kept_unique(init);
        lemma_kept_from(init);
        let rest = kept_views(init);
        let r = kept_views(items);
        assert forall|i: int, j: int| 0 <= i < j < r.len() implies r[i].url != r[j].url by {
            if j >= rest.len() {
                assert(r[j] == items.last());
                assert(r[i] == rest[i]);
                let m = choose|m: int| 0 <= m < init.len() && #[trigger] rest[i] == init[m];
                assert(init[m] == items[m]);
            } else {
                assert(r[i] == rest[i] && r[j] == rest[j]);
            }
        }
    }
}

/// No URL occurs twice among the items that a discography page is parsed
/// into.
pub proof fn law_discography_urls_unique(
    html: Seq<char>,
    artist_url: Seq<char>,
    client_items: Seq<ClientItem>,
)
    ensures
        view_urls_unique(kept_views(discography_items(html, artist_url, client_items))),
{
    let listed = with_client_items(Seq::empty(), client_items, artist_url);
    lemma_client_items_unique(Seq::empty(), client_items, artist_url);
    let albums = with_links(
        listed,
        page_link_views(html, album_links_selector()),
        "/album/"@,
        "album"@,
        artist_url,
    );
    lemma_links_unique(
        listed,
        page_link_views(html, album_links_selector()),
        "/album/"@,
        "album"@,
        artist_url,
    );
    lemma_links_unique(
        albums,
        page_link_views(html, track_links_selector()),
        "/track/"@,
        "track"@,
        artist_url,
    );
    lemma_kept_unique(discography_items(html, artist_url, client_items));
}

/// Lemma: an item has a URL exactly when its view does.
proof fn lemma_views_have_url(items: Seq<DiscographyItem>, url: Seq<char>)
    ensures
        has_url(items, url) == views_have_url(item_views(items), url),
{
    let vs = item_views(items);
    if has_url(items, url) {
        let i = choose|i: int| 0 <= i < items.len() && items[i].url@ == url;
        assert(vs[i].url == url);
    }
    if views_have_url(vs, url) {
        let i = choose|i: int| 0 <= i < vs.len() && vs[i].url == url;
        assert(items[i].url@ == url);
    }
}

/// Lemma: leaving out excluded items commutes with taking views.
proof fn lemma_kept_views(items: Seq<DiscographyItem>)
    ensures
        item_views(not_excluded(items)) == kept_views(item_views(items)),
    decreases items.len(),
{
    if items.len() == 0 {
        assert(item_views(not_excluded(items)) =~= Seq::<ItemView>::empty());
    } else {
        lemma_kept_views(items.drop_last());
        assert(item_views(items).drop_last() =~= item_views(items.drop_last()));
        assert(item_views(items).last() == items.last()@);
        if !excluded(items.last()) {
            assert(item_views(not_excluded(items)) =~= item_views(not_excluded(items.drop_last())).push(
                items.last()@,
            ));
        }
    }
}

/// A `data-item-id` value read as an item id.
fn item_id(s: &str) -> (r: Option<Option<u64>>)
    ensures
        r == item_id_of(s@),
{
    match regex_captures(r"(?:album|track)-(\d+)$", s, false) {
        Some(g) => {
            let t = super::album::group_text(&g, 1);
            Some(parse_u64(t.as_str()))
        },
        None => None,
    }
}

impl DiscographyParser {
    /// Whether a page shows a single item: `discography_style` is `None`
    /// without a `#discography` element, else that element's `style`;
    /// `listed` counts the items it lists.
    pub fn is_single_page(discography_style: Option<Option<&str>>, listed: usize) -> (r: bool)
        ensures
            r == single_page(
                match discography_style {
                    Some(Some(s)) => Some(Some(s@)),
                    Some(None) => Some(None),
                    None => None,
                },
                listed as nat,
            ),
    {
        match discography_style {
            None => true,
            Some(style) => {
                let s = match style {
                    Some(s) => chars_of(s),
                    None => Vec::new(),
                };
                let hidden = chars_of("display: none");
                contains_chars(s.as_slice(), hidden.as_slice()) || listed <= 1
            },
        }
    }

    /// The item that a single item's page describes; an error when its
    /// record has no `@type`.
    pub fn parse_json_ld(data: &JsonLd, artist_url: &str) -> (r: Result<
        Option<DiscographyItem>,
        PageError,
    >)
        ensures
            data.ld_type is None <==> r is Err,
            r matches Ok(o) ==> (o matches Some(item) && ld_item_is(item, *data, artist_url@)),
    {
        let t = match &data.ld_type {
            Some(t) => t,
            None => {
                return Err(PageError::MissingType);
            },
        };
        let tc = chars_of(t.as_str());
        let kind = if contains_chars(tc.as_slice(), chars_of("MusicAlbum").as_slice()) {
            "album".to_owned()
        } else if contains_chars(tc.as_slice(), chars_of("MusicRecording").as_slice()) {
            "track".to_owned()
        } else {
            "unknown".to_owned()
        };
        proof {
            reveal_strlit("album");
            reveal_strlit("track");
            assert("album"@ =~= album());
            assert("track"@ =~= track());
        }
        let name = match &data.name {
            Some(n) => n.clone(),
            None => "Unknown".to_owned(),
        };
        let url = match &data.url {
            Some(u) => Self::normalize_url(u.as_str(), artist_url),
            None => artist_url.to_owned(),
        };
        let image_url = match &data.image {
            Some(i) => Some(Self::normalize_url(i.as_str(), artist_url)),
            None => None,
        };
        Ok(Some(DiscographyItem { item_type: kind, id: None, name, url, image_url, tracks: None }))
    }

    /// The item that an entry of the `data-client-items` list describes, if
    /// the entry is usable.
    pub fn client_item(c: &ClientItem, artist_url: &str) -> (r: Option<DiscographyItem>)
        ensures
            r is Some <==> client_entry_usable(*c),
            r matches Some(item) ==> item@ == client_item_view(*c, artist_url@),
    {
        let (t, u, n) = match (&c.item_type, &c.page_url, &c.title) {
            (Some(t), Some(u), Some(n)) => (t, u, n),
            _ => {
                return None;
            },
        };
        let a = string_from(vec!['a', 'l', 'b', 'u', 'm'].as_slice());
        let k = string_from(vec!['t', 'r', 'a', 'c', 'k'].as_slice());
        assert(a@ =~= album());
        assert(k@ =~= track());
        if !str_eq(t.as_str(), a.as_str()) && !str_eq(t.as_str(), k.as_str()) {
            return None;
        }
        let url = Self::normalize_url(u.as_str(), artist_url);
        let image_url = match c.art_id {
            Some(art) => {
                let mut v = chars_of("https://f4.bcbits.com/img/a");
                push_decimal(&mut v, art);
                push_str(&mut v, "_9.jpg");
                Some(string_from(v.as_slice()))
            },
            None => None,
        };
        Some(
            DiscographyItem {
                item_type: t.clone(),
                id: c.id,
                name: n.clone(),
                url,
                image_url,
                tracks: None,
            },
        )
    }

    /// Puts the usable entries of a page's `data-client-items` list into
    /// the collection, each under its URL.
    pub fn extract_data_client_items(
        entries: &[ClientItem],
        artist_url: &str,
        items: &mut Vec<DiscographyItem>,
    )
        requires
            urls_unique(old(items)@),
        ensures
            urls_unique(final(items)@),
            forall|i: int|
                0 <= i < entries@.len() && client_entry_usable(#[trigger] entries@[i])
                    ==> has_url(final(items)@, normalized_url(entries@[i].page_url->0@, artist_url@)),
            forall|u: Seq<char>| #[trigger] has_url(old(items)@, u) ==> has_url(final(items)@, u),
            item_views(final(items)@) == with_client_items(item_views(old(items)@), entries@, artist_url@),
    {
        let mut i: usize = 0;
        assert(entries@.subrange(0, 0) =~= Seq::<ClientItem>::empty());
        while i < entries.len()
            invariant
                i <= entries.len(),
                urls_unique(items@),
                item_views(items@) == with_client_items(
                    item_views(old(items)@),
                    entries@.subrange(0, i as int),
                    artist_url@,
                ),
                forall|j: int|
                    0 <= j < i && client_entry_usable(#[trigger] entries@[j]) ==> has_url(
                        items@,
                        normalized_url(entries@[j].page_url->0@, artist_url@),
                    ),
                forall|u: Seq<char>| #[trigger] has_url(old(items)@, u) ==> has_url(items@, u),
            decreases entries.len() - i,
        {
            assert(entries@.subrange(0, i + 1).drop_last() =~= entries@.subrange(0, i as int));
            assert(entries@.subrange(0, i + 1).last() == entries@[i as int]);
            match Self::client_item(&entries[i], artist_url) {
                Some(item) => {
                    let ghost before = items@;
                    let ghost url = item.url@;
                    insert_item(items, item);
                    assert forall|u: Seq<char>| #[trigger] has_url(before, u) implies has_url(
                        items@,
                        u,
                    ) by {
                        let k = choose|k: int| 0 <= k < before.len() && before[k].url@ == u;
                        if before[k].url@ == url {
                            assert(items@.last().url@ == u || exists|m: int|
                                0 <= m < before.len() && items@[m].url@ == url);
                        }
                        assert(items@[k].url@ == u);
                    }
                    assert(has_url(items@, url)) by {
                        if has_url(before, url) {
                            let m = choose|m: int|
                                0 <= m < before.len() && before[m].url@ == url && items@
                                    == before.update(m, items@[m]);
                            assert(items@[m].url@ == url);
                        } else {
                            assert(items@[before.len() as int].url@ == url);
                        }
                    }
                },
                None => {},
            }
            i = i + 1;
        }
        assert(entries@.subrange(0, entries@.len() as int) =~= entries@);
    }

    /// The id of a linked item, read from its parent's `data-item-id`, else
    /// from the first listed item with the same link whose `data-item-id`
    /// holds an id.
    pub fn extract_id(parent_item_id: Option<&str>, listed_item_ids: &[String]) -> (r: Option<u64>)
        ensures
            r == link_id(
                match parent_item_id {
                    Some(p) => Some(p@),
                    None => None,
                },
                listed_item_ids@.map_values(|s: String| s@),
            ),
    {
        let from_parent = match parent_item_id {
            Some(p) => match item_id(p) {
                Some(r) => r,
                None => None,
            },
            None => None,
        };
        if from_parent.is_some() {
            return from_parent;
        }
        let ghost ids = listed_item_ids@.map_values(|s: String| s@);
        let ghost pv = match parent_item_id {
            Some(p) => Some(p@),
            None => None::<Seq<char>>,
        };
        assert(link_id(pv, ids) == first_listed_id(ids));
        assert(ids.subrange(0, ids.len() as int) =~= ids);
        let mut i: usize = 0;
        while i < listed_item_ids.len()
            invariant
                i <= listed_item_ids.len(),
                ids == listed_item_ids@.map_values(|s: String| s@),
                link_id(pv, ids) == first_listed_id(ids),
                pv == match parent_item_id {
                    Some(p) => Some(p@),
                    None => None,
                },
                first_listed_id(ids) == first_listed_id(ids.subrange(i as int, ids.len() as int)),
            decreases listed_item_ids.len() - i,
        {
            let ghost rest = ids.subrange(i as int, ids.len() as int);
            assert(rest.drop_first() =~= ids.subrange(i + 1, ids.len() as int));
            assert(rest[0] == listed_item_ids@[i as int]@);
            match item_id(listed_item_ids[i].as_str()) {
                Some(r) => {
                    return r;
                },
                None => {},
            }
            i = i + 1;
        }
        assert(ids.subrange(ids.len() as int, ids.len() as int) =~= Seq::<Seq<char>>::empty());
        None
    }

    /// The image of a link (its `data-original`, else its `src`) at the
    /// size that the player uses.
    pub fn extract_image_url(original: Option<&str>, src: Option<&str>) -> (r: Option<String>)
        ensures
            opt_view(r) == link_image(
                match original {
                    Some(s) => Some(s@),
                    None => None,
                },
                match src {
                    Some(s) => Some(s@),
                    None => None,
                },
            ),
    {
        let chosen = match original {
            Some(s) => Some(s),
            None => src,
        };
        match chosen {
            Some(s) => match regex_replace(r"_(\d+)\.jpg$", s, "_9.jpg") {
                Some(x) => Some(x),
                None => Some(s.to_owned()),
            },
            None => None,
        }
    }

    /// The title of a link: its `.title` text collapsed onto one line, or
    /// "Unknown".
    pub fn extract_title(title: Option<&str>) -> (r: String)
        ensures
            r@ == match title {
                Some(t) => normalized_text(t@),
                None => "Unknown"@,
            },
    {
        match title {
            Some(t) => Self::normalize_text(t),
            None => "Unknown".to_owned(),
        }
    }

    /// Puts the albums and tracks that a page links to into the
    /// collection: links whose `href` starts with `/album/` (resp.
    /// `/track/`), unless an item with the same URL is there already.
    pub fn extract_html_links(
        album_links: &[PageLink],
        track_links: &[PageLink],
        artist_url: &str,
        items: &mut Vec<DiscographyItem>,
    )
        requires
            urls_unique(old(items)@),
        ensures
            urls_unique(final(items)@),
            forall|u: Seq<char>| #[trigger] has_url(old(items)@, u) ==> has_url(final(items)@, u),
            forall|i: int|
                0 <= i < album_links@.len() && link_has_prefix(#[trigger] album_links@[i], "/album/"@)
                    ==> has_url(final(items)@, link_url(album_links@[i], artist_url@)),
            forall|i: int|
                0 <= i < track_links@.len() && link_has_prefix(#[trigger] track_links@[i], "/track/"@)
                    ==> has_url(final(items)@, link_url(track_links@[i], artist_url@)),
            item_views(final(items)@) == with_links(
                with_links(
                    item_views(old(items)@),
                    link_views(album_links@),
                    "/album/"@,
                    "album"@,
                    artist_url@,
                ),
                link_views(track_links@),
                "/track/"@,
                "track"@,
                artist_url@,
            ),
    {
        Self::add_links(album_links, "/album/", "album", artist_url, items);
        let ghost mid = items@;
        Self::add_links(track_links, "/track/", "track", artist_url, items);
        assert forall|i: int|
            0 <= i < album_links@.len() && link_has_prefix(#[trigger] album_links@[i], "/album/"@)
                implies has_url(items@, link_url(album_links@[i], artist_url@)) by {
            assert(has_url(mid, link_url(album_links@[i], artist_url@)));
        }
    }

    /// Puts the items of the links whose `href` starts with `prefix` into
    /// the collection, as items of type `kind`, unless their URL is there.
    fn add_links(
        links: &[PageLink],
        prefix: &str,
        kind: &str,
        artist_url: &str,
        items: &mut Vec<DiscographyItem>,
    )
        requires
            urls_unique(old(items)@),
        ensures
            urls_unique(final(items)@),
            forall|u: Seq<char>| #[trigger] has_url(old(items)@, u) ==> has_url(final(items)@, u),
            forall|i: int|
                0 <= i < links@.len() && link_has_prefix(#[trigger] links@[i], prefix@) ==> has_url(
                    final(items)@,
                    link_url(links@[i], artist_url@),
                ),
            forall|k: int| 0 <= k < old(items)@.len() ==> final(items)@[k] == old(items)@[k],
            item_views(final(items)@) == with_links(
                item_views(old(items)@),
                link_views(links@),
                prefix@,
                kind@,
                artist_url@,
            ),
    {
        let pc = chars_of(prefix);
        let mut i: usize = 0;
        let ghost start = items@;
        let ghost lvs = link_views(links@);
        assert(lvs.subrange(0, 0) =~= Seq::<LinkView>::empty());
        while i < links.len()
            invariant
                i <= links.len(),
                lvs == link_views(links@),
                item_views(items@) == with_links(
                    item_views(start),
                    lvs.subrange(0, i as int),
                    prefix@,
                    kind@,
                    artist_url@,
                ),
                start == old(items)@,
                pc@ == prefix@,
                urls_unique(items@),
                start.len() <= items@.len(),
                forall|k: int| 0 <= k < start.len() ==> items@[k] == start[k],
                forall|u: Seq<char>| #[trigger] has_url(start, u) ==> has_url(items@, u),
                forall|j: int|
                    0 <= j < i && link_has_prefix(#[trigger] links@[j], prefix@) ==> has_url(
                        items@,
                        link_url(links@[j], artist_url@),
                    ),
            decreases links.len() - i,
        {
            assert(lvs.subrange(0, i + 1).drop_last() =~= lvs.subrange(0, i as int));
            assert(lvs.subrange(0, i + 1).last() == links@[i as int]@);
            let ghost vs = item_views(items@);
            let link = &links[i];
            match &link.href {
                Some(h) => {
                    let hc = chars_of(h.as_str());
                    if starts_with_chars(hc.as_slice(), pc.as_slice()) {
                        let url = Self::normalize_url(h.as_str(), artist_url);
                        proof {
                            lemma_views_have_url(items@, url@);
                        }
                        match find_url(items.as_slice(), url.as_str()) {
                            Some(_) => {},
                            None => {
                                let parent = match &link.parent_item_id {
                                    Some(p) => Some(p.as_str()),
                                    None => None,
                                };
                                let id = Self::extract_id(parent, link.listed_item_ids.as_slice());
                                let title = match &link.title {
                                    Some(t) => Some(t.as_str()),
                                    None => None,
                                };
                                let original = match &link.image_original {
                                    Some(t) => Some(t.as_str()),
                                    None => None,
                                };
                                let src = match &link.image_src {
                                    Some(t) => Some(t.as_str()),
                                    None => None,
                                };
                                let item = DiscographyItem {
                                    item_type: kind.to_owned(),
                                    id,
                                    name: Self::extract_title(title),
                                    url,
                                    image_url: Self::extract_image_url(original, src),
                                    tracks: None,
                                };
                                let ghost before = items@;
                                assert(item@ == link_item_view(links@[i as int]@, kind@, artist_url@));
                                items.push(item);
                                assert(item_views(items@) =~= vs.push(
                                    link_item_view(links@[i as int]@, kind@, artist_url@),
                                ));
                                assert forall|u: Seq<char>| #[trigger]
                                    has_url(before, u) implies has_url(items@, u) by {
                                    let k = choose|k: int|
                                        0 <= k < before.len() && before[k].url@ == u;
                                    assert(items@[k] == before[k]);
                                }
                                assert(items@[before.len() as int].url@ == normalized_url(
                                    h@,
                                    artist_url@,
                                ));
                            },
                        }
                    }
                },
                None => {},
            }
            i = i + 1;
        }
        assert(lvs.subrange(0, lvs.len() as int) =~= lvs);
    }
}

/// The copy of an optional string.
fn copy_opt(o: &Option<String>) -> (r: Option<String>)
    ensures
        opt_view(r) == opt_view(*o),
{
    match o {
        Some(s) => Some(s.clone()),
        None => None,
    }
}

/// The copy of the inner value of an optional optional string.
fn copy_flat(o: &Option<Option<String>>) -> (r: Option<String>)
    ensures
        opt_view(r) == flat(nested_view(*o)),
{
    match o {
        Some(Some(s)) => Some(s.clone()),
        _ => None,
    }
}

/// The `data-item-id`s of the listed items whose first album link is
/// `href`.
fn listed_ids(href: &str, links: &Vec<Option<Option<String>>>, ids: &Vec<Option<String>>) -> (r: Vec<
    String,
>)
    requires
        links@.len() == ids@.len(),
    ensures
        r@.map_values(|s: String| s@) == listed_ids_for(
            href@,
            links@.map_values(|o: Option<Option<String>>| nested_view(o)),
            opt_views(ids@),
            links@.len() as nat,
        ),
{
    let ghost lv = links@.map_values(|o: Option<Option<String>>| nested_view(o));
    let ghost iv = opt_views(ids@);
    let mut out: Vec<String> = Vec::new();
    let mut n: usize = 0;
    while n < links.len()
        invariant
            n <= links@.len() == ids@.len(),
            lv == links@.map_values(|o: Option<Option<String>>| nested_view(o)),
            iv == opt_views(ids@),
            out@.map_values(|s: String| s@) == listed_ids_for(href@, lv, iv, n as nat),
        decreases links.len() - n,
    {
        let ghost before = out@.map_values(|s: String| s@);
        match (&links[n], &ids[n]) {
            (Some(Some(h)), Some(id)) => {
                if str_eq(h.as_str(), href) {
                    out.push(id.clone());
                    assert(out@.map_values(|s: String| s@) =~= before.push(id@));
                }
            },
            _ => {},
        }
        n = n + 1;
    }
    out
}

impl DiscographyParser {
    /// Whether a page shows a single item rather than a discography.
    pub fn is_single_page_html(html: &str) -> (r: bool)
        ensures
            r == single_page(
                first_of(spec_select_attr(html@, "#discography"@, "style"@)),
                spec_match_count(html@, "#discography li"@),
            ),
    {
        let styles = select_attr(html, "#discography", "style");
        let listed = count_matches(html, "#discography li");
        if styles.len() == 0 {
            return Self::is_single_page(None, listed);
        }
        match &styles[0] {
            Some(s) => Self::is_single_page(Some(Some(s.as_str())), listed),
            None => Self::is_single_page(Some(None), listed),
        }
    }

    /// The texts of a page's `application/ld+json` scripts, in order.
    pub fn ld_json_texts(html: &str) -> (r: Vec<String>)
        ensures
            r@.map_values(|s: String| s@) == present(
                spec_select_first_text(html@, "script[type=\"application/ld+json\"]"@),
            ),
    {
        let texts = select_first_text(html, "script[type=\"application/ld+json\"]");
        let ghost tv = opt_views(texts@);
        let mut out: Vec<String> = Vec::new();
        let mut i: usize = 0;
        while i < texts.len()
            invariant
                i <= texts@.len(),
                tv == opt_views(texts@),
                out@.map_values(|s: String| s@) == present(tv.subrange(0, i as int)),
            decreases texts.len() - i,
        {
            let ghost p = tv.subrange(0, i + 1);
            assert(p.drop_last() =~= tv.subrange(0, i as int));
            let ghost before = out@.map_values(|s: String| s@);
            match &texts[i] {
                Some(t) => {
                    out.push(t.clone());
                    assert(out@.map_values(|s: String| s@) =~= before.push(t@));
                },
                None => {},
            }
            i = i + 1;
        }
        assert(tv.subrange(0, tv.len() as int) =~= tv);
        out
    }

    /// The decoded `data-client-items` list of a discography page, when its
    /// first `ol[data-client-items]` element has one.
    pub fn client_items_json(html: &str) -> (r: Option<String>)
        ensures
            opt_view(r) == match first_of(
                spec_select_attr(html@, "ol[data-client-items]"@, "data-client-items"@),
            ) {
                Some(Some(a)) => Some(spec_decode_html_entities(a)),
                _ => None,
            },
    {
        let attrs = select_attr(html, "ol[data-client-items]", "data-client-items");
        if attrs.len() == 0 {
            return None;
        }
        match &attrs[0] {
            Some(a) => Some(decode_html_entities(a.as_str())),
            None => None,
        }
    }

    /// The links that `selector` matches on a page, with what the page
    /// holds around each.
    pub fn page_links(html: &str, selector: &str) -> (r: Vec<PageLink>)
        ensures
            r@.len() == spec_match_count(html@, selector@),
            forall|i: int| 0 <= i < r@.len() ==> page_link_is(#[trigger] r@[i], html@, selector@, i),
            link_views(r@) == page_link_views(html@, selector@),
    {
        let hrefs = select_attr(html, selector, "href");
        let parents = select_parent_attr(html, selector, "data-item-id");
        let titles = select_inner_text(html, selector, ".title");
        let originals = select_inner_attr(html, selector, "img", "data-original");
        let srcs = select_inner_attr(html, selector, "img", "src");
        let li_links = select_inner_attr(html, "li[data-item-id]", "a[href*='/album/']", "href");
        let li_ids = select_attr(html, "li[data-item-id]", "data-item-id");
        let mut out: Vec<PageLink> = Vec::new();
        let mut i: usize = 0;
        while i < hrefs.len()
            invariant
                i <= hrefs@.len(),
                hrefs@.len() == parents@.len() == titles@.len() == originals@.len() == srcs@.len()
                    == spec_match_count(html@, selector@),
                li_links@.len() == li_ids@.len() == spec_match_count(html@, listed_selector()),
                opt_views(hrefs@) == spec_select_attr(html@, selector@, "href"@),
                opt_views(parents@) == spec_select_parent_attr(html@, selector@, "data-item-id"@),
                opt_views(titles@) == spec_select_inner_text(html@, selector@, ".title"@),
                originals@.map_values(|o: Option<Option<String>>| nested_view(o))
                    == spec_select_inner_attr(html@, selector@, "img"@, "data-original"@),
                srcs@.map_values(|o: Option<Option<String>>| nested_view(o))
                    == spec_select_inner_attr(html@, selector@, "img"@, "src"@),
                li_links@.map_values(|o: Option<Option<String>>| nested_view(o))
                    == spec_select_inner_attr(
                    html@,
                    listed_selector(),
                    album_links_selector(),
                    "href"@,
                ),
                opt_views(li_ids@) == spec_select_attr(html@, listed_selector(), "data-item-id"@),
                out@.len() == i,
                forall|k: int| 0 <= k < i ==> page_link_is(#[trigger] out@[k], html@, selector@, k),
            decreases hrefs.len() - i,
        {
            assert(opt_views(hrefs@)[i as int] == opt_view(hrefs@[i as int]));
            assert(opt_views(parents@)[i as int] == opt_view(parents@[i as int]));
            assert(opt_views(titles@)[i as int] == opt_view(titles@[i as int]));
            let listed = match &hrefs[i] {
                Some(h) => listed_ids(h.as_str(), &li_links, &li_ids),
                None => Vec::new(),
            };
            let link = PageLink {
                href: copy_opt(&hrefs[i]),
                parent_item_id: copy_opt(&parents[i]),
                listed_item_ids: listed,
                title: copy_opt(&titles[i]),
                image_original: copy_flat(&originals[i]),
                image_src: copy_flat(&srcs[i]),
            };
            assert(link.listed_item_ids@.map_values(|s: String| s@) =~= match opt_view(link.href) {
                Some(h) => listed_ids_for(
                    h,
                    spec_select_inner_attr(html@, listed_selector(), album_links_selector(), "href"@),
                    spec_select_attr(html@, listed_selector(), "data-item-id"@),
                    spec_match_count(html@, listed_selector()),
                ),
                None => Seq::empty(),
            });
            out.push(link);
            i = i + 1;
        }
        assert forall|k: int| 0 <= k < out@.len() implies link_views(out@)[k] == page_link_views(
            html@,
            selector@,
        )[k] by {
            assert(page_link_is(out@[k], html@, selector@, k));
        }
        assert(link_views(out@) =~= page_link_views(html@, selector@));
        out
    }

    /// The items that a discography page lists, before the excluded albums
    /// are left out: the usable entries of its `data-client-items` list,
    /// each under its URL, then the album and track links whose URL is not
    /// there yet.
    pub fn collect_discography_items(html: &str, artist_url: &str, client_items: &[ClientItem]) -> (r:
        Vec<DiscographyItem>)
        ensures
            urls_unique(r@),
            forall|i: int|
                0 <= i < client_items@.len() && client_entry_usable(#[trigger] client_items@[i])
                    ==> has_url(r@, normalized_url(client_items@[i].page_url->0@, artist_url@)),
            forall|i: int|
                0 <= i < spec_match_count(html@, album_links_selector()) && href_has_prefix(
                    #[trigger] spec_select_attr(html@, album_links_selector(), "href"@)[i],
                    "/album/"@,
                ) ==> has_url(
                    r@,
                    href_url(spec_select_attr(html@, album_links_selector(), "href"@)[i], artist_url@),
                ),
            forall|i: int|
                0 <= i < spec_match_count(html@, track_links_selector()) && href_has_prefix(
                    #[trigger] spec_select_attr(html@, track_links_selector(), "href"@)[i],
                    "/track/"@,
                ) ==> has_url(
                    r@,
                    href_url(spec_select_attr(html@, track_links_selector(), "href"@)[i], artist_url@),
                ),
            item_views(r@) == discography_items(html@, artist_url@, client_items@),
    {
        let mut items: Vec<DiscographyItem> = Vec::new();
        assert(item_views(items@) =~= Seq::<ItemView>::empty());
        Self::extract_data_client_items(client_items, artist_url, &mut items);
        let albums = Self::page_links(html, "a[href*='/album/']");
        let tracks = Self::page_links(html, "a[href*='/track/']");
        let ghost mid = items@;
        Self::extract_html_links(albums.as_slice(), tracks.as_slice(), artist_url, &mut items);
        assert forall|i: int|
            0 <= i < spec_match_count(html@, album_links_selector()) && href_has_prefix(
                #[trigger] spec_select_attr(html@, album_links_selector(), "href"@)[i],
                "/album/"@,
            ) implies has_url(
            items@,
            href_url(spec_select_attr(html@, album_links_selector(), "href"@)[i], artist_url@),
        ) by {
            assert(page_link_is(albums@[i], html@, album_links_selector(), i));
            assert(link_has_prefix(albums@[i], "/album/"@));
        }
        assert forall|i: int|
            0 <= i < spec_match_count(html@, track_links_selector()) && href_has_prefix(
                #[trigger] spec_select_attr(html@, track_links_selector(), "href"@)[i],
                "/track/"@,
            ) implies has_url(
            items@,
            href_url(spec_select_attr(html@, track_links_selector(), "href"@)[i], artist_url@),
        ) by {
            assert(page_link_is(tracks@[i], html@, track_links_selector(), i));
            assert(link_has_prefix(tracks@[i], "/track/"@));
        }
        items
    }

    /// The items that a discography page lists, without the excluded
    /// albums.
    pub fn parse_discography_items(html: &str, artist_url: &str, client_items: &[ClientItem]) -> (r:
        Vec<DiscographyItem>)
        ensures
            item_views(r@) == kept_views(discography_items(html@, artist_url@, client_items@)),
            view_urls_unique(item_views(r@)),
    {
        let items = Self::collect_discography_items(html, artist_url, client_items);
        proof {
            lemma_kept_views(items@);
            law_discography_urls_unique(html@, artist_url@, client_items@);
        }
        without_excluded(items)
    }
}

} // verus!
