//! Chillhop's releases: which of their tracks make the track list, and in
//! what order.
use vstd::prelude::*;

use crate::bandcamp::discography::str_eq;
use crate::bandcamp::dom::{
    opt_views, select_attr, select_inner_first_html, select_inner_html,
    spec_match_count, spec_select_attr, spec_select_inner_first_html, spec_select_inner_html,
};
use crate::text::number::{parse_u64, parsed_u64};
use crate::bandcamp::pattern::{decode_html_entities, spec_decode_html_entities};

verus! {

/// A track of a release, as the release page describes it.
#[derive(Debug)]
pub struct Track {
    /// The track's title.
    pub title: String,
    /// The id of the track's file.
    pub file_id: u32,
    /// The track's artists.
    pub artists: String,
}

impl Track {
    /// Decodes the HTML character references in the artists and the title.
    pub fn clean(&mut self)
        ensures
            final(self).file_id == old(self).file_id,
            final(self).artists@ == spec_decode_html_entities(old(self).artists@),
            final(self).title@ == spec_decode_html_entities(old(self).title@),
    {
        self.artists = decode_html_entities(self.artists.as_str());
        self.title = decode_html_entities(self.title.as_str());
    }
}

/// A release: its page, its position among the releases, and its tracks
/// in the order they are listed.
#[derive(Debug)]
pub struct Release {
    /// The release's page.
    pub path: String,
    /// The release's position among all releases.
    pub index: usize,
    /// The release's tracks, last listed first.
    pub tracks: Vec<Track>,
}

impl Release {
    /// A release from its page, its position and its tracks as the page
    /// lists them; the tracks are kept last listed first.
    pub fn new(path: String, index: usize, tracks: Vec<Track>) -> (r: Self)
        ensures
            r.path == path,
            r.index == index,
            r.tracks@ == tracks@.reverse(),
    {
        let mut tracks = tracks;
        let ghost all = tracks@;
        let mut reversed: Vec<Track> = Vec::new();
        while tracks.len() > 0
            invariant
                all.len() == reversed@.len() + tracks@.len(),
                tracks@ == all.subrange(0, tracks@.len() as int),
                reversed@ == all.subrange(tracks@.len() as int, all.len() as int).reverse(),
            decreases tracks.len(),
        {
            let t = tracks.pop().unwrap();
            reversed.push(t);
            assert(reversed@ =~= all.subrange(tracks@.len() as int, all.len() as int).reverse());
            assert(tracks@ =~= all.subrange(0, tracks@.len() as int));
        }
        assert(all.subrange(0, all.len() as int) =~= all);
        Release { path, index, tracks: reversed }
    }
}

/// The position of a release on the releases page `page`, counting twelve
/// releases to a page.
pub fn release_index(page: usize, position: usize) -> (r: usize)
    requires
        page * 12 + position <= usize::MAX,
    ensures
        r == page * 12 + position,
{
    page * 12 + position
}

/// The selector of the release links of a page of releases.
pub open spec fn releases_selector() -> Seq<char> {
    ".table-body > a"@
}

/// The record of a release page: the inner HTML of its first `textarea`,
/// if it has one.
pub open spec fn release_record(page: Seq<char>) -> Option<Seq<char>> {
    let found = spec_select_inner_html(page, "textarea"@);
    if found.len() > 0 {
        Some(found[0])
    } else {
        None
    }
}

/// The JSON record that a release page holds in its first `textarea`.
pub fn release_json(page: &str) -> (r: Option<String>)
    ensures
        crate::tracks::list::opt_view(r) == release_record(page@),
{
    let mut found = select_inner_html(page, "textarea");
    if found.len() > 0 {
        Some(found.swap_remove(0))
    } else {
        None
    }
}

/// A track of a release from the fields of its record: the file id must be
/// a number that fits in 32 bits (`str::parse::<u32>`).
pub fn track_from_record(title: String, file_id: &str, artists: String) -> (r: Option<Track>)
    ensures
        match parsed_u64(file_id@) {
            Some(v) if v <= u32::MAX => r matches Some(t) && t.file_id == v && t.title == title
                && t.artists == artists,
            _ => r is None,
        },
{
    match parse_u64(file_id) {
        Some(v) => if v <= 0xffff_ffff {
            Some(Track { title, file_id: v as u32, artists })
        } else {
            None
        },
        None => None,
    }
}

/// The release links kept from the first `n` links of a page of releases,
/// given each link's `href` and the inner HTML of its first label: those
/// with a label other than "Compilation" and an `href`, each with its
/// position among all releases (`number * 12` plus its place on the page).
pub open spec fn kept_release_links(
    hrefs: Seq<Option<Seq<char>>>,
    labels: Seq<Option<Seq<char>>>,
    number: nat,
    n: nat,
) -> Seq<(Seq<char>, nat)>
    decreases n,
{
    if n == 0 {
        Seq::empty()
    } else {
        let rest = kept_release_links(hrefs, labels, number, (n - 1) as nat);
        let i = n - 1;
        if labels[i] matches Some(l) && l != "Compilation"@ && hrefs[i] is Some {
            rest.push((hrefs[i]->0, (number * 12 + i) as nat))
        } else {
            rest
        }
    }
}

/// The release pages that a page of releases links to, compilations left
/// out, each with its position among all releases. `None` when a position
/// would not fit in a `usize`.
pub fn release_links(page: &str, number: usize) -> (r: Option<Vec<(String, usize)>>)
    ensures
        r is None <==> spec_match_count(page@, releases_selector()) > 0 && number * 12 + (
        spec_match_count(page@, releases_selector()) - 1) > usize::MAX,
        r matches Some(v) ==> v@.map_values(|e: (String, usize)| (e.0@, e.1 as nat))
            == kept_release_links(
            spec_select_attr(page@, releases_selector(), "href"@),
            spec_select_inner_first_html(page@, releases_selector(), "label"@),
            number as nat,
            spec_match_count(page@, releases_selector()),
        ),
{
    let hrefs = select_attr(page, ".table-body > a", "href");
    let labels = select_inner_first_html(page, ".table-body > a", "label");
    let n = hrefs.len();
    if n > 0 && (number > (usize::MAX - (n - 1)) / 12) {
        assert(number * 12 + (n - 1) > usize::MAX) by (nonlinear_arith)
            requires
                number > (usize::MAX - (n - 1)) / 12,
                n - 1 <= usize::MAX,
        ;
        return None;
    }
    proof {
        if n > 0 {
            assert(number * 12 + (n - 1) <= usize::MAX) by (nonlinear_arith)
                requires
                    number <= (usize::MAX - (n - 1)) / 12,
                    n - 1 <= usize::MAX,
            ;
        }
    }
    let ghost hv = spec_select_attr(page@, releases_selector(), "href"@);
    let ghost lv = spec_select_inner_first_html(page@, releases_selector(), "label"@);
    let mut out: Vec<(String, usize)> = Vec::new();
    let mut i: usize = 0;
    while i < n
        invariant
            i <= n == hrefs@.len() == labels@.len(),
            n > 0 ==> number * 12 + (n - 1) <= usize::MAX,
            opt_views(hrefs@) == hv,
            opt_views(labels@) == lv,
            out@.map_values(|e: (String, usize)| (e.0@, e.1 as nat)) == kept_release_links(
                hv,
                lv,
                number as nat,
                i as nat,
            ),
        decreases n - i,
    {
        let ghost before = out@.map_values(|e: (String, usize)| (e.0@, e.1 as nat));
        assert(hv[i as int] == crate::tracks::list::opt_view(hrefs@[i as int]));
        assert(lv[i as int] == crate::tracks::list::opt_view(labels@[i as int]));
        assert(kept_release_links(hv, lv, number as nat, (i + 1) as nat) == (if lv[i as int] matches Some(
            l,
        ) && l != "Compilation"@ && hv[i as int] is Some {
            before.push((hv[i as int]->0, (number * 12 + i) as nat))
        } else {
            before
        }));
        match (&labels[i], &hrefs[i]) {
            (Some(l), Some(h)) => {
                if !str_eq(l.as_str(), "Compilation") {
                    let index = release_index(number, i);
                    let h2 = h.clone();
                    assert(h2@ == h@);
                    out.push((h2, index));
                    assert(out@.map_values(|e: (String, usize)| (e.0@, e.1 as nat)) =~= before.push(
                        (h@, (number * 12 + i) as nat),
                    ));
                } else {
                    assert(l@ == "Compilation"@);
                    assert(out@.map_values(|e: (String, usize)| (e.0@, e.1 as nat)) == before);
                }
            },
            _ => {
                assert(out@.map_values(|e: (String, usize)| (e.0@, e.1 as nat)) == before);
            },
        }
        i = i + 1;
    }
    Some(out)
}

/// The ids of the files that are left out: missing ones, those with
/// lyrics, and abnormal ones.
pub open spec fn ignored_ids() -> Seq<u32> {
    seq![
        74707u32, 21655, 21773, 8172, 55397, 75135, 24827, 8141, 8157, 64052, 31612, 41956, 8001,
        9217, 8730, 55372, 9262, 30131, 9372, 20561, 21652, 9306, 21646, 8469, 7832, 10448, 9446,
        9396,
    ]
}

/// The artists whose tracks are left out (lyrics).
pub open spec fn ignored_artists() -> Seq<Seq<char>> {
    seq!["Kenji"@]
}

/// Whether a track is left out for its file or its artists.
pub open spec fn ignored(t: Track) -> bool {
    ignored_ids().contains(t.file_id) || ignored_artists().contains(t.artists@)
}

/// The entries listed for the tracks `ts`, in order: each track that is
/// not left out and whose file was not listed before, as its file id and
/// its decoded title.
pub open spec fn listed(ts: Seq<Track>) -> Seq<(u32, Seq<char>)>
    decreases ts.len(),
{
    if ts.len() == 0 {
        Seq::empty()
    } else {
        let rest = listed(ts.drop_last());
        let t = ts.last();
        if ignored(t) || rest.map_values(|e: (u32, Seq<char>)| e.0).contains(t.file_id) {
            rest
        } else {
            rest.push((t.file_id, spec_decode_html_entities(t.title@)))
        }
    }
}

/// The tracks of the releases, one release after another.
pub open spec fn all_tracks(rs: Seq<Release>) -> Seq<Track>
    decreases rs.len(),
{
    if rs.len() == 0 {
        Seq::empty()
    } else {
        all_tracks(rs.drop_last()) + rs.last().tracks@
    }
}

/// `s` with `r` put before its first release whose index is not above
/// `r`'s.
pub open spec fn insert_desc(s: Seq<Release>, r: Release) -> Seq<Release>
    decreases s.len(),
{
    if s.len() == 0 {
        seq![r]
    } else if s[0].index <= r.index {
        seq![r] + s
    } else {
        seq![s[0]] + insert_desc(s.drop_first(), r)
    }
}

/// The releases from the highest index down; of releases with the same
/// index, the one that came later goes first.
pub open spec fn by_index_desc(rs: Seq<Release>) -> Seq<Release>
    decreases rs.len(),
{
    if rs.len() == 0 {
        Seq::empty()
    } else {
        insert_desc(by_index_desc(rs.drop_last()), rs.last())
    }
}

/// Whether `v` holds `x`.
fn contains_u32(v: &[u32], x: u32) -> (r: bool)
    ensures
        r == v@.contains(x),
{
    let mut i: usize = 0;
    while i < v.len()
        invariant
            i <= v.len(),
            forall|j: int| 0 <= j < i ==> v@[j] != x,
        decreases v.len() - i,
    {
        if v[i] == x {
            assert(v@[i as int] == x);
            return true;
        }
        i = i + 1;
    }
    false
}

/// Whether a track is left out.
fn is_ignored(t: &Track) -> (r: bool)
    ensures
        r == ignored(*t),
{
    let ids: Vec<u32> = vec![
        74707,
        21655,
        21773,
        8172,
        55397,
        75135,
        24827,
        8141,
        8157,
        64052,
        31612,
        41956,
        8001,
        9217,
        8730,
        55372,
        9262,
        30131,
        9372,
        20561,
        21652,
        9306,
        21646,
        8469,
        7832,
        10448,
        9446,
        9396,
    ];
    assert(ids@ =~= ignored_ids());
    if contains_u32(ids.as_slice(), t.file_id) {
        return true;
    }
    let kenji = str_eq(t.artists.as_str(), "Kenji");
    proof {
        if kenji {
            assert(ignored_artists()[0] == t.artists@);
        } else {
            assert(!ignored_artists().contains(t.artists@)) by {
                if ignored_artists().contains(t.artists@) {
                    let k = choose|k: int|
                        0 <= k < ignored_artists().len() && ignored_artists()[k] == t.artists@;
                    assert(k == 0);
                }
            }
        }
    }
    kenji
}

/// Puts a release among releases ordered from the highest index down, in
/// front of those with an index not above its own.
fn insert_release(sorted: &mut Vec<Release>, r: Release)
    ensures
        final(sorted)@ == insert_desc(old(sorted)@, r),
{
    let mut i: usize = 0;
    while i < sorted.len() && sorted[i].index > r.index
        invariant
            i <= sorted.len(),
            sorted@ == old(sorted)@,
            forall|k: int| 0 <= k < i ==> sorted@[k].index > r.index,
        decreases sorted.len() - i,
    {
        i = i + 1;
    }
    proof {
        lemma_insert_desc_at(old(sorted)@, r, i as int);
    }
    sorted.insert(i, r);
}

/// Lemma: inserting before the first release whose index is not above the
/// new one's is [`insert_desc`].
proof fn lemma_insert_desc_at(s: Seq<Release>, r: Release, i: int)
    requires
        0 <= i <= s.len(),
        forall|k: int| 0 <= k < i ==> s[k].index > r.index,
        i < s.len() ==> s[i].index <= r.index,
    ensures
        insert_desc(s, r) == s.insert(i, r),
    decreases i,
{
    if i == 0 {
        assert(s.insert(0, r) =~= seq![r] + s);
    } else {
        lemma_insert_desc_at(s.drop_first(), r, i - 1);
        assert(s.insert(i, r) =~= seq![s[0]] + s.drop_first().insert(i - 1, r));
    }
}

/// Orders releases from the highest index down, later ones first among
/// equal indices.
pub fn order_releases(releases: Vec<Release>) -> (r: Vec<Release>)
    ensures
        r@ == by_index_desc(releases@),
{
    let ghost all = releases@;
    let mut rest = releases;
    let mut sorted: Vec<Release> = Vec::new();
    let mut n: usize = 0;
    assert(all.len() == rest.len());
    while rest.len() > 0
        invariant
            n + rest@.len() == all.len(),
            all.len() <= usize::MAX,
            rest@ == all.subrange(n as int, all.len() as int),
            sorted@ == by_index_desc(all.subrange(0, n as int)),
        decreases rest.len(),
    {
        let r = rest.remove(0);
        let ghost prefix = all.subrange(0, n + 1);
        assert(prefix.drop_last() =~= all.subrange(0, n as int));
        assert(prefix.last() == r);
        insert_release(&mut sorted, r);
        n = n + 1;
        assert(rest@ =~= all.subrange(n as int, all.len() as int));
    }
    assert(all.subrange(0, all.len() as int) =~= all);
    sorted
}

/// The track-list entries of releases taken in order: each track not left
/// out and whose file was not listed before, as its file id and its
/// decoded title.
pub fn list_tracks(releases: Vec<Release>) -> (r: Vec<(u32, String)>)
    ensures
        r@.map_values(|e: (u32, String)| (e.0, e.1@)) == listed(all_tracks(releases@)),
{
    let ghost all = all_tracks(releases@);
    let ghost rs = releases@;
    let mut out: Vec<(u32, String)> = Vec::new();
    let mut printed: Vec<u32> = Vec::new();
    let mut releases = releases;
    let mut done: Vec<Release> = Vec::new();
    assert(releases@ =~= rs.subrange(0, 0) + releases@);
    while releases.len() > 0
        invariant
            rs == done@ + releases@,
            out@.map_values(|e: (u32, String)| (e.0, e.1@)) == listed(all_tracks(done@)),
            printed@ == listed(all_tracks(done@)).map_values(|e: (u32, Seq<char>)| e.0),
        decreases releases.len(),
    {
        let release = releases.remove(0);
        let ghost before = done@;
        let ghost tracks = release.tracks@;
        let mut k: usize = 0;
        while k < release.tracks.len()
            invariant
                k <= release.tracks.len(),
                tracks == release.tracks@,
                out@.map_values(|e: (u32, String)| (e.0, e.1@)) == listed(
                    all_tracks(before) + tracks.subrange(0, k as int),
                ),
                printed@ == listed(all_tracks(before) + tracks.subrange(0, k as int)).map_values(
                    |e: (u32, Seq<char>)| e.0,
                ),
            decreases release.tracks.len() - k,
        {
            let t = &release.tracks[k];
            let ghost prev = all_tracks(before) + tracks.subrange(0, k as int);
            let ghost next = all_tracks(before) + tracks.subrange(0, k + 1);
            assert(next.drop_last() =~= prev);
            assert(next.last() == *t);
            if !is_ignored(t) && !contains_u32(printed.as_slice(), t.file_id) {
                let title = decode_html_entities(t.title.as_str());
                let ghost old_out = out@.map_values(|e: (u32, String)| (e.0, e.1@));
                let ghost old_printed = printed@;
                printed.push(t.file_id);
                out.push((t.file_id, title));
                assert(out@.map_values(|e: (u32, String)| (e.0, e.1@)) =~= old_out.push(
                    (t.file_id, spec_decode_html_entities(t.title@)),
                ));
                assert(listed(next).map_values(|e: (u32, Seq<char>)| e.0) =~= old_printed.push(
                    t.file_id,
                ));
            }
            k = k + 1;
        }
        assert(tracks.subrange(0, tracks.len() as int) =~= tracks);
        done.push(release);
        assert(done@.drop_last() =~= before);
        assert(all_tracks(done@) =~= all_tracks(before) + tracks);
        assert(rs =~= done@ + releases@);
    }
    assert(done@ =~= rs);
    out
}

} // verus!
