//! Album pages: the artist and title of each track, and the tracks that a
//! page's `data-tralbum` record lists.
use vstd::prelude::*;

use super::discography::{DiscographyParser, TrackInfo};
use super::pattern::{lowercase, regex_captures, regex_replace, spec_lowercase, spec_regex_captures,
    spec_regex_replace,
};
use crate::text::parts::{replace_all, replace_str, split_once_at, split_once_str};
use crate::text::{chars_of, contains, contains_chars, push_str, starts_with, string_from, trim,
    trim_string,
};
use crate::tracks::list::opt_view;
use super::dom::{opt_views, select_attr, select_text, spec_match_count, spec_select_attr,
    spec_select_text,
};
use super::page::first_of;
use super::pattern::{decode_html_entities, spec_decode_html_entities};
use super::discography::normalized_url;
use crate::text::parts::{find_chars, first_match, is_match_at};

verus! {

/// Whether `s` names "various" artists, in any case.
pub open spec fn is_various(s: Seq<char>) -> bool {
    contains(spec_lowercase(s), "various"@)
}

/// The separators between an artist and a title: a hyphen, an en dash
/// and an em dash, each between spaces.
pub open spec fn separators() -> Seq<Seq<char>> {
    seq![" - "@, " – "@, " — "@]
}

/// Splits `title` at the first of `seps` that occurs in it, both parts
/// trimmed.
pub open spec fn split_at_separator(title: Seq<char>, seps: Seq<Seq<char>>) -> Option<
    (Seq<char>, Seq<char>),
>
    decreases seps.len(),
{
    if seps.len() == 0 {
        None
    } else {
        match split_once_at(title, seps[0]) {
            Some((a, t)) => Some((trim(a), trim(t))),
            None => split_at_separator(title, seps.drop_first()),
        }
    }
}

/// The patterns that mark a featured artist in a title, tried in order.
pub open spec fn featured_patterns() -> Seq<Seq<char>> {
    seq![
        r"(.+?)\s+ft\.\s+(.+)"@,
        r"(.+?)\s+feat\.\s+(.+)"@,
        r"(.+?)\s+featuring\s+(.+)"@,
        r"(.+?)\s+feat\s+(.+)"@,
        r"(.+?)\s+ft\s+(.+)"@,
    ]
}

/// The text of capture group `i`, empty where the group did not match.
pub open spec fn group(g: Seq<Option<Seq<char>>>, i: int) -> Seq<char> {
    if 0 <= i < g.len() {
        match g[i] {
            Some(x) => x,
            None => Seq::empty(),
        }
    } else {
        Seq::empty()
    }
}

/// The title and the featured artist that the first matching pattern of
/// `pats` finds in `title`, both trimmed; the title alone when none
/// matches.
pub open spec fn featured_split(title: Seq<char>, pats: Seq<Seq<char>>) -> (Seq<char>, Option<
    Seq<char>,
>)
    decreases pats.len(),
{
    if pats.len() == 0 {
        (title, None)
    } else {
        match spec_regex_captures(pats[0], title, true) {
            Some(g) => (trim(group(g, 1)), Some(trim(group(g, 2)))),
            None => featured_split(title, pats.drop_first()),
        }
    }
}

/// The pattern of a trailing "by <artist>" in a title.
pub open spec fn by_pattern() -> Seq<char> {
    r"(?i)\s*,?\s+by\s+.+$"@
}

/// A raw track title without a trailing "by <artist>", trimmed.
pub open spec fn clean_title(raw: Seq<char>) -> Seq<char> {
    trim(
        match spec_regex_replace(by_pattern(), raw, Seq::empty()) {
            Some(t) => t,
            None => raw,
        },
    )
}

/// The artist and title of an album's track on a "various artists" album:
/// the artist taken from the title, else the track's own artist unless it
/// is "various" too.
pub open spec fn various_artist_title(title: Seq<char>, track_artist: Option<Seq<char>>) -> (
    Seq<char>,
    Seq<char>,
) {
    let (a, t) = match split_at_separator(title, separators()) {
        Some((a, t)) => (a, t),
        None => (Seq::empty(), title),
    };
    if a.len() == 0 {
        match track_artist {
            Some(ta) => if !is_various(ta) {
                (trim(ta), t)
            } else {
                (a, t)
            },
            None => (a, t),
        }
    } else {
        (a, t)
    }
}

/// The artist and title of an album's track on an album by one artist: the
/// track's own artist, else the album's, with a featured artist moved from
/// the title to the artist.
pub open spec fn single_artist_title(
    album_artist: Seq<char>,
    title: Seq<char>,
    track_artist: Option<Seq<char>>,
) -> (Seq<char>, Seq<char>) {
    let base = match track_artist {
        Some(ta) => trim(ta),
        None => trim(album_artist),
    };
    let (t, feat) = featured_split(title, featured_patterns());
    match feat {
        Some(f) => (base + " ft. "@ + f, t),
        None => (base, t),
    }
}

/// The artist and the title of a track, as shown by the player.
pub open spec fn artist_title(
    album_artist: Seq<char>,
    raw_title: Seq<char>,
    track_artist: Option<Seq<char>>,
) -> (Seq<char>, Seq<char>) {
    let title = clean_title(raw_title);
    let (a1, t1) = if is_various(album_artist) {
        various_artist_title(title, track_artist)
    } else {
        single_artist_title(album_artist, title, track_artist)
    };
    let (a2, t2) = if is_various(a1) {
        match split_at_separator(t1, separators()) {
            Some((a, t)) => (a, t),
            None => (a1, t1),
        }
    } else {
        (a1, t1)
    };
    if trim(a2).len() == 0 {
        ("Lofi Girl"@, t2)
    } else {
        (a2, t2)
    }
}

/// On an album by various artists, a track whose title names no artist
/// (it holds none of the artist separators) is shown under its own artist,
/// trimmed, as long as that artist does not name "various" either, with
/// the cleaned title.
pub proof fn law_various_album_uses_track_artist(
    album_artist: Seq<char>,
    raw_title: Seq<char>,
    track_artist: Seq<char>,
)
    requires
        is_various(album_artist),
        split_at_separator(clean_title(raw_title), separators()) is None,
        !is_various(track_artist),
        !is_various(trim(track_artist)),
        trim(track_artist).len() > 0,
    ensures
        artist_title(album_artist, raw_title, Some(track_artist)) == (
            trim(track_artist),
            clean_title(raw_title),
        ),
{
    let t = trim(track_artist);
    crate::text::lemma_trim_shapes(track_artist);
    crate::text::lemma_trim_shapes(crate::text::trim_start(track_artist));
    assert(trim(t) == t) by {
        lemma_trim_idempotent(track_artist);
    }
}

/// Lemma: trimming a trimmed text changes nothing.
proof fn lemma_trim_idempotent(s: Seq<char>)
    ensures
        trim(trim(s)) == trim(s),
{
    let t = trim(s);
    if t.len() > 0 {
        lemma_trim_ends(s);
        assert(crate::text::trim_start(t) == t);
        assert(crate::text::trim_end(t) == t);
    } else {
        assert(crate::text::trim_start(t) == t);
        assert(crate::text::trim_end(t) == t);
    }
}

/// Lemma: a trimmed text that is not empty begins and ends with a
/// non-whitespace character.
proof fn lemma_trim_ends(s: Seq<char>)
    requires
        trim(s).len() > 0,
    ensures
        !crate::text::is_whitespace(trim(s)[0]),
        !crate::text::is_whitespace(trim(s).last()),
{
    let u = crate::text::trim_start(s);
    lemma_trim_start_non_ws(s);
    lemma_trim_end_non_ws(u);
    crate::text::lemma_trim_shapes(u);
    assert(trim(s)[0] == u[0]);
}

/// Lemma: trimming the start leaves a text that begins with a
/// non-whitespace character, if anything is left.
proof fn lemma_trim_start_non_ws(s: Seq<char>)
    ensures
        crate::text::trim_start(s).len() > 0 ==> !crate::text::is_whitespace(
            crate::text::trim_start(s)[0],
        ),
    decreases s.len(),
{
    if s.len() > 0 && crate::text::is_whitespace(s[0]) {
        lemma_trim_start_non_ws(s.drop_first());
    }
}

/// Lemma: trimming the end leaves a text that ends with a non-whitespace
/// character, if anything is left.
proof fn lemma_trim_end_non_ws(s: Seq<char>)
    ensures
        crate::text::trim_end(s).len() > 0 ==> !crate::text::is_whitespace(
            crate::text::trim_end(s).last(),
        ),
    decreases s.len(),
{
    if s.len() > 0 && crate::text::is_whitespace(s.last()) {
        lemma_trim_end_non_ws(s.drop_last());
    }
}

/// The page that the tracks of an album's record link from: the album's
/// URL up to its `/album/` part (or its `/track/` part), else the URL.
pub open spec fn tralbum_base(album_url: Seq<char>) -> Seq<char> {
    match split_once_at(album_url, "/album/"@) {
        Some((before, _)) => before,
        None => match split_once_at(album_url, "/track/"@) {
            Some((before, _)) => before,
            None => album_url,
        },
    }
}

/// The URL of a track from its record's link: a full link loses its
/// `/album/` parts, a relative one is put after the base.
pub open spec fn tralbum_track_url(link: Option<Seq<char>>, base: Seq<char>) -> Seq<char> {
    match link {
        Some(l) => if starts_with(l, "http"@) {
            replace_all(l, "/album/"@, "/"@)
        } else {
            base + l
        },
        None => Seq::empty(),
    }
}

/// A track as an album's `data-tralbum` record lists it.
#[derive(Debug)]
pub struct TralbumTrack {
    /// `title`, when it is a string.
    pub title: Option<String>,
    /// `artist`, when it is a string.
    pub artist: Option<String>,
    /// `title_link`, when it is a string.
    pub title_link: Option<String>,
}

/// The track of a record's entry, if the entry has a title.
pub open spec fn tralbum_track(t: TralbumTrack, base: Seq<char>, album_artist: Seq<char>) -> Option<
    (Seq<char>, Seq<char>, Seq<char>),
> {
    match t.title {
        Some(title) => {
            let (artist, name) = artist_title(album_artist, title@, opt_view(t.artist));
            Some((name, tralbum_track_url(opt_view(t.title_link), base), artist))
        },
        None => None,
    }
}

/// The tracks of a record's entries: name, URL and artist of each entry
/// with a title.
pub open spec fn tralbum_tracks(ts: Seq<TralbumTrack>, base: Seq<char>, album_artist: Seq<char>) -> Seq<
    (Seq<char>, Seq<char>, Seq<char>),
>
    decreases ts.len(),
{
    if ts.len() == 0 {
        Seq::empty()
    } else {
        let rest = tralbum_tracks(ts.drop_last(), base, album_artist);
        match tralbum_track(ts.last(), base, album_artist) {
            Some(x) => rest.push(x),
            None => rest,
        }
    }
}

/// The name, URL and artist of each track.
pub open spec fn track_fields(ts: Seq<TrackInfo>) -> Seq<(Seq<char>, Seq<char>, Seq<char>)> {
    ts.map_values(
        |t: TrackInfo|
            (t.name@, t.url@, match t.artist {
                Some(a) => a@,
                None => Seq::empty(),
            }),
    )
}

/// Why an album's tracks could not be read.
#[derive(Debug)]
pub enum AlbumError {
    /// The album's record has no list of tracks.
    NoTrackInfo,
}

/// Whether `s` names "various" artists, in any case.
fn various(s: &str) -> (r: bool)
    ensures
        r == is_various(s@),
{
    let l = lowercase(s);
    let lc = chars_of(l.as_str());
    let v = chars_of("various");
    contains_chars(lc.as_slice(), v.as_slice())
}

/// Splits `title` at one separator, both parts trimmed.
fn split_at(title: &str, sep: &str) -> (r: Option<(String, String)>)
    ensures
        match r {
            Some((a, t)) => split_once_at(title@, sep@) matches Some((x, y)) && a@ == trim(x) && t@
                == trim(y),
            None => split_once_at(title@, sep@) is None,
        },
{
    match split_once_str(title, sep) {
        Some((a, t)) => Some((trim_string(a.as_str()), trim_string(t.as_str()))),
        None => None,
    }
}

/// Splits `title` at the first separator that occurs in it.
fn split_at_any_separator(title: &str) -> (r: Option<(String, String)>)
    ensures
        match r {
            Some((a, t)) => split_at_separator(title@, separators()) == Some((a@, t@)),
            None => split_at_separator(title@, separators()) is None,
        },
{
    proof {
        reveal_with_fuel(split_at_separator, 4);
        assert(separators().drop_first() =~= seq![" – "@, " — "@]);
        assert(separators().drop_first().drop_first() =~= seq![" — "@]);
        assert(separators().drop_first().drop_first().drop_first() =~= Seq::<Seq<char>>::empty());
    }
    match split_at(title, " - ") {
        Some(x) => Some(x),
        None => match split_at(title, " – ") {
            Some(x) => Some(x),
            None => split_at(title, " — "),
        },
    }
}

/// One featured-artist pattern tried on a title.
fn featured_with(pattern: &str, title: &str) -> (r: Option<(String, String)>)
    ensures
        match r {
            Some((t, f)) => spec_regex_captures(pattern@, title@, true) matches Some(g) && t@ == trim(
                group(g, 1),
            ) && f@ == trim(group(g, 2)),
            None => spec_regex_captures(pattern@, title@, true) is None,
        },
{
    match regex_captures(pattern, title, true) {
        Some(g) => {
            let t = group_text(&g, 1);
            let f = group_text(&g, 2);
            Some((trim_string(t.as_str()), trim_string(f.as_str())))
        },
        None => None,
    }
}

/// The text of capture group `i`, empty where it did not match.
pub(crate) fn group_text(g: &Vec<Option<String>>, i: usize) -> (r: String)
    ensures
        r@ == group(g@.map_values(|o: Option<String>| opt_view(o)), i as int),
{
    if i < g.len() {
        match &g[i] {
            Some(s) => s.clone(),
            None => string_from(Vec::<char>::new().as_slice()),
        }
    } else {
        string_from(Vec::<char>::new().as_slice())
    }
}

impl DiscographyParser {
    /// Moves a featured artist ("ft.", "feat.", "featuring", "feat", "ft",
    /// in any case) out of a title: returns the title before it and the
    /// featured artist, both trimmed, or the title alone.
    pub fn extract_featured_artist(title: &str) -> (r: (String, Option<String>))
        ensures
            (r.0@, opt_view(r.1)) == featured_split(title@, featured_patterns()),
    {
        proof {
            reveal_with_fuel(featured_split, 6);
            let p = featured_patterns();
            assert(p.drop_first() =~= seq![p[1], p[2], p[3], p[4]]);
            assert(p.drop_first().drop_first() =~= seq![p[2], p[3], p[4]]);
            assert(p.drop_first().drop_first().drop_first() =~= seq![p[3], p[4]]);
            assert(p.drop_first().drop_first().drop_first().drop_first() =~= seq![p[4]]);
            assert(p.drop_first().drop_first().drop_first().drop_first().drop_first() =~= Seq::<
                Seq<char>,
            >::empty());
        }
        if let Some((t, f)) = featured_with(r"(.+?)\s+ft\.\s+(.+)", title) {
            return (t, Some(f));
        }
        if let Some((t, f)) = featured_with(r"(.+?)\s+feat\.\s+(.+)", title) {
            return (t, Some(f));
        }
        if let Some((t, f)) = featured_with(r"(.+?)\s+featuring\s+(.+)", title) {
            return (t, Some(f));
        }
        if let Some((t, f)) = featured_with(r"(.+?)\s+feat\s+(.+)", title) {
            return (t, Some(f));
        }
        if let Some((t, f)) = featured_with(r"(.+?)\s+ft\s+(.+)", title) {
            return (t, Some(f));
        }
        (title.to_owned(), None)
    }

    /// The artist and the title of a track, from the album's artist, the
    /// track's raw title and the track's own artist, when known.
    pub fn normalize_artist_title(
        album_artist: &str,
        track_title_raw: &str,
        track_artist_opt: Option<&String>,
    ) -> (r: (String, String))
        ensures
            (r.0@, r.1@) == artist_title(
                album_artist@,
                track_title_raw@,
                match track_artist_opt {
                    Some(a) => Some(a@),
                    None => None,
                },
            ),
    {
        let ghost ta = match track_artist_opt {
            Some(a) => Some(a@),
            None => None::<Seq<char>>,
        };
        let stripped = match regex_replace(r"(?i)\s*,?\s+by\s+.+$", track_title_raw, "") {
            Some(t) => t,
            None => track_title_raw.to_owned(),
        };
        proof {
            reveal_strlit("");
            assert(""@ =~= Seq::<char>::empty());
        }
        let mut title = trim_string(stripped.as_str());
        assert(title@ == clean_title(track_title_raw@));
        let mut artist: String;
        if various(album_artist) {
            artist = string_from(Vec::<char>::new().as_slice());
            match split_at_any_separator(title.as_str()) {
                Some((a, t)) => {
                    artist = a;
                    title = t;
                },
                None => {},
            }
            if artist.as_str().unicode_len() == 0 {
                match track_artist_opt {
                    Some(a) => {
                        if !various(a.as_str()) {
                            artist = trim_string(a.as_str());
                        }
                    },
                    None => {},
                }
            }
            assert((artist@, title@) == various_artist_title(clean_title(track_title_raw@), ta));
        } else {
            artist = match track_artist_opt {
                Some(a) => trim_string(a.as_str()),
                None => trim_string(album_artist),
            };
            let (t, feat) = Self::extract_featured_artist(title.as_str());
            title = t;
            match feat {
                Some(f) => {
                    let mut v = chars_of(artist.as_str());
                    push_str(&mut v, " ft. ");
                    push_str(&mut v, f.as_str());
                    artist = string_from(v.as_slice());
                },
                None => {},
            }
            assert((artist@, title@) == single_artist_title(
                album_artist@,
                clean_title(track_title_raw@),
                ta,
            ));
        }
        if various(artist.as_str()) {
            match split_at_any_separator(title.as_str()) {
                Some((a, t)) => {
                    artist = a;
                    title = t;
                },
                None => {},
            }
        }
        let trimmed = trim_string(artist.as_str());
        if trimmed.as_str().unicode_len() == 0 {
            artist = "Lofi Girl".to_owned();
        }
        (artist, title)
    }

    /// The page that the tracks of an album's record link from.
    pub fn tralbum_base_url(album_url: &str) -> (r: String)
        ensures
            r@ == tralbum_base(album_url@),
    {
        match split_once_str(album_url, "/album/") {
            Some((a, _)) => a,
            None => match split_once_str(album_url, "/track/") {
                Some((a, _)) => a,
                None => album_url.to_owned(),
            },
        }
    }

    /// The URL of a track from its record's link.
    pub fn tralbum_track_url(link: Option<&str>, base: &str) -> (r: String)
        ensures
            r@ == tralbum_track_url(
                match link {
                    Some(l) => Some(l@),
                    None => None,
                },
                base@,
            ),
    {
        match link {
            Some(l) => {
                let lc = chars_of(l);
                let h = chars_of("http");
                if crate::text::starts_with_chars(lc.as_slice(), h.as_slice()) {
                    proof {
                        reveal_strlit("/album/");
                    }
                    replace_str(l, "/album/", "/")
                } else {
                    let mut v = chars_of(base);
                    push_str(&mut v, l);
                    string_from(v.as_slice())
                }
            },
            None => string_from(Vec::<char>::new().as_slice()),
        }
    }

    /// The tracks listed by an album's record: `None` stands for a record
    /// without a list of tracks, which is an error. Entries without a
    /// title are skipped.
    pub fn parse_tralbum_tracks(
        trackinfo: Option<&[TralbumTrack]>,
        album_url: &str,
        album_artist: &str,
    ) -> (r: Result<Vec<TrackInfo>, AlbumError>)
        ensures
            trackinfo is None <==> r is Err,
            trackinfo matches Some(ts) ==> (r matches Ok(v) && track_fields(v@) == tralbum_tracks(
                ts@,
                tralbum_base(album_url@),
                album_artist@,
            ) && forall|i: int| 0 <= i < v@.len() ==> (#[trigger] v@[i]).artist is Some),
    {
        let ts = match trackinfo {
            Some(ts) => ts,
            None => {
                return Err(AlbumError::NoTrackInfo);
            },
        };
        let base = Self::tralbum_base_url(album_url);
        let mut out: Vec<TrackInfo> = Vec::new();
        let mut i: usize = 0;
        while i < ts.len()
            invariant
                i <= ts.len(),
                base@ == tralbum_base(album_url@),
                track_fields(out@) == tralbum_tracks(ts@.subrange(0, i as int), base@, album_artist@),
                forall|k: int| 0 <= k < out@.len() ==> (#[trigger] out@[k]).artist is Some,
            decreases ts.len() - i,
        {
            let ghost prefix = ts@.subrange(0, i + 1);
            assert(prefix.drop_last() =~= ts@.subrange(0, i as int));
            assert(prefix.last() == ts@[i as int]);
            let t = &ts[i];
            match &t.title {
                Some(title) => {
                    let (artist, name) = Self::normalize_artist_title(
                        album_artist,
                        title.as_str(),
                        t.artist.as_ref(),
                    );
                    let link = match &t.title_link {
                        Some(l) => Some(l.as_str()),
                        None => None,
                    };
                    let url = Self::tralbum_track_url(link, base.as_str());
                    let ghost before = track_fields(out@);
                    out.push(TrackInfo { name, url, artist: Some(artist) });
                    assert(track_fields(out@) =~= before.push(track_fields(out@).last()));
                },
                None => {},
            }
            i = i + 1;
        }
        assert(ts@.subrange(0, ts@.len() as int) =~= ts@);
        Ok(out)
    }
}

/// The field of a JSON record that names an album's artist.
#[derive(PartialEq, Eq, Structural, Debug, Clone, Copy)]
pub enum ArtistField {
    /// `artist`.
    Artist,
    /// `name`.
    Name,
}

/// The marker of the script record of an album page.
pub open spec fn tralbum_marker() -> Seq<char> {
    "var TralbumData = "@
}

/// The JSON of an album page's script record: from after the marker to the
/// first `}` that is followed by `;`.
pub open spec fn tralbum_data(html: Seq<char>) -> Option<Seq<char>> {
    if contains(html, tralbum_marker()) {
        let start = first_match(html, tralbum_marker());
        let rest = html.subrange(start, html.len() as int);
        if contains(rest, "};"@) {
            let end = first_match(rest, "};"@);
            Some(html.subrange(start + 18, start + end + 1))
        } else {
            None
        }
    } else {
        None
    }
}

/// The decoded first capture of `pattern` in `html`, if it matches with a
/// first group.
pub open spec fn captured_json(pattern: Seq<char>, html: Seq<char>) -> Option<Seq<char>> {
    match spec_regex_captures(pattern, html, false) {
        Some(g) => if g.len() > 1 && g[1] is Some {
            Some(spec_decode_html_entities(g[1]->0))
        } else {
            None
        },
        None => None,
    }
}

/// The records that may name an album's artist, in the order they are
/// tried, each with the field that names it: the script record, then a
/// `data-tralbum` attribute in double and in single quotes, then a
/// `data-band` attribute likewise.
pub open spec fn artist_sources(html: Seq<char>) -> Seq<(Seq<char>, ArtistField)> {
    source_entry(tralbum_data(html), ArtistField::Artist) + source_entry(
        captured_json(r#"data-tralbum="([^"]+)""#@, html),
        ArtistField::Artist,
    ) + source_entry(captured_json(r#"data-tralbum='([^']+)'"#@, html), ArtistField::Artist)
        + source_entry(captured_json(r#"data-band="([^"]+)""#@, html), ArtistField::Name)
        + source_entry(captured_json(r#"data-band='([^']+)'"#@, html), ArtistField::Name)
}

/// The artist of an album from the name that each of its records gives,
/// in the order the records are tried: the first name given, or "Unknown
/// Artist" when none gives one.
pub open spec fn chosen_artist(found: Seq<Option<Seq<char>>>) -> Seq<char>
    decreases found.len(),
{
    if found.len() == 0 {
        "Unknown Artist"@
    } else {
        match found[0] {
            Some(a) => a,
            None => chosen_artist(found.drop_first()),
        }
    }
}

/// A record found, with its field, as a list of at most one entry.
pub open spec fn source_entry(o: Option<Seq<char>>, f: ArtistField) -> Seq<(Seq<char>, ArtistField)> {
    match o {
        Some(x) => seq![(x, f)],
        None => Seq::empty(),
    }
}

/// The lists one after another.
pub open spec fn joined(parts: Seq<Seq<(Seq<char>, ArtistField)>>) -> Seq<(Seq<char>, ArtistField)>
    decreases parts.len(),
{
    if parts.len() == 0 {
        Seq::empty()
    } else {
        joined(parts.drop_last()) + parts.last()
    }
}

/// The selector of an album page's record script.
pub open spec fn tralbum_selector() -> Seq<char> {
    "script[data-tralbum]"@
}

/// The tracks that an album page links to, from each link's `href` and
/// text: links without an `href` or with blank text are skipped.
pub open spec fn html_tracks(
    hrefs: Seq<Option<Seq<char>>>,
    texts: Seq<Seq<char>>,
    album_url: Seq<char>,
    album_artist: Seq<char>,
    n: nat,
) -> Seq<(Seq<char>, Seq<char>, Seq<char>)>
    decreases n,
{
    if n == 0 {
        Seq::empty()
    } else {
        let rest = html_tracks(hrefs, texts, album_url, album_artist, (n - 1) as nat);
        match hrefs[n - 1] {
            Some(h) => if trim(texts[n - 1]).len() > 0 {
                let (artist, title) = artist_title(album_artist, trim(texts[n - 1]), None);
                rest.push((title, normalized_url(h, album_url), artist))
            } else {
                rest
            },
            None => rest,
        }
    }
}

/// The decoded first capture of `pattern` in `html`.
fn capture_json(pattern: &str, html: &str) -> (r: Option<String>)
    ensures
        opt_view(r) == captured_json(pattern@, html@),
{
    match regex_captures(pattern, html, false) {
        Some(g) => {
            if g.len() > 1 {
                match &g[1] {
                    Some(x) => Some(decode_html_entities(x.as_str())),
                    None => None,
                }
            } else {
                None
            }
        },
        None => None,
    }
}

/// Lemma: in a text that starts with the record marker, `};` first occurs
/// after the marker.
proof fn lemma_end_after_marker(rest: Seq<char>, end: int)
    requires
        rest.len() >= 18,
        rest.subrange(0, 18) == tralbum_marker(),
        is_match_at(rest, "};"@, end),
    ensures
        end >= 18,
{
    reveal_strlit("var TralbumData = ");
    reveal_strlit("};");
    if end < 18 {
        assert(rest[end] == rest.subrange(0, 18)[end]);
        assert(rest.subrange(end, end + 2)[0] == '}');
    }
}

impl DiscographyParser {
    /// The JSON of an album page's script record, if it has one.
    pub fn tralbum_data_json(html: &str) -> (r: Option<String>)
        ensures
            opt_view(r) == tralbum_data(html@),
    {
        let cs = chars_of(html);
        let marker = chars_of("var TralbumData = ");
        proof {
            reveal_strlit("var TralbumData = ");
        }
        let start = match find_chars(cs.as_slice(), marker.as_slice()) {
            Some(s) => s,
            None => {
                return None;
            },
        };
        assert(is_match_at(cs@, marker@, start as int));
        let rest = crate::text::string_of_range(cs.as_slice(), start, cs.len());
        let rc = chars_of(rest.as_str());
        let close = chars_of("};");
        let end = match find_chars(rc.as_slice(), close.as_slice()) {
            Some(e) => e,
            None => {
                return None;
            },
        };
        assert(rc@ == cs@.subrange(start as int, cs@.len() as int));
        assert(marker@.len() == 18);
        assert(is_match_at(rc@, close@, end as int));
        proof {
            reveal_strlit("};");
            assert(rc@.subrange(0, 18) =~= cs@.subrange(start as int, start + 18));
            lemma_end_after_marker(rc@, end as int);
        }
        assert(end + 2 <= rc@.len());
        Some(crate::text::string_of_range(cs.as_slice(), start + 18, start + end + 1))
    }

    /// The artist of an album, given the name that each record of
    /// [`Self::album_artist_sources`] gives, in the same order.
    pub fn album_artist(found: &[Option<String>]) -> (r: String)
        ensures
            r@ == chosen_artist(opt_views(found@)),
    {
        let ghost all = opt_views(found@);
        let mut i: usize = 0;
        assert(all.subrange(0, all.len() as int) =~= all);
        while i < found.len()
            invariant
                i <= found.len(),
                all == opt_views(found@),
                chosen_artist(all) == chosen_artist(all.subrange(i as int, all.len() as int)),
            decreases found.len() - i,
        {
            let ghost rest = all.subrange(i as int, all.len() as int);
            assert(rest.drop_first() =~= all.subrange(i + 1, all.len() as int));
            assert(rest[0] == opt_view(found@[i as int]));
            match &found[i] {
                Some(a) => {
                    return a.clone();
                },
                None => {},
            }
            i = i + 1;
        }
        assert(all.subrange(all.len() as int, all.len() as int) =~= Seq::<Option<Seq<char>>>::empty());
        "Unknown Artist".to_owned()
    }

    /// The records that may name an album's artist, in the order they are
    /// tried, each with the field that names it.
    pub fn album_artist_sources(html: &str) -> (r: Vec<(String, ArtistField)>)
        ensures
            r@.map_values(|e: (String, ArtistField)| (e.0@, e.1)) == artist_sources(html@),
    {
        let mut out: Vec<(String, ArtistField)> = Vec::new();
        let sources = [
            (Self::tralbum_data_json(html), ArtistField::Artist),
            (capture_json(r#"data-tralbum="([^"]+)""#, html), ArtistField::Artist),
            (capture_json(r#"data-tralbum='([^']+)'"#, html), ArtistField::Artist),
            (capture_json(r#"data-band="([^"]+)""#, html), ArtistField::Name),
            (capture_json(r#"data-band='([^']+)'"#, html), ArtistField::Name),
        ];
        let ghost parts = seq![
            source_entry(tralbum_data(html@), ArtistField::Artist),
            source_entry(captured_json(r#"data-tralbum="([^"]+)""#@, html@), ArtistField::Artist),
            source_entry(captured_json(r#"data-tralbum='([^']+)'"#@, html@), ArtistField::Artist),
            source_entry(captured_json(r#"data-band="([^"]+)""#@, html@), ArtistField::Name),
            source_entry(captured_json(r#"data-band='([^']+)'"#@, html@), ArtistField::Name),
        ];
        assert(sources@.len() == 5);
        let mut i: usize = 0;
        while i < 5
            invariant
                i <= 5,
                sources@.len() == 5,
                parts.len() == 5,
                forall|k: int|
                    0 <= k < 5 ==> source_entry(opt_view(#[trigger] sources@[k].0), sources@[k].1)
                        == parts[k],
                out@.map_values(|e: (String, ArtistField)| (e.0@, e.1)) == joined(
                    parts.subrange(0, i as int),
                ),
            decreases 5 - i,
        {
            let ghost before = out@.map_values(|e: (String, ArtistField)| (e.0@, e.1));
            assert(parts.subrange(0, i + 1).drop_last() =~= parts.subrange(0, i as int));
            assert(source_entry(opt_view(sources@[i as int].0), sources@[i as int].1) == parts[i as int]);
            match &sources[i].0 {
                Some(x) => {
                    out.push((x.clone(), sources[i].1));
                    assert(out@.map_values(|e: (String, ArtistField)| (e.0@, e.1)) =~= before + parts[i as int]);
                },
                None => {
                    assert(out@.map_values(|e: (String, ArtistField)| (e.0@, e.1)) =~= before + parts[i as int]);
                },
            }
            i = i + 1;
        }
        proof {
            assert(parts.subrange(0, 5) =~= parts);
            reveal_with_fuel(joined, 6);
            assert(parts.drop_last().drop_last().drop_last().drop_last().drop_last() =~= Seq::<Seq<(Seq<char>, ArtistField)>>::empty());
            assert(joined(parts) =~= artist_sources(html@));
        }
        out
    }

    /// The decoded `data-tralbum` record of an album page's first record
    /// script, if it has one.
    pub fn tralbum_json(html: &str) -> (r: Option<String>)
        ensures
            opt_view(r) == match first_of(spec_select_attr(html@, tralbum_selector(), "data-tralbum"@)) {
                Some(Some(a)) => Some(spec_decode_html_entities(a)),
                _ => None,
            },
    {
        let attrs = select_attr(html, "script[data-tralbum]", "data-tralbum");
        if attrs.len() == 0 {
            return None;
        }
        match &attrs[0] {
            Some(a) => Some(decode_html_entities(a.as_str())),
            None => None,
        }
    }

    /// The tracks that an album page links to: each track link with an
    /// `href` and non-blank text, its text read as a title by the album's
    /// artist.
    pub fn parse_tracks_from_html(html: &str, album_url: &str, album_artist: &str) -> (r: Vec<
        TrackInfo,
    >)
        ensures
            track_fields(r@) == html_tracks(
                spec_select_attr(html@, r#"a[href*="/track/"]"#@, "href"@),
                spec_select_text(html@, r#"a[href*="/track/"]"#@),
                album_url@,
                album_artist@,
                spec_match_count(html@, r#"a[href*="/track/"]"#@),
            ),
    {
        let hrefs = select_attr(html, r#"a[href*="/track/"]"#, "href");
        let texts = select_text(html, r#"a[href*="/track/"]"#);
        let ghost hv = opt_views(hrefs@);
        let ghost tv = texts@.map_values(|s: String| s@);
        let mut out: Vec<TrackInfo> = Vec::new();
        let mut i: usize = 0;
        while i < hrefs.len()
            invariant
                i <= hrefs@.len() == texts@.len(),
                hv == opt_views(hrefs@),
                tv == texts@.map_values(|s: String| s@),
                track_fields(out@) == html_tracks(hv, tv, album_url@, album_artist@, i as nat),
            decreases hrefs.len() - i,
        {
            assert(hv[i as int] == opt_view(hrefs@[i as int]));
            assert(tv[i as int] == texts@[i as int]@);
            match &hrefs[i] {
                Some(h) => {
                    let name = trim_string(texts[i].as_str());
                    if name.as_str().unicode_len() > 0 {
                        let (artist, title) = Self::normalize_artist_title(album_artist, name.as_str(), None);
                        let url = Self::normalize_url(h.as_str(), album_url);
                        let ghost before = track_fields(out@);
                        out.push(TrackInfo { name: title, url, artist: Some(artist) });
                        assert(track_fields(out@) =~= before.push(track_fields(out@).last()));
                    }
                },
                None => {},
            }
            i = i + 1;
        }
        out
    }
}

} // verus!
