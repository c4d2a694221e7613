//! Track lists: a header (the base URL) on the first line, then one track
//! per line, each a path optionally followed by `!` and a display name.
use vstd::prelude::*;
use vstd::string::StrSliceExecFns;

use super::error::{Error, Kind, Result};
use super::format::{file_stem_of, slash_file_stem, slash_separated};
use crate::text::parts::is_match_at;
use crate::text::{
    chars_of, matches_at, contains, contains_chars, ends_with, ends_with_chars, find_char, has_char,
    lemma_trim_shapes, lines, lines_from, starts_with, starts_with_chars, string_from,
    string_of_range, strip_cr, trim, trim_end, trim_end_len, trim_start_len, views,
};

verus! {

/// A list of tracks that can be played.
pub struct List {
    /// The name of the list, usually derived from a file name.
    pub name: String,
    /// The lines of the list: `lines[0]` is the header, the rest are tracks.
    pub lines: Vec<String>,
    /// The file the list was read from, if any.
    pub path: Option<String>,
}

/// The view of an optional string.
pub open spec fn opt_view(o: Option<String>) -> Option<Seq<char>> {
    match o {
        Some(s) => Some(s@),
        None => None,
    }
}

/// The view of an optional string slice.
pub open spec fn opt_str_view(o: Option<&str>) -> Option<Seq<char>> {
    match o {
        Some(s) => Some(s@),
        None => None,
    }
}

/// The lines of a list file: the text without trailing whitespace, split
/// into lines, each without trailing whitespace.
pub open spec fn list_lines(text: Seq<char>) -> Seq<Seq<char>> {
    lines(trim_end(text)).map_values(|l: Seq<char>| trim_end(l))
}

/// A track entry split into its path and its custom display name, at the
/// first `!`.
pub open spec fn entry_parts(line: Seq<char>) -> (Seq<char>, Option<Seq<char>>) {
    if has_char(line, '!') {
        let i = crate::text::first_index(line, '!');
        (line.subrange(0, i), Some(line.subrange(i + 1, line.len() as int)))
    } else {
        (line, None)
    }
}

/// Whether a returned (path, display) pair is the split of `line`.
pub open spec fn is_entry_of(r: (String, Option<String>), line: Seq<char>) -> bool {
    r.0@ == entry_parts(line).0 && opt_view(r.1) == entry_parts(line).1
}

/// The word that marks a list file without a header.
pub open spec fn noheader() -> Seq<char> {
    seq!['n', 'o', 'h', 'e', 'a', 'd', 'e', 'r']
}

/// The text of a list file without its leading "noheader" mark.
pub open spec fn strip_noheader(raw: Seq<char>) -> Seq<char> {
    if starts_with(raw, noheader()) {
        raw.subrange(8, raw.len() as int)
    } else {
        raw
    }
}

/// The `://` that marks a path as a full URL.
pub open spec fn scheme_sep() -> Seq<char> {
    seq![':', '/', '/']
}

/// An ASCII letter, with which a URL scheme begins.
pub open spec fn is_ascii_letter(c: char) -> bool {
    ('a' <= c <= 'z') || ('A' <= c <= 'Z')
}

/// A character of a URL scheme: an ASCII letter or digit, `+`, `-` or `.`.
pub open spec fn is_scheme_char(c: char) -> bool {
    is_ascii_letter(c) || ('0' <= c <= '9') || c == '+' || c == '-' || c == '.'
}

/// Whether `s` begins with a protocol such as `https://`: a scheme (a
/// letter, then scheme characters) followed by `://`.
pub open spec fn starts_with_scheme(s: Seq<char>) -> bool {
    exists|k: int|
        0 < k && is_match_at(s, scheme_sep(), k) && is_ascii_letter(s[0]) && forall|j: int|
            0 <= j < k ==> is_scheme_char(#[trigger] s[j])
}

/// The `file://` prefix of local tracks.
pub open spec fn file_scheme() -> Seq<char> {
    seq!['f', 'i', 'l', 'e', ':', '/', '/']
}

/// `s` with every `c` replaced by `by` (`str::replace` with a one-character
/// pattern).
pub open spec fn replace_char(s: Seq<char>, c: char, by: Seq<char>) -> Seq<char>
    decreases s.len(),
{
    if s.len() == 0 {
        Seq::empty()
    } else if s.last() == c {
        replace_char(s.drop_last(), c, by) + by
    } else {
        replace_char(s.drop_last(), c, by).push(s.last())
    }
}

/// The lines as they are built: like [`lines_from`], each line trimmed at
/// its end.
spec fn trimmed_lines_from(s: Seq<char>, cur: Seq<char>) -> Seq<Seq<char>>
    decreases s.len(),
{
    if s.len() == 0 {
        if cur.len() == 0 {
            Seq::empty()
        } else {
            seq![trim_end(cur)]
        }
    } else if s[0] == '\n' {
        seq![trim_end(cur)] + trimmed_lines_from(s.drop_first(), Seq::empty())
    } else {
        trimmed_lines_from(s.drop_first(), cur.push(s[0]))
    }
}

/// Lemma: building trimmed lines is splitting into lines, then trimming each.
proof fn lemma_trimmed_lines(s: Seq<char>, cur: Seq<char>)
    ensures
        trimmed_lines_from(s, cur) == lines_from(s, cur).map_values(|l: Seq<char>| trim_end(l)),
    decreases s.len(),
{
    if s.len() == 0 {
        if cur.len() == 0 {
            assert(lines_from(s, cur).map_values(|l: Seq<char>| trim_end(l)) =~= Seq::empty());
        } else {
            assert(lines_from(s, cur).map_values(|l: Seq<char>| trim_end(l)) =~= seq![trim_end(cur)]);
        }
    } else if s[0] == '\n' {
        lemma_trimmed_lines(s.drop_first(), Seq::empty());
        assert(trim_end(strip_cr(cur)) == trim_end(cur));
        let rest = lines_from(s.drop_first(), Seq::empty());
        assert((seq![strip_cr(cur)] + rest).map_values(|l: Seq<char>| trim_end(l)) =~= seq![
            trim_end(cur),
        ] + rest.map_values(|l: Seq<char>| trim_end(l)));
    } else {
        lemma_trimmed_lines(s.drop_first(), cur.push(s[0]));
    }
}

/// An entry written for a track (`Info::to_entry`) splits back into the
/// track's path and display name, as long as the path holds no `!`.
pub proof fn law_entry_roundtrip(path: Seq<char>, display: Seq<char>)
    requires
        !has_char(path, '!'),
    ensures
        entry_parts(crate::tracks::entry_of(path, display)) == (path, Some(display)),
{
    let e = crate::tracks::entry_of(path, display);
    assert(e[path.len() as int] == '!');
    assert forall|j: int| 0 <= j < path.len() implies e[j] != '!' by {
        assert(e[j] == path[j]);
    }
    crate::text::lemma_first_index_unique(e, '!', path.len() as int);
    assert(e.subrange(0, path.len() as int) =~= path);
    assert(e.subrange(path.len() as int + 1, e.len() as int) =~= display);
}

/// Splits a track entry into its path and its custom display name at the
/// first `!`.
pub fn split_entry(line: &str) -> (r: (String, Option<String>))
    ensures
        is_entry_of(r, line@),
{
    let cs = chars_of(line);
    match find_char(cs.as_slice(), '!') {
        Some(i) => {
            assert(i < cs.len());
            let first = string_of_range(cs.as_slice(), 0, i);
            let second = string_of_range(cs.as_slice(), i + 1, cs.len());
            (first, Some(second))
        },
        None => (line.to_owned(), None),
    }
}

/// Exec counterpart of [`replace_char`]: replaces each `c` of `s` by `by`.
fn replace_chars(s: &[char], c: char, by: &str) -> (r: String)
    ensures
        r@ == replace_char(s@, c, by@),
{
    let byc = chars_of(by);
    let mut out: Vec<char> = Vec::new();
    let mut i: usize = 0;
    while i < s.len()
        invariant
            i <= s.len(),
            byc@ == by@,
            out@ == replace_char(s@.subrange(0, i as int), c, by@),
        decreases s.len() - i,
    {
        assert(s@.subrange(0, i + 1).drop_last() =~= s@.subrange(0, i as int));
        if s[i] == c {
            crate::text::push_chars(&mut out, byc.as_slice());
        } else {
            out.push(s[i]);
        }
        i = i + 1;
    }
    assert(s@.subrange(0, s.len() as int) =~= s@);
    string_from(out.as_slice())
}

/// `fastrand::Rng::usize` on the range `low..high`: a number in that range.
#[verifier::external_body]
fn random_index(rng: &mut fastrand::Rng, low: usize, high: usize) -> (r: usize)
    requires
        low < high,
    ensures
        low <= r < high,
{
    rng.usize(low..high)
}

#[verifier::external_type_specification]
#[verifier::external_body]
pub struct ExRng(fastrand::Rng);

/// Exec counterpart of [`is_scheme_char`].
fn scheme_char(c: char) -> (r: bool)
    ensures
        r == is_scheme_char(c),
{
    ('a' <= c && c <= 'z') || ('A' <= c && c <= 'Z') || ('0' <= c && c <= '9') || c == '+' || c
        == '-' || c == '.'
}

/// Whether the characters begin with a protocol such as `https://`.
fn begins_with_scheme(cs: &[char]) -> (r: bool)
    ensures
        r == starts_with_scheme(cs@),
{
    let mut k: usize = 0;
    while k < cs.len() && scheme_char(cs[k])
        invariant
            k <= cs.len(),
            forall|j: int| 0 <= j < k ==> is_scheme_char(#[trigger] cs@[j]),
        decreases cs.len() - k,
    {
        k = k + 1;
    }
    let sep = vec![':', '/', '/'];
    assert(sep@ =~= scheme_sep());
    let r = k > 0 && 3 <= cs.len() - k && ('a' <= cs[0] && cs[0] <= 'z' || 'A' <= cs[0] && cs[0]
        <= 'Z') && matches_at(cs, sep.as_slice(), k);
    proof {
        if r {
            assert(is_match_at(cs@, scheme_sep(), k as int));
        }
        if starts_with_scheme(cs@) {
            let w = choose|w: int|
                0 < w && is_match_at(cs@, scheme_sep(), w) && is_ascii_letter(cs@[0]) && forall|j: int|
                    0 <= j < w ==> is_scheme_char(#[trigger] cs@[j]);
            assert(cs@[w] == cs@.subrange(w, w + 3)[0]);
            if w < k {
                assert(is_scheme_char(cs@[w]));
            }
            if w > k {
                assert(is_scheme_char(cs@[k as int]));
            }
            assert(w == k);
        }
    }
    r
}


impl List {
    /// The base URL of the list: its first line, trimmed.
    pub fn header(&self) -> (r: &str)
        requires
            self.lines.len() > 0,
        ensures
            r@ == trim(self.lines@[0]@),
    {
        let line = self.lines[0].as_str();
        let cs = chars_of(line);
        let a = trim_start_len(cs.as_slice());
        let rest = crate::text::string_of_range(cs.as_slice(), a, cs.len());
        let rc = chars_of(rest.as_str());
        let b = trim_end_len(rc.as_slice());
        proof {
            lemma_trim_shapes(line@);
            assert(rc@.subrange(0, b as int) =~= line@.subrange(a as int, a + b));
        }
        line.substring_char(a, a + b)
    }

    /// The path and custom display name of the track on line `index`.
    pub fn entry(&self, index: usize) -> (r: (String, Option<String>))
        requires
            1 <= index < self.lines.len(),
        ensures
            is_entry_of(r, self.lines@[index as int]@),
    {
        split_entry(self.lines[index].as_str())
    }

    /// The path of a random track, with its custom display name if the
    /// entry has one.
    pub fn random_path(&self, rng: &mut fastrand::Rng) -> (r: (String, Option<String>))
        requires
            self.lines.len() >= 2,
        ensures
            exists|i: int| 1 <= i < self.lines.len() && is_entry_of(r, #[trigger] self.lines@[i]@),
    {
        let random = random_index(rng, 1, self.lines.len());
        self.entry(random)
    }

    /// The full path of `track`: as it is if it begins with a protocol such
    /// as `https://`, otherwise appended to the list's header.
    pub fn resolve(&self, track: &str) -> (r: String)
        requires
            starts_with_scheme(track@) || self.lines.len() > 0,
        ensures
            starts_with_scheme(track@) ==> r@ == track@,
            !starts_with_scheme(track@) ==> r@ == trim(self.lines@[0]@) + track@,
    {
        let tc = chars_of(track);
        if begins_with_scheme(tc.as_slice()) {
            track.to_owned()
        } else {
            let mut s = self.header().to_owned();
            s.append(track);
            s
        }
    }

    /// Where a `file://` track lives on disk: `None` for other paths, an
    /// [`Kind::InvalidPath`] error naming `track` when the path starts with
    /// `~` and no home directory is known, otherwise the path after
    /// `file://` with each `~` replaced by the home directory.
    pub fn local_file(track: &str, path: &str, home: Option<&str>) -> (r: Option<Result<String>>)
        ensures
            !starts_with(path@, file_scheme()) ==> r is None,
            starts_with(path@, file_scheme()) ==> r is Some,
            r matches Some(res) ==> {
                let x = path@.subrange(7, path@.len() as int);
                &&& (x.len() > 0 && x[0] == '~' && home is None) ==> (res matches Err(e)
                    && e.kind is InvalidPath && (e.track matches Some(t) && t@ == track@))
                &&& (x.len() > 0 && x[0] == '~' && home is Some) ==> (res matches Ok(p) && p@
                    == replace_char(x, '~', home->0@))
                &&& !(x.len() > 0 && x[0] == '~') ==> (res matches Ok(p) && p@ == x)
            },
    {
        let pc = chars_of(path);
        let scheme = vec!['f', 'i', 'l', 'e', ':', '/', '/'];
        assert(scheme@ =~= file_scheme());
        if !starts_with_chars(pc.as_slice(), scheme.as_slice()) {
            return None;
        }
        let x = crate::text::string_of_range(pc.as_slice(), 7, pc.len());
        let xc = chars_of(x.as_str());
        if xc.len() > 0 && xc[0] == '~' {
            match home {
                Some(h) => Some(Ok(replace_chars(xc.as_slice(), '~', h))),
                None => Some(
                    Err(Error { track: Some(track.to_owned()), kind: Kind::InvalidPath }),
                ),
            }
        } else {
            Some(Ok(x))
        }
    }

    /// Parses text into a list.
    pub fn new(name: &str, text: &str, path: Option<&str>) -> (r: Self)
        ensures
            views(r.lines@) == list_lines(text@),
            r.name@ == name@,
            opt_view(r.path) == opt_str_view(path),
    {
        let cs = chars_of(text);
        let n = trim_end_len(cs.as_slice());
        let ghost t = cs@.subrange(0, n as int);
        let mut lines: Vec<String> = Vec::new();
        let mut cur: Vec<char> = Vec::new();
        let mut i: usize = 0;
        assert(t.subrange(0, n as int) =~= t);
        assert(views(lines@) + trimmed_lines_from(t, cur@) =~= trimmed_lines_from(t, Seq::empty()));
        while i < n
            invariant
                i <= n <= cs.len(),
                t == cs@.subrange(0, n as int),
                views(lines@) + trimmed_lines_from(t.subrange(i as int, n as int), cur@)
                    == trimmed_lines_from(t, Seq::empty()),
            decreases n - i,
        {
            let ghost rest = t.subrange(i as int, n as int);
            assert(rest.drop_first() =~= t.subrange(i + 1, n as int));
            assert(rest[0] == cs@[i as int]);
            let c = cs[i];
            if c == '\n' {
                let k = trim_end_len(cur.as_slice());
                let line = string_of_range(cur.as_slice(), 0, k);
                let ghost before = views(lines@);
                let ghost old_cur = cur@;
                lines.push(line);
                assert(views(lines@) =~= before.push(trim_end(cur@)));
                cur = Vec::new();
                assert(views(lines@) + trimmed_lines_from(rest.drop_first(), cur@) =~= before + (
                seq![trim_end(old_cur)] + trimmed_lines_from(rest.drop_first(), Seq::empty())));
            } else {
                cur.push(c);
            }
            i = i + 1;
        }
        assert(t.subrange(n as int, n as int) =~= Seq::<char>::empty());
        if cur.len() > 0 {
            let k = trim_end_len(cur.as_slice());
            let line = string_of_range(cur.as_slice(), 0, k);
            let ghost before = views(lines@);
            lines.push(line);
            assert(views(lines@) =~= before + seq![trim_end(cur@)]);
        } else {
            assert(views(lines@) + Seq::<Seq<char>>::empty() =~= views(lines@));
        }
        proof {
            lemma_trimmed_lines(t, Seq::empty());
        }
        let path = match path {
            Some(p) => Some(p.to_owned()),
            None => None,
        };
        List { lines, path, name: name.to_owned() }
    }

    /// Builds a list from the text of the file at `path`, named after the
    /// file's stem. When `drop_mark` is set (a list loaded to be played), a
    /// leading "noheader" mark is dropped; otherwise (a list read to be
    /// offered) the text is taken as it is. A path without a file name is
    /// an [`Kind::InvalidName`] error naming `tracks`.
    pub fn from_file(tracks: &str, path: &str, raw: &str, drop_mark: bool) -> (r: Result<Self>)
        ensures
            r matches Ok(l) ==> views(l.lines@) == list_lines(
                if drop_mark {
                    strip_noheader(raw@)
                } else {
                    raw@
                },
            ) && opt_view(l.path) == Some(path@),
            slash_separated(path@) ==> (r is Err <==> slash_file_stem(path@) is None),
            slash_separated(path@) && slash_file_stem(path@) is Some ==> (r matches Ok(l) && l.name@
                == slash_file_stem(path@)->0),
            r matches Err(e) ==> e.kind is InvalidName && (e.track matches Some(t) && t@ == tracks@),
    {
        let rc = chars_of(raw);
        let mark = vec!['n', 'o', 'h', 'e', 'a', 'd', 'e', 'r'];
        assert(mark@ =~= noheader());
        let text = if drop_mark && starts_with_chars(rc.as_slice(), mark.as_slice()) {
            string_of_range(rc.as_slice(), 8, rc.len())
        } else {
            proof {
                assert(rc@.subrange(0, rc@.len() as int) =~= rc@);
            }
            string_of_range(rc.as_slice(), 0, rc.len())
        };
        match file_stem_of(path) {
            Some(name) => Ok(Self::new(name.as_str(), text.as_str(), Some(path))),
            None => Err(Error { track: Some(tracks.to_owned()), kind: Kind::InvalidName }),
        }
    }

    /// Whether a file in the data directory is a track list: its name has
    /// the extension `txt` and it is neither `volume.txt` nor
    /// `bookmarks.txt`.
    pub fn is_list_file(file_name: &str) -> (r: bool)
        ensures
            r == (ends_with(file_name@, seq!['.', 't', 'x', 't']) && file_name@.len() > 4
                && file_name@ != seq!['v', 'o', 'l', 'u', 'm', 'e', '.', 't', 'x', 't']
                && file_name@ != seq!['b', 'o', 'o', 'k', 'm', 'a', 'r', 'k', 's', '.', 't', 'x', 't']),
    {
        let fc = chars_of(file_name);
        let ext = vec!['.', 't', 'x', 't'];
        let volume = vec!['v', 'o', 'l', 'u', 'm', 'e', '.', 't', 'x', 't'];
        let bookmarks = vec!['b', 'o', 'o', 'k', 'm', 'a', 'r', 'k', 's', '.', 't', 'x', 't'];
        let txt = ends_with_chars(fc.as_slice(), ext.as_slice()) && fc.len() > 4;
        let is_volume = fc.len() == volume.len() && crate::text::starts_with_chars(
            fc.as_slice(),
            volume.as_slice(),
        );
        let is_bookmarks = fc.len() == bookmarks.len() && crate::text::starts_with_chars(
            fc.as_slice(),
            bookmarks.as_slice(),
        );
        proof {
            if fc.len() == volume.len() {
                assert(fc@.subrange(0, volume@.len() as int) =~= fc@);
            }
            if fc.len() == bookmarks.len() {
                assert(fc@.subrange(0, bookmarks@.len() as int) =~= fc@);
            }
            assert(ext@ =~= seq!['.', 't', 'x', 't']);
            assert(volume@ =~= seq!['v', 'o', 'l', 'u', 'm', 'e', '.', 't', 'x', 't']);
            assert(bookmarks@ =~= seq!['b', 'o', 'o', 'k', 'm', 'a', 'r', 'k', 's', '.', 't', 'x', 't']);
        }
        txt && !is_volume && !is_bookmarks
    }
}

} // verus!
