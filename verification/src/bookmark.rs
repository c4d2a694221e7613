//! Bookmarks: track-list entries the listener marked, kept in
//! `bookmarks.txt` as a list without a header.
use vstd::prelude::*;

use crate::text::{
    chars_of, has_char, is_whitespace, lines_from, push_chars, starts_with, string_from,
    strip_cr, trim, trim_end, trim_start, views,
};
use crate::tracks::{entry_of, Info};

verus! {

/// Errors that might occur while managing bookmarks.
#[derive(Debug)]
pub enum Error {
    /// The data directory could not be found.
    Directory,
    /// Reading or writing the bookmarks file failed.
    Io(std::io::Error),
}

/// The bookmarks of the current player.
pub struct Bookmarks {
    /// The entries of the bookmarks file.
    pub entries: Vec<String>,
}

/// The word that marks a list without a header.
pub open spec fn noheader() -> Seq<char> {
    seq!['n', 'o', 'h', 'e', 'a', 'd', 'e', 'r']
}

/// `s` without any number of leading "noheader" marks
/// (`str::trim_start_matches`).
pub open spec fn strip_noheaders(s: Seq<char>) -> Seq<char>
    decreases s.len(),
{
    if starts_with(s, noheader()) {
        strip_noheaders(s.subrange(8, s.len() as int))
    } else {
        s
    }
}

/// The lines of `ls` that are not empty.
pub open spec fn non_empty(ls: Seq<Seq<char>>) -> Seq<Seq<char>>
    decreases ls.len(),
{
    if ls.len() == 0 {
        Seq::empty()
    } else if ls[0].len() == 0 {
        non_empty(ls.drop_first())
    } else {
        seq![ls[0]] + non_empty(ls.drop_first())
    }
}

/// The entries read from the text of a bookmarks file.
pub open spec fn parse_entries(text: Seq<char>) -> Seq<Seq<char>> {
    non_empty(lines_from(trim(strip_noheaders(text)), Seq::empty()))
}

/// `ss` joined by newlines.
pub open spec fn join_lines(ss: Seq<Seq<char>>) -> Seq<char>
    decreases ss.len(),
{
    if ss.len() == 0 {
        Seq::empty()
    } else if ss.len() == 1 {
        ss[0]
    } else {
        join_lines(ss.drop_last()) + seq!['\n'] + ss.last()
    }
}

/// The text of a bookmarks file holding `entries`.
pub open spec fn entries_text(entries: Seq<Seq<char>>) -> Seq<char> {
    noheader() + seq!['\n'] + join_lines(entries)
}

/// `i` is the position of the first `x` in `s`.
pub open spec fn is_first_pos<A>(s: Seq<A>, x: A, i: int) -> bool {
    &&& 0 <= i < s.len()
    &&& s[i] == x
    &&& forall|j: int| 0 <= j < i ==> s[j] != x
}

/// The position of the first `x` in `s` (meaningful when `s` contains `x`).
pub open spec fn first_pos<A>(s: Seq<A>, x: A) -> int {
    choose|i: int| is_first_pos(s, x, i)
}

/// The entries after bookmarking `e`: its first occurrence removed if it
/// was there, otherwise `e` appended.
pub open spec fn toggled(entries: Seq<Seq<char>>, e: Seq<char>) -> Seq<Seq<char>> {
    if entries.contains(e) {
        entries.remove(first_pos(entries, e))
    } else {
        entries.push(e)
    }
}

/// No entry occurs twice.
pub open spec fn no_duplicates(entries: Seq<Seq<char>>) -> bool {
    forall|i: int, j: int| 0 <= i < j < entries.len() ==> entries[i] != entries[j]
}

/// An entry that a bookmarks file stores and reads back unchanged: it is
/// not empty, holds no newline, and has no whitespace at either end.
pub open spec fn storable(e: Seq<char>) -> bool {
    e.len() > 0 && !has_char(e, '\n') && trim(e) == e
}

impl Bookmarks {
    /// Reads bookmarks from the text of a bookmarks file: leading
    /// "noheader" marks are dropped, the rest is trimmed and split into
    /// lines, and empty lines are skipped.
    pub fn from_text(text: &str) -> (r: Self)
        ensures
            views(r.entries@) == parse_entries(text@),
    {
        let cs = chars_of(text);
        let mark = vec!['n', 'o', 'h', 'e', 'a', 'd', 'e', 'r'];
        assert(mark@ =~= noheader());
        let mut start: usize = 0;
        assert(cs@.subrange(0, cs.len() as int) =~= cs@);
        while cs.len() - start >= 8 && crate::text::matches_at(cs.as_slice(), mark.as_slice(), start)
            invariant
                start <= cs.len(),
                mark@ == noheader(),
                strip_noheaders(cs@) == strip_noheaders(cs@.subrange(start as int, cs.len() as int)),
            decreases cs.len() - start,
        {
            assert(cs@.subrange(start as int, cs.len() as int).subrange(0, 8) =~= cs@.subrange(
                start as int,
                start + 8,
            ));
            assert(cs@.subrange(start as int, cs.len() as int).subrange(8, cs.len() - start)
                =~= cs@.subrange(start + 8, cs.len() as int));
            start = start + 8;
        }
        if cs.len() - start >= 8 {
            assert(cs@.subrange(start as int, cs.len() as int).subrange(0, 8) =~= cs@.subrange(
                start as int,
                start + 8,
            ));
        }
        assert(strip_noheaders(cs@) == cs@.subrange(start as int, cs.len() as int));
        let body = crate::text::string_of_range(cs.as_slice(), start, cs.len());
        let trimmed = crate::text::trim_string(body.as_str());
        let t = chars_of(trimmed.as_str());
        let mut entries: Vec<String> = Vec::new();
        let mut cur: Vec<char> = Vec::new();
        let mut i: usize = 0;
        assert(t@.subrange(0, t.len() as int) =~= t@);
        assert(views(entries@) + non_empty(lines_from(t@, cur@)) =~= non_empty(
            lines_from(t@, Seq::empty()),
        ));
        while i < t.len()
            invariant
                i <= t.len(),
                !has_char(cur@, '\n'),
                views(entries@) + non_empty(lines_from(t@.subrange(i as int, t.len() as int), cur@))
                    == non_empty(lines_from(t@, Seq::empty())),
            decreases t.len() - i,
        {
            let ghost rest = t@.subrange(i as int, t.len() as int);
            assert(rest.drop_first() =~= t@.subrange(i + 1, t.len() as int));
            assert(rest[0] == t@[i as int]);
            let c = t[i];
            if c == '\n' {
                let ghost before = views(entries@);
                let ghost old_cur = cur@;
                let line = strip_cr_string(cur.as_slice());
                let ghost tail = lines_from(rest.drop_first(), Seq::empty());
                assert(lines_from(rest, old_cur) == seq![strip_cr(old_cur)] + tail);
                assert((seq![strip_cr(old_cur)] + tail).drop_first() =~= tail);
                let keep = if cur.len() > 0 && cur[cur.len() - 1] == '\r' {
                    cur.len() > 1
                } else {
                    cur.len() > 0
                };
                assert(keep == (strip_cr(old_cur).len() > 0));
                if keep {
                    entries.push(line);
                    assert(views(entries@) =~= before.push(strip_cr(old_cur)));
                    assert(views(entries@) + non_empty(tail) =~= before + (seq![strip_cr(old_cur)]
                        + non_empty(tail)));
                }
                cur = Vec::new();
            } else {
                let ghost old_cur = cur@;
                cur.push(c);
                assert forall|j: int| 0 <= j < cur@.len() implies cur@[j] != '\n' by {
                    if j < old_cur.len() {
                        assert(cur@[j] == old_cur[j]);
                    }
                }
            }
            i = i + 1;
        }
        assert(t@.subrange(t.len() as int, t.len() as int) =~= Seq::<char>::empty());
        if cur.len() > 0 {
            let ghost before = views(entries@);
            let line = string_from(cur.as_slice());
            entries.push(line);
            assert(lines_from(Seq::<char>::empty(), cur@) == seq![cur@]);
            assert(non_empty(seq![cur@]) == seq![cur@] + non_empty(seq![cur@].drop_first()));
            assert(seq![cur@].drop_first() =~= Seq::<Seq<char>>::empty());
            assert(views(entries@) =~= before + non_empty(lines_from(Seq::<char>::empty(), cur@)));
        } else {
            assert(views(entries@) + Seq::<Seq<char>>::empty() =~= views(entries@));
        }
        Bookmarks { entries }
    }

    /// The text of the bookmarks file: a "noheader" mark, then the entries
    /// one per line.
    pub fn to_text(&self) -> (r: String)
        ensures
            r@ == entries_text(views(self.entries@)),
    {
        let mut out: Vec<char> = vec!['n', 'o', 'h', 'e', 'a', 'd', 'e', 'r', '\n'];
        assert(out@ =~= noheader() + seq!['\n']);
        let ghost prefix = out@;
        let mut i: usize = 0;
        while i < self.entries.len()
            invariant
                i <= self.entries.len(),
                prefix == noheader() + seq!['\n'],
                out@ == prefix + join_lines(views(self.entries@).subrange(0, i as int)),
            decreases self.entries.len() - i,
        {
            let ghost es = views(self.entries@).subrange(0, i + 1);
            assert(es.drop_last() =~= views(self.entries@).subrange(0, i as int));
            let ec = chars_of(self.entries[i].as_str());
            if i > 0 {
                out.push('\n');
            }
            push_chars(&mut out, ec.as_slice());
            assert(es.last() == self.entries@[i as int]@);
            if i == 0 {
                assert(join_lines(es) == es[0]);
            }
            assert(out@ =~= prefix + join_lines(es));
            i = i + 1;
        }
        assert(views(self.entries@).subrange(0, self.entries.len() as int) =~= views(
            self.entries@,
        ));
        string_from(out.as_slice())
    }

    /// Toggles the bookmark of `track` and returns whether it is now
    /// bookmarked: its entry is removed if present, otherwise appended.
    pub fn bookmark(&mut self, track: &Info) -> (r: Result<bool, Error>)
        ensures
            views(final(self).entries@) == toggled(
                views(old(self).entries@),
                entry_of(track.path@, track.display@),
            ),
            r matches Ok(b) && b == !views(old(self).entries@).contains(
                entry_of(track.path@, track.display@),
            ),
    {
        let entry = track.to_entry();
        let ghost e = entry@;
        let ghost vs = views(self.entries@);
        let mut idx: Option<usize> = None;
        let mut i: usize = 0;
        while i < self.entries.len()
            invariant_except_break
                idx is None,
            invariant
                i <= self.entries.len(),
                vs == views(self.entries@),
                e == entry@,
                forall|j: int| 0 <= j < i ==> vs[j] != e,
            ensures
                idx matches Some(k) ==> is_first_pos(vs, e, k as int),
                idx is None ==> forall|j: int| 0 <= j < vs.len() ==> vs[j] != e,
            decreases self.entries.len() - i,
        {
            if self.entries[i] == entry {
                assert(vs[i as int] == e);
                idx = Some(i);
                break;
            }
            i = i + 1;
        }
        match idx {
            Some(k) => {
                proof {
                    lemma_first_pos_unique(vs, e, k as int);
                }
                self.entries.remove(k);
                assert(views(self.entries@) =~= vs.remove(k as int));
                Ok(false)
            },
            None => {
                assert(!vs.contains(e));
                self.entries.push(entry);
                assert(views(self.entries@) =~= vs.push(e));
                Ok(true)
            },
        }
    }

    /// Whether the entry of `track` is bookmarked.
    pub fn bookmarked(&mut self, track: &Info) -> (r: bool)
        ensures
            final(self).entries@ == old(self).entries@,
            r == views(old(self).entries@).contains(entry_of(track.path@, track.display@)),
    {
        let entry = track.to_entry();
        let ghost vs = views(self.entries@);
        let mut i: usize = 0;
        while i < self.entries.len()
            invariant
                i <= self.entries.len(),
                vs == views(self.entries@),
                self.entries@ == old(self).entries@,
                entry@ == entry_of(track.path@, track.display@),
                forall|j: int| 0 <= j < i ==> vs[j] != entry@,
            decreases self.entries.len() - i,
        {
            if self.entries[i] == entry {
                assert(vs[i as int] == entry@);
                assert(vs.contains(entry@));
                return true;
            }
            i = i + 1;
        }
        false
    }
}

/// Bookmarking a track twice leaves bookmarks that did not hold it as they
/// were; on bookmarks without duplicates, it leaves the same entries
/// bookmarked in any case.
pub proof fn law_bookmark_twice(entries: Seq<Seq<char>>, e: Seq<char>)
    ensures
        !entries.contains(e) ==> toggled(toggled(entries, e), e) == entries,
        no_duplicates(entries) ==> forall|x: Seq<char>|
            #[trigger] toggled(toggled(entries, e), e).contains(x) == entries.contains(x),
{
    if !entries.contains(e) {
        let pushed = entries.push(e);
        assert(pushed[entries.len() as int] == e);
        lemma_first_pos_unique(pushed, e, entries.len() as int);
        assert(toggled(pushed, e) =~= entries);
    } else if no_duplicates(entries) {
        law_bookmark_state(entries, e);
        law_bookmark_keeps_no_duplicates(entries, e);
        let i0 = choose|i: int| 0 <= i < entries.len() && entries[i] == e;
        assert(is_first_pos(entries, e, i0));
        lemma_first_pos_unique(entries, e, i0);
        let once = toggled(entries, e);
        let k = first_pos(entries, e);
        assert(once == entries.remove(k));
        assert(forall|i: int| 0 <= i < k ==> #[trigger] once[i] == entries[i]);
        assert(forall|i: int| k <= i < once.len() ==> #[trigger] once[i] == entries[i + 1]);
        let pushed = once.push(e);
        assert(forall|i: int| 0 <= i < once.len() ==> #[trigger] pushed[i] == once[i]);
        assert(toggled(once, e) == pushed);
        assert forall|x: Seq<char>| #[trigger] pushed.contains(x) == entries.contains(x) by {
            if entries.contains(x) {
                let i = choose|i: int| 0 <= i < entries.len() && entries[i] == x;
                if i < k {
                    assert(pushed[i] == x);
                } else if i > k {
                    assert(pushed[i - 1] == x);
                } else {
                    assert(pushed[once.len() as int] == x);
                }
            }
            if pushed.contains(x) {
                let j = choose|j: int| 0 <= j < pushed.len() && pushed[j] == x;
                if j == once.len() {
                    assert(entries[k] == x);
                } else if j < k {
                    assert(entries[j] == x);
                } else {
                    assert(entries[j + 1] == x);
                }
            }
        }
    }
}

/// On bookmarks without duplicates, bookmarking a track answers whether it
/// is bookmarked afterwards.
pub proof fn law_bookmark_state(entries: Seq<Seq<char>>, e: Seq<char>)
    requires
        no_duplicates(entries),
    ensures
        toggled(entries, e).contains(e) == !entries.contains(e),
{
    if entries.contains(e) {
        let i = choose|i: int| 0 <= i < entries.len() && entries[i] == e;
        assert(is_first_pos(entries, e, i));
        lemma_first_pos_unique(entries, e, i);
        let out = toggled(entries, e);
        assert forall|j: int| 0 <= j < out.len() implies out[j] != e by {
            if j < i {
                assert(out[j] == entries[j]);
            } else {
                assert(out[j] == entries[j + 1]);
            }
        }
    } else {
        assert(toggled(entries, e)[entries.len() as int] == e);
    }
}

/// Bookmarking keeps bookmarks free of duplicates.
pub proof fn law_bookmark_keeps_no_duplicates(entries: Seq<Seq<char>>, e: Seq<char>)
    requires
        no_duplicates(entries),
    ensures
        no_duplicates(toggled(entries, e)),
{
    if entries.contains(e) {
        let i = choose|i: int| 0 <= i < entries.len() && entries[i] == e;
        assert(is_first_pos(entries, e, i));
        lemma_first_pos_unique(entries, e, i);
        let out = toggled(entries, e);
        assert forall|a: int, b: int| 0 <= a < b < out.len() implies out[a] != out[b] by {
            let a2 = if a < i { a } else { a + 1 };
            let b2 = if b < i { b } else { b + 1 };
            assert(out[a] == entries[a2]);
            assert(out[b] == entries[b2]);
        }
    } else {
        let out = toggled(entries, e);
        assert forall|a: int, b: int| 0 <= a < b < out.len() implies out[a] != out[b] by {
            if b == entries.len() {
                assert(out[a] == entries[a]);
            }
        }
    }
}

/// Reading back the text written for bookmarks gives the same entries, as
/// long as each entry is one a bookmarks file can store.
pub proof fn law_bookmarks_text_roundtrip(entries: Seq<Seq<char>>)
    requires
        forall|i: int| 0 <= i < entries.len() ==> storable(#[trigger] entries[i]),
    ensures
        parse_entries(entries_text(entries)) == entries,
{
    let j = join_lines(entries);
    let text = entries_text(entries);
    assert(text.subrange(0, 8) =~= noheader());
    assert(starts_with(text, noheader()));
    assert(text.subrange(8, text.len() as int) =~= seq!['\n'] + j);
    let nl = seq!['\n'] + j;
    if nl.len() >= 8 {
        assert(nl.subrange(0, 8)[0] == '\n');
        assert(nl.subrange(0, 8) != noheader());
    }
    assert(!starts_with(nl, noheader()));
    assert(strip_noheaders(nl) == nl);
    assert(strip_noheaders(text) == strip_noheaders(text.subrange(8, text.len() as int)));
    assert(strip_noheaders(text) == seq!['\n'] + j);
    assert((seq!['\n'] + j).drop_first() =~= j);
    assert(trim_start(seq!['\n'] + j) == trim_start(j));
    if entries.len() == 0 {
        assert(trim(strip_noheaders(text)) =~= Seq::<char>::empty());
        assert(parse_entries(text) =~= entries);
    } else {
        lemma_join_ends(entries);
        assert(trim_start(j) == j);
        assert(trim_end(j) == j);
        lemma_lines_of_join(entries);
        lemma_non_empty_all(entries);
    }
}

/// Lemma: a stored entry starts and ends with a non-whitespace character.
proof fn lemma_storable_ends(e: Seq<char>)
    requires
        storable(e),
    ensures
        !is_whitespace(e[0]),
        !is_whitespace(e.last()),
{
    crate::text::lemma_trim_shapes(e);
    crate::text::lemma_trim_shapes(trim_start(e));
    if is_whitespace(e[0]) {
        crate::text::lemma_trim_shapes(e.drop_first());
        assert(trim_start(e).len() < e.len());
    }
    if is_whitespace(e.last()) {
        let t = trim_start(e);
        if t.len() > 0 {
            assert(t.last() == e.last());
            crate::text::lemma_trim_shapes(t.drop_last());
            assert(trim_end(t).len() < e.len());
        }
    }
}

/// Lemma: a joined text of stored entries starts with the first entry's
/// first character and ends with the last entry's last character.
proof fn lemma_join_ends(entries: Seq<Seq<char>>)
    requires
        entries.len() > 0,
        forall|i: int| 0 <= i < entries.len() ==> storable(#[trigger] entries[i]),
    ensures
        join_lines(entries).len() > 0,
        join_lines(entries)[0] == entries[0][0],
        join_lines(entries).last() == entries.last().last(),
        !is_whitespace(join_lines(entries)[0]),
        !is_whitespace(join_lines(entries).last()),
    decreases entries.len(),
{
    assert(storable(entries[0]));
    assert(storable(entries.last()));
    lemma_storable_ends(entries[0]);
    lemma_storable_ends(entries.last());
    if entries.len() > 1 {
        let front = entries.drop_last();
        assert forall|i: int| 0 <= i < front.len() implies storable(#[trigger] front[i]) by {
            assert(front[i] == entries[i]);
        }
        lemma_join_ends(front);
    }
}

/// Lemma: a text without newlines continues the current line.
proof fn lemma_lines_continue(x: Seq<char>, rest: Seq<char>, cur: Seq<char>)
    requires
        !has_char(x, '\n'),
    ensures
        lines_from(x + rest, cur) == lines_from(rest, cur + x),
    decreases x.len(),
{
    if x.len() == 0 {
        assert(x + rest =~= rest);
        assert(cur + x =~= cur);
    } else {
        assert((x + rest)[0] == x[0]);
        assert((x + rest).drop_first() =~= x.drop_first() + rest);
        assert(cur.push(x[0]) + x.drop_first() =~= cur + x);
        assert forall|i: int| 0 <= i < x.drop_first().len() implies x.drop_first()[i] != '\n' by {
            assert(x.drop_first()[i] == x[i + 1]);
        }
        lemma_lines_continue(x.drop_first(), rest, cur.push(x[0]));
    }
}

/// Lemma: joining at least two entries puts the first one, a newline, and
/// the rest joined.
proof fn lemma_join_first(ss: Seq<Seq<char>>)
    requires
        ss.len() >= 2,
    ensures
        join_lines(ss) == ss[0] + seq!['\n'] + join_lines(ss.drop_first()),
    decreases ss.len(),
{
    if ss.len() == 2 {
        assert(ss.drop_last().len() == 1);
        assert(join_lines(ss.drop_last()) == ss.drop_last()[0]);
        assert(ss.drop_first().len() == 1);
        assert(join_lines(ss.drop_first()) == ss.drop_first()[0]);
        assert(join_lines(ss) == join_lines(ss.drop_last()) + seq!['\n'] + ss.last());
    } else {
        assert(join_lines(ss) == join_lines(ss.drop_last()) + seq!['\n'] + ss.last());
        lemma_join_first(ss.drop_last());
        assert(ss.drop_last().drop_first() =~= ss.drop_first().drop_last());
        assert(join_lines(ss.drop_first()) == join_lines(ss.drop_first().drop_last()) + seq!['\n']
            + ss.last());
        assert(ss.drop_last()[0] == ss[0]);
        assert(join_lines(ss) =~= ss[0] + seq!['\n'] + join_lines(ss.drop_first()));
    }
}

/// Lemma: the lines of joined stored entries are the entries.
proof fn lemma_lines_of_join(entries: Seq<Seq<char>>)
    requires
        entries.len() > 0,
        forall|i: int| 0 <= i < entries.len() ==> storable(#[trigger] entries[i]),
    ensures
        lines_from(join_lines(entries), Seq::empty()) == entries,
    decreases entries.len(),
{
    let e = entries[0];
    assert(storable(e));
    lemma_storable_ends(e);
    assert(Seq::<char>::empty() + e =~= e);
    if entries.len() == 1 {
        lemma_lines_continue(e, Seq::empty(), Seq::empty());
        assert(e + Seq::<char>::empty() =~= e);
        assert(lines_from(Seq::<char>::empty(), e) == seq![e]);
        assert(seq![e] =~= entries);
    } else {
        lemma_join_first(entries);
        let rest = entries.drop_first();
        assert forall|i: int| 0 <= i < rest.len() implies storable(#[trigger] rest[i]) by {
            assert(rest[i] == entries[i + 1]);
        }
        lemma_lines_of_join(rest);
        let tail = seq!['\n'] + join_lines(rest);
        assert(e + seq!['\n'] + join_lines(rest) =~= e + tail);
        lemma_lines_continue(e, tail, Seq::empty());
        assert(tail.drop_first() =~= join_lines(rest));
        assert(strip_cr(e) == e);
        assert(seq![e] + rest =~= entries);
    }
}

/// Lemma: dropping empty lines keeps lines that are all non-empty.
proof fn lemma_non_empty_all(ls: Seq<Seq<char>>)
    requires
        forall|i: int| 0 <= i < ls.len() ==> storable(#[trigger] ls[i]),
    ensures
        non_empty(ls) == ls,
    decreases ls.len(),
{
    if ls.len() > 0 {
        assert(storable(ls[0]));
        let rest = ls.drop_first();
        assert forall|i: int| 0 <= i < rest.len() implies storable(#[trigger] rest[i]) by {
            assert(rest[i] == ls[i + 1]);
        }
        lemma_non_empty_all(rest);
        assert(seq![ls[0]] + rest =~= ls);
    }
}

/// `s` as a string, without one trailing `'\r'`.
fn strip_cr_string(s: &[char]) -> (r: String)
    ensures
        r@ == strip_cr(s@),
{
    if s.len() > 0 && s[s.len() - 1] == '\r' {
        crate::text::string_of_range(s, 0, s.len() - 1)
    } else {
        assert(s@.subrange(0, s.len() as int) =~= s@);
        crate::text::string_of_range(s, 0, s.len())
    }
}

/// The first position of `x` is the only position satisfying [`is_first_pos`].
pub proof fn lemma_first_pos_unique<A>(s: Seq<A>, x: A, i: int)
    requires
        is_first_pos(s, x, i),
    ensures
        s.contains(x),
        first_pos(s, x) == i,
{
    let k = first_pos(s, x);
    assert(is_first_pos(s, x, k));
    if k < i {
        assert(s[k] != x);
    } else if k > i {
        assert(s[i] != x);
    }
}

} // verus!
