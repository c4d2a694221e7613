//! Searching, splitting, joining and replacing parts of strings, with the
//! semantics of the `str` methods of the same names.
use vstd::prelude::*;

use super::{chars_of, contains, ends_with, lines, lines_from, push_chars, starts_with,
    string_from, string_of_range, strip_cr, views,
};

verus! {

/// `p` occurs in `s` at position `i`.
pub open spec fn is_match_at(s: Seq<char>, p: Seq<char>, i: int) -> bool {
    0 <= i && i + p.len() <= s.len() && s.subrange(i, i + p.len()) == p
}

/// `i` is the position of the first occurrence of `p` in `s`.
pub open spec fn is_first_match(s: Seq<char>, p: Seq<char>, i: int) -> bool {
    is_match_at(s, p, i) && forall|j: int| 0 <= j < i ==> !is_match_at(s, p, j)
}

/// The position of the first occurrence of `p` in `s` (`str::find`),
/// meaningful when `contains(s, p)`.
pub open spec fn first_match(s: Seq<char>, p: Seq<char>) -> int {
    choose|i: int| is_first_match(s, p, i)
}

/// `str::split_once` with a string pattern: the parts before and after the
/// first occurrence of `p`.
pub open spec fn split_once_at(s: Seq<char>, p: Seq<char>) -> Option<(Seq<char>, Seq<char>)> {
    if contains(s, p) {
        let i = first_match(s, p);
        Some((s.subrange(0, i), s.subrange(i + p.len(), s.len() as int)))
    } else {
        None
    }
}

/// `str::trim_end_matches` with a string pattern: `s` without all the
/// copies of `p` at its end.
pub open spec fn trim_end_matches(s: Seq<char>, p: Seq<char>) -> Seq<char>
    decreases s.len(),
{
    if p.len() > 0 && ends_with(s, p) {
        trim_end_matches(s.subrange(0, s.len() - p.len()), p)
    } else {
        s
    }
}

/// `str::replace` with a non-empty pattern: each occurrence of `from`,
/// taken from left to right without overlap, replaced by `to`.
pub open spec fn replace_all(s: Seq<char>, from: Seq<char>, to: Seq<char>) -> Seq<char>
    decreases s.len(),
{
    if s.len() == 0 || from.len() == 0 {
        s
    } else if starts_with(s, from) {
        to + replace_all(s.subrange(from.len() as int, s.len() as int), from, to)
    } else {
        seq![s[0]] + replace_all(s.drop_first(), from, to)
    }
}

/// The parts joined with `sep` between each two (`[String]::join`).
pub open spec fn join(parts: Seq<Seq<char>>, sep: Seq<char>) -> Seq<char>
    decreases parts.len(),
{
    if parts.len() == 0 {
        Seq::empty()
    } else if parts.len() == 1 {
        parts[0]
    } else {
        join(parts.drop_last(), sep) + sep + parts.last()
    }
}

/// Lemma: the first occurrence is the only position satisfying
/// [`is_first_match`].
pub proof fn lemma_first_match_unique(s: Seq<char>, p: Seq<char>, i: int)
    requires
        is_first_match(s, p, i),
    ensures
        contains(s, p),
        first_match(s, p) == i,
{
    assert(s.subrange(i, i + p.len()) == p);
    let k = first_match(s, p);
    assert(is_first_match(s, p, k));
    if k < i {
        assert(!is_match_at(s, p, k));
    } else if k > i {
        assert(!is_match_at(s, p, i));
    }
}

/// The position of the first occurrence of `p` in `s`, if any.
pub fn find_chars(s: &[char], p: &[char]) -> (r: Option<usize>)
    ensures
        r is None <==> !contains(s@, p@),
        r matches Some(i) ==> is_first_match(s@, p@, i as int) && first_match(s@, p@) == i,
{
    if p.len() > s.len() {
        assert forall|i: int| 0 <= i && i + p@.len() <= s@.len() implies #[trigger] s@.subrange(
            i,
            i + p@.len(),
        ) != p@ by {}
        return None;
    }
    let last = s.len() - p.len();
    let mut i: usize = 0;
    loop
        invariant
            p.len() <= s.len(),
            last == s.len() - p.len(),
            i <= last,
            forall|k: int| 0 <= k < i ==> !is_match_at(s@, p@, k),
        ensures
            forall|k: int| 0 <= k <= last ==> !is_match_at(s@, p@, k),
        decreases last - i,
    {
        if super::matches_at(s, p, i) {
            proof {
                lemma_first_match_unique(s@, p@, i as int);
            }
            return Some(i);
        }
        if i == last {
            break;
        }
        i = i + 1;
    }
    assert forall|k: int| 0 <= k && k + p@.len() <= s@.len() implies #[trigger] s@.subrange(
        k,
        k + p@.len(),
    ) != p@ by {
        assert(!is_match_at(s@, p@, k));
    }
    None
}

/// `str::split_once` with a string pattern.
pub fn split_once_str(s: &str, p: &str) -> (r: Option<(String, String)>)
    ensures
        match r {
            Some((a, b)) => split_once_at(s@, p@) == Some((a@, b@)),
            None => split_once_at(s@, p@) is None,
        },
{
    let cs = chars_of(s);
    let ps = chars_of(p);
    match find_chars(cs.as_slice(), ps.as_slice()) {
        Some(i) => {
            assert(is_match_at(cs@, ps@, i as int));
            assert(i + ps@.len() <= cs@.len());
            assert(i + ps.len() <= cs.len());
            let a = string_of_range(cs.as_slice(), 0, i);
            let b = string_of_range(cs.as_slice(), i + ps.len(), cs.len());
            Some((a, b))
        },
        None => None,
    }
}

/// `str::trim_end_matches` with a string pattern.
pub fn trim_end_matches_str(s: &str, p: &str) -> (r: String)
    ensures
        r@ == trim_end_matches(s@, p@),
{
    let cs = chars_of(s);
    let ps = chars_of(p);
    let mut end: usize = cs.len();
    assert(cs@.subrange(0, end as int) =~= cs@);
    while ps.len() > 0 && ps.len() <= end && super::matches_at(cs.as_slice(), ps.as_slice(), end - ps.len())
        invariant
            end <= cs.len(),
            ps@ == p@,
            trim_end_matches(cs@, p@) == trim_end_matches(cs@.subrange(0, end as int), p@),
        decreases end,
    {
        let ghost t = cs@.subrange(0, end as int);
        assert(t.subrange(t.len() - ps@.len(), t.len() as int) =~= cs@.subrange(
            end - ps.len(),
            end as int,
        ));
        assert(t.subrange(0, t.len() - ps@.len()) =~= cs@.subrange(0, end - ps.len()));
        end = end - ps.len();
    }
    let ghost t = cs@.subrange(0, end as int);
    if ps.len() > 0 && ps.len() <= end {
        assert(t.subrange(t.len() - ps@.len(), t.len() as int) =~= cs@.subrange(
            end - ps.len(),
            end as int,
        ));
    }
    string_of_range(cs.as_slice(), 0, end)
}

/// `str::replace` with a non-empty pattern.
pub fn replace_str(s: &str, from: &str, to: &str) -> (r: String)
    requires
        from@.len() > 0,
    ensures
        r@ == replace_all(s@, from@, to@),
{
    let cs = chars_of(s);
    let fs = chars_of(from);
    let ts = chars_of(to);
    let mut out: Vec<char> = Vec::new();
    let mut i: usize = 0;
    assert(cs@.subrange(0, cs.len() as int) =~= cs@);
    while i < cs.len()
        invariant
            i <= cs.len(),
            fs@ == from@,
            ts@ == to@,
            fs@.len() > 0,
            out@ + replace_all(cs@.subrange(i as int, cs.len() as int), from@, to@)
                == replace_all(cs@, from@, to@),
        decreases cs.len() - i,
    {
        let ghost rest = cs@.subrange(i as int, cs.len() as int);
        if fs.len() <= cs.len() - i && super::matches_at(cs.as_slice(), fs.as_slice(), i) {
            assert(rest.subrange(0, fs@.len() as int) =~= cs@.subrange(i as int, i + fs.len()));
            assert(rest.subrange(fs@.len() as int, rest.len() as int) =~= cs@.subrange(
                i + fs.len(),
                cs.len() as int,
            ));
            let ghost before = out@;
            push_chars(&mut out, ts.as_slice());
            assert(out@ + replace_all(cs@.subrange(i + fs.len(), cs.len() as int), from@, to@)
                =~= before + replace_all(rest, from@, to@));
            i = i + fs.len();
        } else {
            if fs.len() <= cs.len() - i {
                assert(rest.subrange(0, fs@.len() as int) =~= cs@.subrange(i as int, i + fs.len()));
            }
            assert(rest.drop_first() =~= cs@.subrange(i + 1, cs.len() as int));
            let ghost before = out@;
            out.push(cs[i]);
            assert(out@ + replace_all(rest.drop_first(), from@, to@) =~= before + replace_all(
                rest,
                from@,
                to@,
            ));
            i = i + 1;
        }
    }
    assert(cs@.subrange(cs.len() as int, cs.len() as int) =~= Seq::<char>::empty());
    assert(out@ + Seq::<char>::empty() =~= out@);
    string_from(out.as_slice())
}

/// The lines of `s` (`str::lines`), collected.
pub fn split_lines(s: &str) -> (r: Vec<String>)
    ensures
        views(r@) == lines(s@),
{
    let t = chars_of(s);
    let mut out: Vec<String> = Vec::new();
    let mut cur: Vec<char> = Vec::new();
    let mut i: usize = 0;
    assert(t@.subrange(0, t.len() as int) =~= t@);
    assert(views(out@) + lines_from(t@, cur@) =~= lines(s@));
    while i < t.len()
        invariant
            i <= t.len(),
            t@ == s@,
            views(out@) + lines_from(t@.subrange(i as int, t.len() as int), cur@) == lines(s@),
        decreases t.len() - i,
    {
        let ghost rest = t@.subrange(i as int, t.len() as int);
        assert(rest.drop_first() =~= t@.subrange(i + 1, t.len() as int));
        assert(rest[0] == t@[i as int]);
        if t[i] == '\n' {
            let ghost before = views(out@);
            let ghost old_cur = cur@;
            let n = if cur.len() > 0 && cur[cur.len() - 1] == '\r' {
                cur.len() - 1
            } else {
                cur.len()
            };
            let line = string_of_range(cur.as_slice(), 0, n);
            assert(line@ == strip_cr(old_cur));
            out.push(line);
            assert(views(out@) =~= before.push(strip_cr(old_cur)));
            cur = Vec::new();
            assert(views(out@) + lines_from(rest.drop_first(), cur@) =~= before + (seq![
                strip_cr(old_cur),
            ] + lines_from(rest.drop_first(), Seq::empty())));
        } else {
            cur.push(t[i]);
        }
        i = i + 1;
    }
    assert(t@.subrange(t.len() as int, t.len() as int) =~= Seq::<char>::empty());
    if cur.len() > 0 {
        let ghost before = views(out@);
        let line = string_from(cur.as_slice());
        out.push(line);
        assert(views(out@) =~= before + seq![cur@]);
    } else {
        assert(views(out@) + Seq::<Seq<char>>::empty() =~= views(out@));
    }
    out
}

/// The strings of `parts` joined with `sep` between each two.
pub fn join_str(parts: &[String], sep: &str) -> (r: String)
    ensures
        r@ == join(views(parts@), sep@),
{
    let mut out: Vec<char> = Vec::new();
    let mut i: usize = 0;
    while i < parts.len()
        invariant
            i <= parts.len(),
            out@ == join(views(parts@.subrange(0, i as int)), sep@),
        decreases parts.len() - i,
    {
        let ghost prev = views(parts@.subrange(0, i as int));
        let ghost next = views(parts@.subrange(0, i + 1));
        assert(next.drop_last() =~= prev);
        assert(next.last() == parts@[i as int]@);
        if i > 0 {
            super::push_str(&mut out, sep);
        }
        super::push_str(&mut out, parts[i].as_str());
        if i == 0 {
            assert(next =~= seq![parts@[0]@]);
            assert(out@ =~= join(next, sep@));
        }
        i = i + 1;
    }
    assert(parts@.subrange(0, parts@.len() as int) =~= parts@);
    string_from(out.as_slice())
}

} // verus!
