//! Bookmarks kept as the lines of a text file, toggled one entry at a time.
use vstd::prelude::*;

use crate::text::parts::{join, join_str, split_lines};
use crate::text::{chars_of, lines, push_str, string_from, views};

verus! {

/// The bookmark entry of a track: its path, then `!` and its custom name
/// when it has one.
pub open spec fn entry_text(path: Seq<char>, custom: Option<Seq<char>>) -> Seq<char> {
    match custom {
        Some(c) => path + seq!['!'] + c,
        None => path,
    }
}

/// The lines that differ from `entry`, in order.
pub open spec fn other_lines(ls: Seq<Seq<char>>, entry: Seq<char>) -> Seq<Seq<char>>
    decreases ls.len(),
{
    if ls.len() == 0 {
        Seq::empty()
    } else if ls.last() == entry {
        other_lines(ls.drop_last(), entry)
    } else {
        other_lines(ls.drop_last(), entry).push(ls.last())
    }
}

/// The bookmark lines after toggling `entry`: without it when it was there
/// (every copy goes), with it at the end otherwise.
pub open spec fn toggled_lines(ls: Seq<Seq<char>>, entry: Seq<char>) -> Seq<Seq<char>> {
    if ls.contains(entry) {
        other_lines(ls, entry)
    } else {
        ls.push(entry)
    }
}

/// The text of a bookmarks file holding the lines: a newline, the lines
/// joined by newlines, and a newline.
pub open spec fn file_text(ls: Seq<Seq<char>>) -> Seq<char> {
    seq!['\n'] + join(ls, seq!['\n']) + seq!['\n']
}

/// The bookmark entry of a track.
pub fn entry(path: &str, custom: Option<&str>) -> (r: String)
    ensures
        r@ == entry_text(
            path@,
            match custom {
                Some(c) => Some(c@),
                None => None,
            },
        ),
{
    let mut v = chars_of(path);
    match custom {
        Some(c) => {
            v.push('!');
            push_str(&mut v, c);
        },
        None => {},
    }
    string_from(v.as_slice())
}

/// Lemma: removing the entry leaves fewer lines exactly when it was there.
proof fn lemma_other_lines_len(ls: Seq<Seq<char>>, entry: Seq<char>)
    ensures
        other_lines(ls, entry).len() <= ls.len(),
        other_lines(ls, entry).len() == ls.len() <==> !ls.contains(entry),
        !ls.contains(entry) ==> other_lines(ls, entry) == ls,
        !other_lines(ls, entry).contains(entry),
    decreases ls.len(),
{
    if ls.len() > 0 {
        let init = ls.drop_last();
        lemma_other_lines_len(init, entry);
        assert(ls =~= init.push(ls.last()));
        if ls.contains(entry) && ls.last() != entry {
            let k = choose|k: int| 0 <= k < ls.len() && ls[k] == entry;
            assert(init[k] == entry);
        }
        if init.contains(entry) {
            let k = choose|k: int| 0 <= k < init.len() && init[k] == entry;
            assert(ls[k] == entry);
        }
        let rest = other_lines(init, entry);
        if ls.last() != entry && rest.push(ls.last()).contains(entry) {
            let k = choose|k: int| 0 <= k < rest.push(ls.last()).len() && rest.push(ls.last())[k]
                == entry;
            assert(rest[k] == entry);
        }
    }
}

/// Toggles the bookmark `entry` in the text of a bookmarks file: every
/// line equal to the entry is removed, or, when none is, the entry is added
/// as the last line. Returns the new text of the file and whether the entry
/// is now bookmarked.
pub fn toggle(text: &str, entry: &str) -> (r: (String, bool))
    ensures
        r.1 == !lines(text@).contains(entry@),
        r.0@ == file_text(toggled_lines(lines(text@), entry@)),
{
    let ls = split_lines(text);
    let ghost all = views(ls@);
    let mut kept: Vec<String> = Vec::new();
    let mut i: usize = 0;
    let ec = chars_of(entry);
    while i < ls.len()
        invariant
            i <= ls.len(),
            all == views(ls@),
            views(kept@) == other_lines(all.subrange(0, i as int), entry@),
        decreases ls.len() - i,
    {
        let ghost p = all.subrange(0, i + 1);
        assert(p.drop_last() =~= all.subrange(0, i as int));
        assert(p.last() == ls@[i as int]@);
        if !crate::bandcamp::discography::str_eq(ls[i].as_str(), entry) {
            let ghost before = views(kept@);
            kept.push(ls[i].clone());
            assert(views(kept@) =~= before.push(ls@[i as int]@));
        }
        i = i + 1;
    }
    assert(all.subrange(0, all.len() as int) =~= all);
    proof {
        lemma_other_lines_len(all, entry@);
    }
    let contains = kept.len() != ls.len();
    assert(views(kept@).len() == kept@.len());
    if !contains {
        let ghost before = views(kept@);
        kept.push(entry.to_owned());
        assert(views(kept@) =~= before.push(entry@));
    }
    let joined = join_str(kept.as_slice(), "\n");
    let mut v: Vec<char> = Vec::new();
    v.push('\n');
    push_str(&mut v, joined.as_str());
    v.push('\n');
    proof {
        reveal_strlit("\n");
        assert("\n"@ =~= seq!['\n']);
    }
    assert(v@ =~= file_text(toggled_lines(lines(text@), entry@)));
    (string_from(v.as_slice()), !contains)
}

/// Each toggle flips whether the entry is bookmarked, so two toggles
/// leave it as it was.
pub proof fn law_toggle_flips(ls: Seq<Seq<char>>, entry: Seq<char>)
    ensures
        toggled_lines(ls, entry).contains(entry) == !ls.contains(entry),
        toggled_lines(toggled_lines(ls, entry), entry).contains(entry) == ls.contains(entry),
{
    lemma_other_lines_len(ls, entry);
    let t = toggled_lines(ls, entry);
    if !ls.contains(entry) {
        assert(t[t.len() - 1] == entry);
        lemma_other_lines_len(t, entry);
    } else {
        lemma_other_lines_len(t, entry);
        assert(t.push(entry)[t.len() as int] == entry);
    }
}

} // verus!
