//! The Lofi Girl file server: its year directories and the tracks in them.
use vstd::prelude::*;

use crate::bandcamp::dom::{opt_views, select_attr, spec_select_attr};
use crate::bandcamp::page::present;
use crate::text::number::{parse_u64, parsed_u64};
use crate::text::{chars_of, ends_with, ends_with_chars, push_str, string_from, string_of_range};

verus! {

/// The year that a directory entry names: the entry without one trailing
/// `/`, read as a number that fits in 32 bits.
pub open spec fn entry_year(entry: Seq<char>) -> Option<u32> {
    if entry.len() > 0 && entry.last() == '/' {
        match parsed_u64(entry.drop_last()) {
            Some(v) => if v <= u32::MAX {
                Some(v as u32)
            } else {
                None
            },
            None => None,
        }
    } else {
        None
    }
}

/// The years that the entries name, in the entries' order.
pub open spec fn entry_years(entries: Seq<Seq<char>>) -> Seq<u32>
    decreases entries.len(),
{
    if entries.len() == 0 {
        Seq::empty()
    } else {
        match entry_year(entries.last()) {
            Some(y) => entry_years(entries.drop_last()).push(y),
            None => entry_years(entries.drop_last()),
        }
    }
}

/// The paths of the MP3 files among the entries of the directory `dir`.
pub open spec fn mp3_paths(dir: Seq<char>, entries: Seq<Seq<char>>) -> Seq<Seq<char>>
    decreases entries.len(),
{
    if entries.len() == 0 {
        Seq::empty()
    } else if ends_with(entries.last(), ".mp3"@) {
        mp3_paths(dir, entries.drop_last()).push(dir + entries.last())
    } else {
        mp3_paths(dir, entries.drop_last())
    }
}

/// The selector of the links of a directory page of the file server.
pub open spec fn listing_selector() -> Seq<char> {
    "html > body > pre > a"@
}

/// The `href` of each link of a directory page after the first five (which
/// lead out of the directory).
pub open spec fn listing_hrefs(page: Seq<char>) -> Seq<Option<Seq<char>>> {
    let h = spec_select_attr(page, listing_selector(), "href"@);
    if h.len() > 5 {
        h.subrange(5, h.len() as int)
    } else {
        Seq::empty()
    }
}

/// The entries of a directory page: the `href` of each link after the first
/// five, in order. `None` when one of those links has no `href`.
pub fn listing_links(page: &str) -> (r: Option<Vec<String>>)
    ensures
        r is None <==> exists|i: int|
            0 <= i < listing_hrefs(page@).len() && #[trigger] listing_hrefs(page@)[i] is None,
        r matches Some(v) ==> v@.map_values(|s: String| s@) == present(listing_hrefs(page@)),
{
    let hrefs = select_attr(page, "html > body > pre > a", "href");
    let ghost hv = listing_hrefs(page@);
    let ghost all = spec_select_attr(page@, listing_selector(), "href"@);
    let mut out: Vec<String> = Vec::new();
    if hrefs.len() <= 5 {
        assert(out@.map_values(|s: String| s@) =~= present(hv));
        return Some(out);
    }
    let mut i: usize = 5;
    assert(hv.subrange(0, 0) =~= Seq::<Option<Seq<char>>>::empty());
    while i < hrefs.len()
        invariant
            5 <= i <= hrefs@.len(),
            opt_views(hrefs@) == all,
            hv == all.subrange(5, all.len() as int),
            hv == listing_hrefs(page@),
            forall|j: int| 0 <= j < i - 5 ==> hv[j] is Some,
            out@.map_values(|s: String| s@) == present(hv.subrange(0, i - 5)),
        decreases hrefs.len() - i,
    {
        let ghost before = out@.map_values(|s: String| s@);
        let ghost sub = hv.subrange(0, i + 1 - 5);
        assert(sub.drop_last() =~= hv.subrange(0, i - 5));
        assert(sub.last() == hv[i - 5]);
        assert(all.len() == hrefs@.len());
        assert(hv.len() == all.len() - 5);
        assert(hv[i - 5] == all[i as int]);
        assert(all[i as int] == crate::tracks::list::opt_view(hrefs@[i as int]));
        match &hrefs[i] {
            Some(h) => {
                out.push(h.clone());
                assert(out@.map_values(|s: String| s@) =~= before.push(h@));
            },
            None => {
                assert(listing_hrefs(page@)[i - 5] is None);
                return None;
            },
        }
        i = i + 1;
    }
    assert(hv.subrange(0, hv.len() as int) =~= hv);
    Some(out)
}

/// The year that a directory entry names, if any.
pub fn year_of(entry: &str) -> (r: Option<u32>)
    ensures
        r == entry_year(entry@),
{
    let cs = chars_of(entry);
    if cs.len() == 0 || cs[cs.len() - 1] != '/' {
        return None;
    }
    let stem = string_of_range(cs.as_slice(), 0, cs.len() - 1);
    assert(stem@ =~= entry@.drop_last());
    match parse_u64(stem.as_str()) {
        Some(v) => if v <= 0xffff_ffff {
            Some(v as u32)
        } else {
            None
        },
        None => None,
    }
}

/// The years that the directory entries name, in order.
pub fn years(entries: &[String]) -> (r: Vec<u32>)
    ensures
        r@ == entry_years(entries@.map_values(|s: String| s@)),
{
    let ghost es = entries@.map_values(|s: String| s@);
    let mut out: Vec<u32> = Vec::new();
    let mut i: usize = 0;
    while i < entries.len()
        invariant
            i <= entries.len(),
            es == entries@.map_values(|s: String| s@),
            out@ == entry_years(es.subrange(0, i as int)),
        decreases entries.len() - i,
    {
        let ghost p = es.subrange(0, i + 1);
        assert(p.drop_last() =~= es.subrange(0, i as int));
        assert(p.last() == entries@[i as int]@);
        match year_of(entries[i].as_str()) {
            Some(y) => out.push(y),
            None => {},
        }
        i = i + 1;
    }
    assert(es.subrange(0, es.len() as int) =~= es);
    out
}

/// The paths of the MP3 files among the entries of the directory `dir`:
/// the directory's path followed by the entry.
pub fn mp3_files(dir: &str, entries: &[String]) -> (r: Vec<String>)
    ensures
        r@.map_values(|s: String| s@) == mp3_paths(dir@, entries@.map_values(|s: String| s@)),
{
    let ghost es = entries@.map_values(|s: String| s@);
    let mp3 = chars_of(".mp3");
    let mut out: Vec<String> = Vec::new();
    let mut i: usize = 0;
    while i < entries.len()
        invariant
            i <= entries.len(),
            mp3@ == ".mp3"@,
            es == entries@.map_values(|s: String| s@),
            out@.map_values(|s: String| s@) == mp3_paths(dir@, es.subrange(0, i as int)),
        decreases entries.len() - i,
    {
        let ghost p = es.subrange(0, i + 1);
        assert(p.drop_last() =~= es.subrange(0, i as int));
        assert(p.last() == entries@[i as int]@);
        let e = chars_of(entries[i].as_str());
        if ends_with_chars(e.as_slice(), mp3.as_slice()) {
            let mut v = chars_of(dir);
            push_str(&mut v, entries[i].as_str());
            let ghost before = out@.map_values(|s: String| s@);
            out.push(string_from(v.as_slice()));
            assert(out@.map_values(|s: String| s@) =~= before.push(dir@ + entries@[i as int]@));
        }
        i = i + 1;
    }
    assert(es.subrange(0, es.len() as int) =~= es);
    out
}

} // verus!
