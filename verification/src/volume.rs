//! The volume that persists between sessions, as a whole percentage in
//! `volume.txt`.
use vstd::prelude::*;

use crate::text::number::{lemma_decimal_parses, lemma_decimal_value, parse_u64, parsed_u64};
use crate::text::{
    chars_of, decimal, ends_with, push_decimal, string_from, string_of_range, trim, trim_end,
    trim_start, trim_string,
};

verus! {

/// Why the persistent volume could not be read or written.
#[derive(Debug)]
pub enum Error {
    /// The configuration directory could not be found.
    Directory,
    /// Reading or writing the file failed.
    Io(std::io::Error),
    /// The file does not hold a whole percentage.
    Parse,
}

/// The volume as stored: a whole percentage.
#[derive(Clone, Copy)]
pub struct PersistentVolume {
    /// The volume, as a percentage.
    pub inner: u16,
}

/// The number that the file's text holds: the text trimmed, without one
/// trailing `%`.
pub open spec fn stored_number(contents: Seq<char>) -> Seq<char> {
    let t = trim(contents);
    if ends_with(t, seq!['%']) {
        t.drop_last()
    } else {
        t
    }
}

/// The percentage that the file's text holds, if it is a number that fits
/// in 16 bits.
pub open spec fn stored_volume(contents: Seq<char>) -> Option<u16> {
    match parsed_u64(stored_number(contents)) {
        Some(v) => if v <= u16::MAX {
            Some(v as u16)
        } else {
            None
        },
        None => None,
    }
}

impl PersistentVolume {
    /// The volume when no file holds one: full volume.
    pub fn full() -> (r: Self)
        ensures
            r.inner == 100,
    {
        PersistentVolume { inner: 100 }
    }

    /// Reads the volume from the text of `volume.txt`: the text is
    /// trimmed, a trailing `%` is dropped, and the rest must be a whole
    /// number that fits in 16 bits.
    pub fn from_contents(contents: &str) -> (r: Result<Self, Error>)
        ensures
            stored_volume(contents@) is None <==> r is Err,
            r matches Ok(v) ==> stored_volume(contents@) == Some(v.inner),
            r matches Err(e) ==> e is Parse,
    {
        let trimmed = trim_string(contents);
        let t = chars_of(trimmed.as_str());
        let number = if t.len() > 0 && t[t.len() - 1] == '%' {
            string_of_range(t.as_slice(), 0, t.len() - 1)
        } else {
            string_from(t.as_slice())
        };
        proof {
            if t@.len() > 0 {
                assert(t@.subrange(t@.len() - 1, t@.len() as int) =~= seq![t@.last()]);
                if t@.last() != '%' {
                    assert(seq![t@.last()][0] != seq!['%'][0]);
                }
            }
            assert(t@.subrange(0, t@.len() - 1) =~= t@.drop_last());
        }
        assert(number@ == stored_number(contents@));
        match parse_u64(number.as_str()) {
            Some(v) => if v <= 0xffff {
                Ok(PersistentVolume { inner: v as u16 })
            } else {
                Err(Error::Parse)
            },
            None => Err(Error::Parse),
        }
    }

    /// The text that `volume.txt` is written with for a percentage: the
    /// number in decimal.
    pub fn text(percentage: u16) -> (r: String)
        ensures
            r@ == decimal(percentage as nat),
    {
        let mut v: Vec<char> = Vec::new();
        push_decimal(&mut v, percentage as u64);
        assert(v@ =~= decimal(percentage as nat));
        string_from(v.as_slice())
    }
}

/// A saved volume is read back unchanged: the text written for a
/// percentage holds that percentage.
pub proof fn law_volume_roundtrip(percentage: u16)
    ensures
        stored_volume(decimal(percentage as nat)) == Some(percentage),
{
    let d = decimal(percentage as nat);
    lemma_decimal_value(percentage as nat);
    lemma_decimal_parses(percentage as u64);
    assert('0' <= d[0] <= '9');
    assert('0' <= d[d.len() - 1] <= '9');
    assert(trim_start(d) == d);
    assert(trim_end(d) == d);
    assert(trim(d) == d);
    if ends_with(d, seq!['%']) {
        assert(d.subrange(d.len() - 1, d.len() as int)[0] == d[d.len() - 1]);
        assert(seq!['%'][0] == '%');
    }
    assert(stored_number(d) == d);
}

} // verus!
