//! The sources that track lists are scraped from, and how their pages are
//! fetched and cached.
use vstd::prelude::*;

use crate::text::{chars_of, push_str, string_from, string_of_range};

pub mod chillhop;
pub mod lofigirl;

verus! {

/// A source that can be scraped.
#[derive(Clone, Copy, PartialEq, Eq, Structural, Debug)]
pub enum Source {
    /// The Lofi Girl file server.
    Lofigirl,
    /// The Internet Archive's copy of it.
    Archive,
    /// Chillhop's releases.
    Chillhop,
}

impl Source {
    /// The name of the source's cache directory.
    pub open spec fn cache_dir_spec(&self) -> Seq<char> {
        match self {
            Source::Lofigirl => "lofigirl"@,
            Source::Archive => "archive"@,
            Source::Chillhop => "chillhop"@,
        }
    }

    /// The root URL of the source.
    pub open spec fn url_spec(&self) -> Seq<char> {
        match self {
            Source::Chillhop => "https://chillhop.com"@,
            Source::Archive => "https://ia601004.us.archive.org/31/items/lofigirl"@,
            Source::Lofigirl => "https://lofigirl.com/wp-content/uploads"@,
        }
    }

    /// Gets the cache directory name, for example, `chillhop`.
    pub fn cache_dir(&self) -> (r: &'static str)
        ensures
            r@ == self.cache_dir_spec(),
    {
        match self {
            Source::Lofigirl => "lofigirl",
            Source::Archive => "archive",
            Source::Chillhop => "chillhop",
        }
    }

    /// Gets the full root URL of the source.
    pub fn url(&self) -> (r: &'static str)
        ensures
            r@ == self.url_spec(),
    {
        match self {
            Source::Chillhop => "https://chillhop.com",
            Source::Archive => "https://ia601004.us.archive.org/31/items/lofigirl",
            Source::Lofigirl => "https://lofigirl.com/wp-content/uploads",
        }
    }
}

/// `s` without the `'/'` at either end (`str::trim_matches('/')`).
pub open spec fn trim_slashes(s: Seq<char>) -> Seq<char>
    decreases s.len(),
{
    if s.len() > 0 && s[0] == '/' {
        trim_slashes(s.drop_first())
    } else if s.len() > 0 && s.last() == '/' {
        trim_slashes(s.drop_last())
    } else {
        s
    }
}

/// The file that caches the page at `path` of a source.
pub open spec fn cache_file(source: Source, path: Seq<char>) -> Seq<char> {
    "./cache/"@ + source.cache_dir_spec() + "/"@ + trim_slashes(path) + ".html"@
}

/// The URL of the page at `path` of a source.
pub open spec fn page_url(source: Source, path: Seq<char>) -> Seq<char> {
    source.url_spec() + "/"@ + trim_slashes(path)
}

/// `str::trim_matches('/')`, collected.
pub fn trim_slashes_str(s: &str) -> (r: String)
    ensures
        r@ == trim_slashes(s@),
{
    let cs = chars_of(s);
    let mut a: usize = 0;
    let mut b: usize = cs.len();
    assert(cs@.subrange(0, cs.len() as int) =~= cs@);
    while a < b && (cs[a] == '/' || cs[b - 1] == '/')
        invariant
            a <= b <= cs.len(),
            trim_slashes(s@) == trim_slashes(cs@.subrange(a as int, b as int)),
            cs@ == s@,
        decreases b - a,
    {
        let ghost t = cs@.subrange(a as int, b as int);
        if cs[a] == '/' {
            assert(t.drop_first() =~= cs@.subrange(a + 1, b as int));
            a = a + 1;
        } else {
            assert(t.drop_last() =~= cs@.subrange(a as int, b - 1));
            b = b - 1;
        }
    }
    string_of_range(cs.as_slice(), a, b)
}

/// The cache file of the page at `path`.
pub fn cache_path(source: Source, path: &str) -> (r: String)
    ensures
        r@ == cache_file(source, path@),
{
    let mut v = chars_of("./cache/");
    push_str(&mut v, source.cache_dir());
    push_str(&mut v, "/");
    let t = trim_slashes_str(path);
    push_str(&mut v, t.as_str());
    push_str(&mut v, ".html");
    string_from(v.as_slice())
}

/// The URL of the page at `path`.
pub fn page_address(source: Source, path: &str) -> (r: String)
    ensures
        r@ == page_url(source, path@),
{
    let mut v = chars_of(source.url());
    push_str(&mut v, "/");
    let t = trim_slashes_str(path);
    push_str(&mut v, t.as_str());
    string_from(v.as_slice())
}

/// How a page request is answered, by its HTTP status.
#[derive(PartialEq, Eq, Structural, Debug, Clone, Copy)]
pub enum Answer {
    /// 429: the source is limiting requests; nothing is cached.
    RateLimited,
    /// Neither a success, a redirection nor 404; nothing is cached.
    Failed(u16),
    /// A redirection: the page is cached, and the request fails.
    Redirect,
    /// 404: the page is cached, and the request fails.
    NotFound,
    /// A success: the page is cached and returned.
    Success,
}

/// The answer for an HTTP status.
pub open spec fn answer_for(status: u16) -> Answer {
    if status == 429 {
        Answer::RateLimited
    } else if status != 404 && !(200 <= status <= 299) && !(300 <= status <= 399) {
        Answer::Failed(status)
    } else if 300 <= status <= 399 {
        Answer::Redirect
    } else if status == 404 {
        Answer::NotFound
    } else {
        Answer::Success
    }
}

/// Classifies the answer to a page request by its status.
pub fn answer(status: u16) -> (r: Answer)
    ensures
        r == answer_for(status),
{
    if status == 429 {
        Answer::RateLimited
    } else if status != 404 && !(200 <= status && status <= 299) && !(300 <= status && status
        <= 399) {
        Answer::Failed(status)
    } else if 300 <= status && status <= 399 {
        Answer::Redirect
    } else if status == 404 {
        Answer::NotFound
    } else {
        Answer::Success
    }
}

/// Whether the page of an answer is written to the cache.
pub fn is_cached(a: Answer) -> (r: bool)
    ensures
        r == (a is Redirect || a is NotFound || a is Success),
{
    match a {
        Answer::Redirect | Answer::NotFound | Answer::Success => true,
        _ => false,
    }
}

} // verus!
