//! The outside text machinery that page parsing relies on: regular
//! expressions, lowercasing, and HTML entity decoding. Each is named, not
//! described: what it computes takes pages to state.
use vstd::prelude::*;

use crate::text::has_char;
use crate::tracks::list::opt_view;

verus! {

/// The capture groups of the first match of `pattern` in `text`, group 0
/// being the whole match; `None` when the pattern does not compile (with
/// case-insensitive matching when `ci`) or does not match.
pub uninterp spec fn spec_regex_captures(pattern: Seq<char>, text: Seq<char>, ci: bool) -> Option<
    Seq<Option<Seq<char>>>,
>;

/// `text` with the first match of `pattern` replaced by `rep`; `None` when
/// the pattern does not compile.
pub uninterp spec fn spec_regex_replace(pattern: Seq<char>, text: Seq<char>, rep: Seq<char>) -> Option<
    Seq<char>,
>;

/// The lowercase equivalent of `s`, by the Unicode `Lowercase` property.
pub uninterp spec fn spec_lowercase(s: Seq<char>) -> Seq<char>;

/// `s` with its HTML character references decoded.
pub uninterp spec fn spec_decode_html_entities(s: Seq<char>) -> Seq<char>;

/// `regex::RegexBuilder::new(pattern).case_insensitive(ci).build()`, then
/// `Regex::captures` on `text`: the groups of the first match, each as an
/// owned string where it took part in the match. Claimed: the result is
/// `spec_regex_captures` of the arguments, and a match has a group 0.
#[verifier::external_body]
pub(crate) fn regex_captures(pattern: &str, text: &str, ci: bool) -> (r: Option<Vec<Option<String>>>)
    ensures
        match r {
            Some(g) => spec_regex_captures(pattern@, text@, ci) == Some(
                g@.map_values(|o: Option<String>| opt_view(o)),
            ) && g@.len() >= 1,
            None => spec_regex_captures(pattern@, text@, ci) is None,
        },
{
    let re = regex::RegexBuilder::new(pattern).case_insensitive(ci).build().ok()?;
    let caps = re.captures(text)?;
    Some(caps.iter().map(|m| m.map(|m| m.as_str().to_owned())).collect())
}

/// `regex::Regex::new(pattern)`, then `Regex::replace` of the first match
/// in `text` by `rep`. Claimed: the result is `spec_regex_replace` of the
/// arguments.
#[verifier::external_body]
pub(crate) fn regex_replace(pattern: &str, text: &str, rep: &str) -> (r: Option<String>)
    ensures
        opt_view(r) == spec_regex_replace(pattern@, text@, rep@),
{
    Some(regex::Regex::new(pattern).ok()?.replace(text, rep).into_owned())
}

/// `str::to_lowercase`. Claimed: the result is `spec_lowercase(s@)`.
#[verifier::external_body]
pub(crate) fn lowercase(s: &str) -> (r: String)
    ensures
        r@ == spec_lowercase(s@),
{
    s.to_lowercase()
}

/// `html_escape::decode_html_entities`. Claimed: the result is
/// `spec_decode_html_entities(s@)`, and a text without `&` holds no
/// reference and comes back unchanged (the crate's search for a reference
/// starts at an `&`).
#[verifier::external_body]
pub(crate) fn decode_html_entities(s: &str) -> (r: String)
    ensures
        r@ == spec_decode_html_entities(s@),
        !has_char(s@, '&') ==> r@ == s@,
{
    html_escape::decode_html_entities(s).into_owned()
}

} // verus!
