//! Reading HTML pages with the `scraper` crate: the elements that a CSS
//! selector matches, in the document's order, and what each holds. What a
//! page parses to is named, not described; all the functions here list the
//! same matched elements, as many as `spec_match_count` says (none when the
//! selector does not parse).
use vstd::prelude::*;

use crate::tracks::list::opt_view;

verus! {

/// The number of elements of the page `html` that `selector` matches.
pub uninterp spec fn spec_match_count(html: Seq<char>, selector: Seq<char>) -> nat;

/// The attribute `attr` of each matched element.
pub uninterp spec fn spec_select_attr(html: Seq<char>, selector: Seq<char>, attr: Seq<char>) -> Seq<
    Option<Seq<char>>,
>;

/// The attribute `attr` of the parent element of each matched element.
pub uninterp spec fn spec_select_parent_attr(
    html: Seq<char>,
    selector: Seq<char>,
    attr: Seq<char>,
) -> Seq<Option<Seq<char>>>;

/// The text of the first element inside each matched element that
/// `inner` matches.
pub uninterp spec fn spec_select_inner_text(
    html: Seq<char>,
    selector: Seq<char>,
    inner: Seq<char>,
) -> Seq<Option<Seq<char>>>;

/// The attribute `attr` of the first element inside each matched element
/// that `inner` matches.
pub uninterp spec fn spec_select_inner_attr(
    html: Seq<char>,
    selector: Seq<char>,
    inner: Seq<char>,
    attr: Seq<char>,
) -> Seq<Option<Option<Seq<char>>>>;

/// The text of each matched element, all its text nodes one after another.
pub uninterp spec fn spec_select_text(html: Seq<char>, selector: Seq<char>) -> Seq<Seq<char>>;

/// The first text node of each matched element.
pub uninterp spec fn spec_select_first_text(html: Seq<char>, selector: Seq<char>) -> Seq<
    Option<Seq<char>>,
>;

/// The inner HTML of each matched element.
pub uninterp spec fn spec_select_inner_html(html: Seq<char>, selector: Seq<char>) -> Seq<Seq<char>>;

/// The inner HTML of the first element inside each matched element that
/// `inner` matches.
pub uninterp spec fn spec_select_inner_first_html(
    html: Seq<char>,
    selector: Seq<char>,
    inner: Seq<char>,
) -> Seq<Option<Seq<char>>>;

/// The views of optional strings.
pub open spec fn opt_views(v: Seq<Option<String>>) -> Seq<Option<Seq<char>>> {
    v.map_values(|o: Option<String>| opt_view(o))
}

/// The view of an optional optional string.
pub open spec fn nested_view(o: Option<Option<String>>) -> Option<Option<Seq<char>>> {
    match o {
        Some(x) => Some(opt_view(x)),
        None => None,
    }
}

/// `Html::parse_document`, `Selector::parse`, `Html::select`, and
/// `Element::attr` on each matched element. Claimed: the result is named by
/// `spec_select_attr`, one entry per matched element.
#[verifier::external_body]
pub(crate) fn select_attr(html: &str, selector: &str, attr: &str) -> (r: Vec<Option<String>>)
    ensures
        opt_views(r@) == spec_select_attr(html@, selector@, attr@),
        r@.len() == spec_match_count(html@, selector@),
{
    let doc = scraper::Html::parse_document(html);
    let Ok(sel) = scraper::Selector::parse(selector) else {
        return Vec::new();
    };
    doc.select(&sel).map(|e| e.value().attr(attr).map(str::to_owned)).collect()
}

/// `Html::parse_document`, `Selector::parse`, and the number of elements
/// that `Html::select` yields. Claimed: the result is `spec_match_count`.
#[verifier::external_body]
pub(crate) fn count_matches(html: &str, selector: &str) -> (r: usize)
    ensures
        r == spec_match_count(html@, selector@),
{
    let doc = scraper::Html::parse_document(html);
    let Ok(sel) = scraper::Selector::parse(selector) else {
        return 0;
    };
    doc.select(&sel).count()
}

/// As [`select_attr`], with `Element::attr` on the parent element of each
/// matched element. Claimed: the result is named by
/// `spec_select_parent_attr`, one entry per matched element.
#[verifier::external_body]
pub(crate) fn select_parent_attr(html: &str, selector: &str, attr: &str) -> (r: Vec<Option<String>>)
    ensures
        opt_views(r@) == spec_select_parent_attr(html@, selector@, attr@),
        r@.len() == spec_match_count(html@, selector@),
{
    let doc = scraper::Html::parse_document(html);
    let Ok(sel) = scraper::Selector::parse(selector) else {
        return Vec::new();
    };
    doc.select(&sel).map(
        |e| e.parent().and_then(|p| p.value().as_element()?.attr(attr).map(str::to_owned)),
    ).collect()
}

/// As [`select_attr`], with `ElementRef::select` of `inner` in each matched
/// element and the collected `ElementRef::text` of the first element it
/// finds. Claimed: the result is named by `spec_select_inner_text`, one
/// entry per matched element.
#[verifier::external_body]
pub(crate) fn select_inner_text(html: &str, selector: &str, inner: &str) -> (r: Vec<Option<String>>)
    ensures
        opt_views(r@) == spec_select_inner_text(html@, selector@, inner@),
        r@.len() == spec_match_count(html@, selector@),
{
    let doc = scraper::Html::parse_document(html);
    let Ok(sel) = scraper::Selector::parse(selector) else {
        return Vec::new();
    };
    let inner = scraper::Selector::parse(inner).ok();
    doc.select(&sel).map(
        |e| inner.as_ref().and_then(|i| e.select(i).next()).map(|i| i.text().collect::<String>()),
    ).collect()
}

/// As [`select_inner_text`], with `Element::attr` on the first element that
/// `inner` finds. Claimed: the result is named by `spec_select_inner_attr`,
/// one entry per matched element.
#[verifier::external_body]
pub(crate) fn select_inner_attr(html: &str, selector: &str, inner: &str, attr: &str) -> (r: Vec<
    Option<Option<String>>,
>)
    ensures
        r@.map_values(|o: Option<Option<String>>| nested_view(o)) == spec_select_inner_attr(
            html@,
            selector@,
            inner@,
            attr@,
        ),
        r@.len() == spec_match_count(html@, selector@),
{
    let doc = scraper::Html::parse_document(html);
    let Ok(sel) = scraper::Selector::parse(selector) else {
        return Vec::new();
    };
    let inner = scraper::Selector::parse(inner).ok();
    doc.select(&sel).map(
        |e| inner.as_ref().and_then(|i| e.select(i).next()).map(|i| i.value().attr(attr).map(str::to_owned)),
    ).collect()
}

/// As [`select_attr`], with the text nodes of each matched element
/// collected (`ElementRef::text`). Claimed: the result is named by
/// `spec_select_text`, one entry per matched element.
#[verifier::external_body]
pub(crate) fn select_text(html: &str, selector: &str) -> (r: Vec<String>)
    ensures
        r@.map_values(|s: String| s@) == spec_select_text(html@, selector@),
        r@.len() == spec_match_count(html@, selector@),
{
    let doc = scraper::Html::parse_document(html);
    let Ok(sel) = scraper::Selector::parse(selector) else {
        return Vec::new();
    };
    doc.select(&sel).map(|e| e.text().collect::<String>()).collect()
}

/// As [`select_attr`], with the first text node of each matched element
/// (`ElementRef::text`, first item). Claimed: the result is named by
/// `spec_select_first_text`, one entry per matched element.
#[verifier::external_body]
pub(crate) fn select_first_text(html: &str, selector: &str) -> (r: Vec<Option<String>>)
    ensures
        opt_views(r@) == spec_select_first_text(html@, selector@),
        r@.len() == spec_match_count(html@, selector@),
{
    let doc = scraper::Html::parse_document(html);
    let Ok(sel) = scraper::Selector::parse(selector) else {
        return Vec::new();
    };
    doc.select(&sel).map(|e| e.text().next().map(str::to_owned)).collect()
}

/// As [`select_attr`], with `ElementRef::inner_html` of each matched
/// element. Claimed: the result is named by `spec_select_inner_html`, one
/// entry per matched element.
#[verifier::external_body]
pub(crate) fn select_inner_html(html: &str, selector: &str) -> (r: Vec<String>)
    ensures
        r@.map_values(|s: String| s@) == spec_select_inner_html(html@, selector@),
        r@.len() == spec_match_count(html@, selector@),
{
    let doc = scraper::Html::parse_document(html);
    let Ok(sel) = scraper::Selector::parse(selector) else {
        return Vec::new();
    };
    doc.select(&sel).map(|e| e.inner_html()).collect()
}

/// As [`select_inner_text`], with `ElementRef::inner_html` of the first
/// element that `inner` finds. Claimed: the result is named by
/// `spec_select_inner_first_html`, one entry per matched element.
#[verifier::external_body]
pub(crate) fn select_inner_first_html(html: &str, selector: &str, inner: &str) -> (r: Vec<
    Option<String>,
>)
    ensures
        opt_views(r@) == spec_select_inner_first_html(html@, selector@, inner@),
        r@.len() == spec_match_count(html@, selector@),
{
    let doc = scraper::Html::parse_document(html);
    let Ok(sel) = scraper::Selector::parse(selector) else {
        return Vec::new();
    };
    let inner = scraper::Selector::parse(inner).ok();
    doc.select(&sel).map(|e| inner.as_ref().and_then(|i| e.select(i).next()).map(|i| i.inner_html())).collect()
}

} // verus!
