//! Page queries: what the HTML parser and the selector engine of the
//! `scraper` crate find in a page. Nothing here is proved. Each query
//! names what it finds, and the rest of the library reasons about the
//! names.

use vstd::prelude::*;

verus! {

/// The error of `scraper::Selector::parse`. It is carried from the call
/// to where it becomes `ScrapeError::Selector`, and never looked into.
#[verifier::external_type_specification]
#[verifier::external_body]
pub struct ExSelectorErrorKind(scraper::error::SelectorErrorKind);

/// Whether `scraper::Selector::parse` accepts the text as a CSS selector
/// group.
pub uninterp spec fn selector_compiles(selector: Seq<char>) -> bool;

/// What `select_attrs` finds in a page: for each element that matches the
/// selector, the value of the attribute, if the element has it.
pub uninterp spec fn matched_attrs(page: Seq<char>, selector: Seq<char>, attr: Seq<char>) -> Seq<
    Option<Seq<char>>,
>;

/// What `select_texts` finds in a page: the text of each element that
/// matches the selector.
pub uninterp spec fn matched_texts(page: Seq<char>, selector: Seq<char>) -> Seq<Seq<char>>;

/// What `select_nested_texts` finds in a page: for each element that
/// matches `outer`, the text of each element below it that matches
/// `inner`.
pub uninterp spec fn nested_texts(page: Seq<char>, outer: Seq<char>, inner: Seq<char>) -> Seq<
    Seq<Seq<char>>,
>;

/// Parses `page` with `scraper::Html::parse_fragment` and reads `attr`,
/// with `scraper::node::Element::attr`, from each element that
/// `scraper::Html::select` yields for `selector`, in the order in which it
/// yields them.
///
/// Trusted: the call fails exactly when `scraper::Selector::parse` rejects
/// the selector, and what it finds depends on the three texts alone.
#[verifier::external_body]
pub(crate) fn select_attrs(page: &str, selector: &str, attr: &str) -> (r: Result<
    Vec<Option<String>>,
    scraper::error::SelectorErrorKind,
>)
    ensures
        r is Ok <==> selector_compiles(selector@),
        r matches Ok(found) ==> found.deep_view() == matched_attrs(page@, selector@, attr@),
{
    let selector = scraper::Selector::parse(selector)?;
    let document = scraper::Html::parse_fragment(page);
    Ok(document.select(&selector).map(|e| e.value().attr(attr).map(|v| v.to_string())).collect())
}

/// Parses `page` with `scraper::Html::parse_fragment` and collects the
/// text, with `scraper::ElementRef::text`, of each element that
/// `scraper::Html::select` yields for `selector`, in the order in which it
/// yields them.
///
/// Trusted: the call fails exactly when `scraper::Selector::parse` rejects
/// the selector, and what it finds depends on the two texts alone.
#[verifier::external_body]
pub(crate) fn select_texts(page: &str, selector: &str) -> (r: Result<
    Vec<String>,
    scraper::error::SelectorErrorKind,
>)
    ensures
        r is Ok <==> selector_compiles(selector@),
        r matches Ok(found) ==> found.deep_view() == matched_texts(page@, selector@),
{
    let selector = scraper::Selector::parse(selector)?;
    let document = scraper::Html::parse_fragment(page);
    Ok(document.select(&selector).map(|e| e.text().collect()).collect())
}

/// Parses `page` with `scraper::Html::parse_fragment` and, for each
/// element that `scraper::Html::select` yields for `outer`, collects the
/// text of each element below it that `scraper::ElementRef::select` yields
/// for `inner`; both in the order in which they are yielded.
///
/// Trusted: the call fails exactly when `scraper::Selector::parse` rejects
/// one of the selectors, and what it finds depends on the three texts
/// alone.
#[verifier::external_body]
pub(crate) fn select_nested_texts(page: &str, outer: &str, inner: &str) -> (r: Result<
    Vec<Vec<String>>,
    scraper::error::SelectorErrorKind,
>)
    ensures
        r is Ok <==> (selector_compiles(outer@) && selector_compiles(inner@)),
        r matches Ok(found) ==> found.deep_view() == nested_texts(page@, outer@, inner@),
{
    let outer = scraper::Selector::parse(outer)?;
    let inner = scraper::Selector::parse(inner)?;
    let document = scraper::Html::parse_fragment(page);
    Ok(
        document.select(&outer).map(
            |e| e.select(&inner).map(|s| s.text().collect()).collect(),
        ).collect(),
    )
}

} // verus!
