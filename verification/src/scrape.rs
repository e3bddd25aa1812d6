//! The trusted boundary to the `scraper` and `html_escape` crates. Each
//! wrapper makes one HTML query and hands back plain values; the uninterpreted
//! names stand for what those deterministic queries return, and everything
//! downstream is verified against the names.

use vstd::prelude::*;

verus! {

/// What `scraper` finds for the row selector in a document: the inner HTML
/// of each element matching `div.row.activity`, in document order.
pub uninterp spec fn rows_of(html: Seq<char>) -> Seq<Seq<char>>;

/// Relies on `scraper::Html::parse_document`, `Html::select` with the CSS
/// selector `div.row.activity`, and `ElementRef::inner_html`. Parsing never
/// fails (malformed markup yields a best-effort tree), matching elements
/// come in document order, and the result depends on the document text
/// alone.
#[verifier::external_body]
pub(crate) fn scrape_rows(html: &str) -> (r: Vec<String>)
    ensures
        r.deep_view() == rows_of(html@),
{
    let sel = scraper::Selector::parse("div.row.activity").unwrap();
    scraper::Html::parse_document(html)
        .select(&sel)
        .map(|e| e.inner_html())
        .collect()
}

/// What `scraper` finds for the anchor selector in a row fragment: for each
/// element matching `div.col.pl-1>a`, in document order, its inner HTML and
/// its `href` attribute.
pub uninterp spec fn anchors_of(fragment: Seq<char>) -> Seq<(Seq<char>, Option<Seq<char>>)>;

/// Relies on `scraper::Html::parse_fragment`, `Html::select` with the CSS
/// selector `div.col.pl-1>a`, `ElementRef::inner_html` and
/// `ElementRef::attr("href")`; deterministic in the fragment text, elements
/// in document order.
#[verifier::external_body]
pub(crate) fn scrape_anchors(fragment: &str) -> (r: Vec<(String, Option<String>)>)
    ensures
        r.deep_view() == anchors_of(fragment@),
{
    let sel = scraper::Selector::parse("div.col.pl-1>a").unwrap();
    scraper::Html::parse_fragment(fragment)
        .select(&sel)
        .map(|e| (e.inner_html(), e.attr("href").map(|a| a.to_owned())))
        .collect()
}

/// What `scraper` finds for the timestamp tooltip in a row fragment: the
/// `data-tippy-content` attribute of the first element matching
/// `div.col-auto>p.mb-0.time-tooltip`, if both exist.
pub uninterp spec fn tooltip_of(fragment: Seq<char>) -> Option<Seq<char>>;

/// Relies on `scraper::Html::parse_fragment`, `Html::select` with the CSS
/// selector `div.col-auto>p.mb-0.time-tooltip` and
/// `ElementRef::attr("data-tippy-content")`; deterministic in the fragment
/// text, attribute values handed back entity-decoded.
#[verifier::external_body]
pub(crate) fn scrape_tooltip(fragment: &str) -> (r: Option<String>)
    ensures
        r.deep_view() == tooltip_of(fragment@),
{
    let sel = scraper::Selector::parse("div.col-auto>p.mb-0.time-tooltip").unwrap();
    scraper::Html::parse_fragment(fragment)
        .select(&sel)
        .next()
        .and_then(|e| e.attr("data-tippy-content").map(|a| a.to_owned()))
}

/// What `scraper` finds for the `<time>` element in a tooltip snippet: the
/// `datetime` attribute of the first element matching `time`, if both exist.
pub uninterp spec fn datetime_of(snippet: Seq<char>) -> Option<Seq<char>>;

/// Relies on `scraper::Html::parse_fragment`, `Html::select` with the CSS
/// selector `time` and `ElementRef::attr("datetime")`; deterministic in the
/// snippet text.
#[verifier::external_body]
pub(crate) fn scrape_datetime(snippet: &str) -> (r: Option<String>)
    ensures
        r.deep_view() == datetime_of(snippet@),
{
    let sel = scraper::Selector::parse("time").unwrap();
    scraper::Html::parse_fragment(snippet)
        .select(&sel)
        .next()
        .and_then(|e| e.attr("datetime").map(|a| a.to_owned()))
}

/// What `scraper` finds for the star-rating indicator in a row fragment:
/// `None` when no element matches
/// `div.col.pl-1>div.stars-inline.star-ratings-static>div.stars-top`, else
/// the first match's `style` attribute (which itself may be absent).
pub uninterp spec fn star_style_of(fragment: Seq<char>) -> Option<Option<Seq<char>>>;

/// Relies on `scraper::Html::parse_fragment`, `Html::select` with the CSS
/// selector `div.col.pl-1>div.stars-inline.star-ratings-static>div.stars-top`
/// and `ElementRef::attr("style")`; deterministic in the fragment text.
#[verifier::external_body]
pub(crate) fn scrape_star_style(fragment: &str) -> (r: Option<Option<String>>)
    ensures
        r.deep_view() == star_style_of(fragment@),
{
    let sel = scraper::Selector::parse(
        "div.col.pl-1>div.stars-inline.star-ratings-static>div.stars-top",
    ).unwrap();
    scraper::Html::parse_fragment(fragment)
        .select(&sel)
        .next()
        .map(|e| e.attr("style").map(|a| a.to_owned()))
}

/// What `scraper` finds for the review card in a row fragment: `None` when
/// no element matches `div.review-card`; else, within the first match,
/// whether an element matches `div.spoiler-warning`, the inner HTML of the
/// first element matching `div.card-text`, and the `href` attribute of the
/// first element matching `a.open-review-link`.
pub uninterp spec fn review_of(fragment: Seq<char>) -> Option<
    (bool, Option<Seq<char>>, Option<Seq<char>>),
>;

/// Relies on `scraper::Html::parse_fragment`, `Html::select` /
/// `ElementRef::select` with the CSS selectors `div.review-card`,
/// `div.spoiler-warning`, `div.card-text` and `a.open-review-link`,
/// `ElementRef::inner_html` and `ElementRef::attr("href")`; deterministic
/// in the fragment text.
#[verifier::external_body]
pub(crate) fn scrape_review(fragment: &str) -> (r: Option<(bool, Option<String>, Option<String>)>)
    ensures
        r.deep_view() == review_of(fragment@),
{
    let card_sel = scraper::Selector::parse("div.review-card").unwrap();
    let spoiler_sel = scraper::Selector::parse("div.spoiler-warning").unwrap();
    let body_sel = scraper::Selector::parse("div.card-text").unwrap();
    let link_sel = scraper::Selector::parse("a.open-review-link").unwrap();
    scraper::Html::parse_fragment(fragment).select(&card_sel).next().map(|card| (
        card.select(&spoiler_sel).next().is_some(),
        card.select(&body_sel).next().map(|e| e.inner_html()),
        card.select(&link_sel).next().and_then(|e| e.attr("href").map(|a| a.to_owned())),
    ))
}

/// What `html_escape` decodes a string to: every exact named or numeric
/// HTML character reference replaced by its character.
pub uninterp spec fn decoded_of(s: Seq<char>) -> Seq<char>;

/// Relies on `html_escape::decode_html_entities`: decodes exact named and
/// numeric character references ending in `;` and leaves everything else
/// unchanged; a function of the input text alone.
#[verifier::external_body]
pub(crate) fn decode_entities(s: &str) -> (r: String)
    ensures
        r@ == decoded_of(s@),
{
    html_escape::decode_html_entities(s).into_owned()
}

} // verus!
