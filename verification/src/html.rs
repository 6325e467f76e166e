//! Structural selection in HTML documents: which elements match a pattern,
//! and what they hold.

use scraper::{Html, Selector};
use vstd::prelude::*;
use crate::schedule::{Article, ArticleView};

verus! {

/// The texts of the elements of the document `html` that match the selector
/// group `pattern`, as `scraper` finds them: one text per element, in the
/// order in which `Html::select` yields the elements, each the element's
/// descendant text nodes joined. `None` where `pattern` is no selector group.
pub uninterp spec fn selected_texts(html: Seq<char>, pattern: Seq<char>) -> Option<
    Seq<Seq<char>>,
>;

/// Like [`selected_texts`], each text paired with the element's value for the
/// attribute `attribute`, where the element has that attribute.
pub uninterp spec fn selected_links(
    html: Seq<char>,
    pattern: Seq<char>,
    attribute: Seq<char>,
) -> Option<Seq<(Seq<char>, Option<Seq<char>>)>>;

/// For each element of the document `html` that matches `article`, the texts
/// of its descendants that match `heading` and of those that match `service`,
/// as `scraper` finds them. `None` where one of the three is no selector
/// group.
pub uninterp spec fn selected_articles(
    html: Seq<char>,
    article: Seq<char>,
    heading: Seq<char>,
    service: Seq<char>,
) -> Option<Seq<ArticleView>>;

/// Parses `html` with `scraper::Html::parse_document` and `pattern` with
/// `scraper::Selector::parse`, and collects the text of each element that
/// `Html::select` yields. The contract only names that result.
#[verifier::external_body]
pub(crate) fn select_texts(html: &str, pattern: &str) -> (r: Option<Vec<String>>)
    ensures
        r.deep_view() == selected_texts(html@, pattern@),
{
    let selector = Selector::parse(pattern).ok()?;
    let document = Html::parse_document(html);
    Some(document.select(&selector).map(|e| e.text().collect()).collect())
}

/// Like [`select_texts`], and reads the attribute `attribute` of each element
/// with `scraper::ElementRef::attr`. The contract only names that result.
#[verifier::external_body]
pub(crate) fn select_links(html: &str, pattern: &str, attribute: &str) -> (r: Option<
    Vec<(String, Option<String>)>,
>)
    ensures
        r.deep_view() == selected_links(html@, pattern@, attribute@),
{
    let selector = Selector::parse(pattern).ok()?;
    let document = Html::parse_document(html);
    Some(
        document.select(&selector).map(
            |e| (e.text().collect(), e.attr(attribute).map(|v| v.to_string())),
        ).collect(),
    )
}

/// Parses `html` and the three patterns as [`select_texts`] does, and for
/// each element that matches `article` collects the texts of the descendants
/// that `scraper::ElementRef::select` yields for `heading` and for `service`.
/// The contract only names that result.
#[verifier::external_body]
pub(crate) fn select_articles(html: &str, article: &str, heading: &str, service: &str) -> (r:
    Option<Vec<Article>>)
    ensures
        r.deep_view() == selected_articles(html@, article@, heading@, service@),
{
    let article = Selector::parse(article).ok()?;
    let heading = Selector::parse(heading).ok()?;
    let service = Selector::parse(service).ok()?;
    let document = Html::parse_document(html);
    Some(
        document.select(&article).map(
            |e|
                Article {
                    headings: e.select(&heading).map(|x| x.text().collect()).collect(),
                    services: e.select(&service).map(|x| x.text().collect()).collect(),
                },
        ).collect(),
    )
}

} // verus!
