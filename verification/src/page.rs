use vstd::prelude::*;
use scraper::Html;
use scraper::Selector;

verus! {

/// `scraper::Html`, a parsed document. Nothing is known of its inside:
/// what it holds is read through the selectors below.
#[verifier::external_type_specification]
#[verifier::external_body]
pub struct ExHtml(Html);

/// What a document holds under a selector: for each element that the
/// selector `css` matches, in the order in which the document yields them,
/// the text nodes below it, in the order of the document. `None` where
/// `css` is no selector.
pub uninterp spec fn selected_texts(html: Html, css: Seq<char>) -> Option<Seq<Seq<Seq<char>>>>;

/// For each element that the selector `css` matches, the value of its
/// attribute `attr`, where it has that attribute. `None` where `css` is no
/// selector.
pub uninterp spec fn selected_attrs(html: Html, css: Seq<char>, attr: Seq<char>) -> Option<
    Seq<Option<Seq<char>>>,
>;

/// For each element that the selector `css` matches, its text nodes, and
/// for each element below it that the selector `inner` matches, the value
/// of the attribute `attr`. `None` where one of the two is no selector.
pub uninterp spec fn selected_rows(
    html: Html,
    css: Seq<char>,
    inner: Seq<char>,
    attr: Seq<char>,
) -> Option<Seq<(Seq<Seq<char>>, Seq<Option<Seq<char>>>)>>;

/// Calls `Selector::parse` on `css`, `Html::select`, and `ElementRef::text`
/// on each element found. The result is a function of the document and the
/// selector alone, and is given the name `selected_texts`.
#[verifier::external_body]
pub(crate) fn element_texts(html: &Html, css: &str) -> (r: Option<Vec<Vec<String>>>)
    ensures
        r.deep_view() == selected_texts(*html, css@),
{
    match Selector::parse(css) {
        Ok(selector) => Some(
            html.select(&selector).map(|e| e.text().map(String::from).collect()).collect(),
        ),
        Err(_) => None,
    }
}

/// Calls `Selector::parse` on `css`, `Html::select`, and `ElementRef::attr`
/// on each element found. The result is a function of the document, the
/// selector and the attribute's name, and is given the name
/// `selected_attrs`.
#[verifier::external_body]
pub(crate) fn element_attrs(html: &Html, css: &str, attr: &str) -> (r: Option<
    Vec<Option<String>>,
>)
    ensures
        r.deep_view() == selected_attrs(*html, css@, attr@),
{
    match Selector::parse(css) {
        Ok(selector) => Some(
            html.select(&selector).map(|e| e.attr(attr).map(String::from)).collect(),
        ),
        Err(_) => None,
    }
}

/// Calls `Selector::parse` on `css` and on `inner`, `Html::select`, and on
/// each element found `ElementRef::text`, `ElementRef::select` and
/// `ElementRef::attr`. The result is a function of the arguments alone, and
/// is given the name `selected_rows`.
#[verifier::external_body]
pub(crate) fn element_rows(html: &Html, css: &str, inner: &str, attr: &str) -> (r: Option<
    Vec<(Vec<String>, Vec<Option<String>>)>,
>)
    ensures
        r.deep_view() == selected_rows(*html, css@, inner@, attr@),
{
    match (Selector::parse(css), Selector::parse(inner)) {
        (Ok(outer), Ok(inner)) => Some(
            html.select(&outer).map(
                |e|
                    (
                        e.text().map(String::from).collect(),
                        e.select(&inner).map(|a| a.attr(attr).map(String::from)).collect(),
                    ),
            ).collect(),
        ),
        _ => None,
    }
}

} // verus!
