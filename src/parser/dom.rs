//! The page's markup, parsed and queried by `scraper`.
//!
//! What a query finds depends on the page's text alone, so each query's result is named here as a
//! function of that text. A parsed [`Document`] keeps the text it was parsed from, and a [`Node`]
//! keeps that text and a number that identifies its element within the parsed document.

use vstd::prelude::*;

use scraper::{ElementRef, Html, Selector};

use crate::text::text_of;

verus! {

#[verifier::external_type_specification]
#[verifier::external_body]
pub struct ExHtml(Html);

#[verifier::external_type_specification]
#[verifier::external_body]
pub struct ExSelector(Selector);

#[verifier::external_type_specification]
#[verifier::external_body]
pub struct ExElementRef<'a>(ElementRef<'a>);

/// Whether `css` is a CSS selector group that `scraper` accepts.
pub uninterp spec fn selector_parses(css: Seq<char>) -> bool;

/// The elements of the document parsed from `html` that the selector `css` matches, in the order
/// `scraper` gives them.
pub uninterp spec fn matched_in_document(html: Seq<char>, css: Seq<char>) -> Seq<nat>;

/// The descendants of the element `at` of the document parsed from `html` that the selector `css`
/// matches, in document order.
pub uninterp spec fn matched_under(html: Seq<char>, at: nat, css: Seq<char>) -> Seq<nat>;

/// The value of the attribute `name` of the element `at` of the document parsed from `html`.
pub uninterp spec fn attribute_at(html: Seq<char>, at: nat, name: Seq<char>) -> Option<Seq<char>>;

/// The first text node among the descendants of the element `at` of the document parsed from
/// `html`.
pub uninterp spec fn first_text_at(html: Seq<char>, at: nat) -> Option<Seq<char>>;

/// A parsed HTML document and the text it was parsed from.
pub struct Document {
    pub(crate) html: Html,
    pub source: Ghost<Seq<char>>,
}

/// A parsed CSS selector group and its text.
pub struct Css {
    pub(crate) selector: Selector,
    pub text: Ghost<Seq<char>>,
}

/// An element of a parsed document: the document's text and the element's number in it.
#[derive(Clone, Copy)]
pub struct Node<'a> {
    pub(crate) element: ElementRef<'a>,
    pub source: Ghost<Seq<char>>,
    pub at: Ghost<nat>,
}

/// Relies on `scraper::Html::parse_document`: parses a whole HTML document, never failing.
#[verifier::external_body]
pub(crate) fn parse_document(html: &str) -> (r: Document)
    ensures
        r.source@ == html@,
{
    Document { html: Html::parse_document(html), source: Ghost(html@) }
}

/// Relies on `scraper::Selector::parse`: parses a CSS selector group; `None` where the text is no
/// such group.
#[verifier::external_body]
pub(crate) fn parse_selector(css: &str) -> (r: Option<Css>)
    ensures
        r is Some == selector_parses(css@),
        r matches Some(c) ==> c.text@ == css@,
{
    match Selector::parse(css) {
        Ok(selector) => Some(Css { selector, text: Ghost(css@) }),
        Err(_) => None,
    }
}

/// Relies on `scraper::Html::select`: the elements of the document that match the selector.
#[verifier::external_body]
pub(crate) fn select_in_document<'a>(doc: &'a Document, css: &Css) -> (r: Vec<Node<'a>>)
    ensures
        r@.len() == matched_in_document(doc.source@, css.text@).len(),
        forall|i: int|
            #![trigger r@[i]]
            0 <= i < r@.len() ==> r@[i].source@ == doc.source@ && r@[i].at@
                == matched_in_document(doc.source@, css.text@)[i],
{
    let found = doc.html.select(&css.selector).enumerate();
    found.map(
        |(i, element)|
            Node {
                element,
                source: doc.source,
                at: Ghost(matched_in_document(doc.source@, css.text@)[i as int]),
            },
    ).collect()
}

/// Relies on `scraper::ElementRef::select`: the descendants of the element that match the
/// selector, in document order.
#[verifier::external_body]
pub(crate) fn select_in_element<'a>(node: &Node<'a>, css: &Css) -> (r: Vec<Node<'a>>)
    ensures
        r@.len() == matched_under(node.source@, node.at@, css.text@).len(),
        forall|i: int|
            #![trigger r@[i]]
            0 <= i < r@.len() ==> r@[i].source@ == node.source@ && r@[i].at@ == matched_under(
                node.source@,
                node.at@,
                css.text@,
            )[i],
{
    let found = node.element.select(&css.selector).enumerate();
    found.map(
        |(i, element)|
            Node {
                element,
                source: node.source,
                at: Ghost(matched_under(node.source@, node.at@, css.text@)[i as int]),
            },
    ).collect()
}

/// Relies on `scraper::ElementRef::attr`: the value of the element's attribute of that name, where
/// it has one.
#[verifier::external_body]
pub(crate) fn attribute(node: &Node, name: &str) -> (r: Option<String>)
    ensures
        text_of(r) == attribute_at(node.source@, node.at@, name@),
{
    node.element.attr(name).map(|v| v.to_string())
}

/// Relies on `scraper::ElementRef::text`: the first text node among the element's descendants,
/// where there is one.
#[verifier::external_body]
pub(crate) fn first_text(node: &Node) -> (r: Option<String>)
    ensures
        text_of(r) == first_text_at(node.source@, node.at@),
{
    node.element.text().next().map(|t| t.to_string())
}

} // verus!
