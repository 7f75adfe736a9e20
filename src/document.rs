//! HTML documents, parsed and queried by the `scraper` crate.

use vstd::prelude::*;

verus! {

#[verifier::external_type_specification]
#[verifier::external_body]
pub struct ExHtml(scraper::Html);

#[verifier::external_type_specification]
#[verifier::external_body]
pub struct ExSelector(scraper::Selector);

/// Whether `scraper::Selector::parse` accepts `s` as a CSS selector group.
pub uninterp spec fn selector_parses(s: Seq<char>) -> bool;

/// For each element of the document that lenient HTML parsing builds from
/// `html` that the selector `selector` matches, in the order in which the parser
/// created the elements: the contents of its descendant text nodes, in tree order.
pub uninterp spec fn element_texts(html: Seq<char>, selector: Seq<char>) -> Seq<Seq<Seq<char>>>;

/// For each element of the document that lenient HTML parsing builds from
/// `html` that the selector `selector` matches, in the order in which the parser
/// created the elements: the value of its attribute `name`, or `None` where it
/// carries no such attribute.
pub uninterp spec fn element_attribute_values(
    html: Seq<char>,
    selector: Seq<char>,
    name: Seq<char>,
) -> Seq<Option<Seq<char>>>;

/// A parsed HTML document, kept together with its source text.
pub struct Document {
    html: scraper::Html,
    source: String,
}

impl View for Document {
    type V = Seq<char>;

    /// The source text of the document.
    closed spec fn view(&self) -> Seq<char> {
        self.source@
    }
}

/// A compiled CSS selector group, kept together with its source text.
pub struct Query {
    selector: scraper::Selector,
    source: String,
}

impl View for Query {
    type V = Seq<char>;

    /// The source text of the selector.
    closed spec fn view(&self) -> Seq<char> {
        self.source@
    }
}

/// The character sequences of a sequence of optional strings.
pub open spec fn option_texts(v: Seq<Option<String>>) -> Seq<Option<Seq<char>>> {
    v.map_values(
        |o: Option<String>|
            match o {
                Some(s) => Some(s@),
                None => None,
            },
    )
}

/// The text of each element of a selection, one sequence of text nodes per element.
pub open spec fn node_texts(v: Seq<Vec<String>>) -> Seq<Seq<Seq<char>>> {
    v.map_values(|nodes: Vec<String>| nodes@.map_values(|s: String| s@))
}

/// Relies on `scraper::Html::parse_document`, which never fails.
#[verifier::external_body]
pub(crate) fn parse_document(body: &str) -> (r: Document)
    ensures
        r@ == body@,
{
    Document { html: scraper::Html::parse_document(body), source: body.to_string() }
}

/// Relies on `scraper::Selector::parse`.
#[verifier::external_body]
pub(crate) fn compile_selector(s: &str) -> (r: Option<Query>)
    ensures
        match r {
            Some(q) => selector_parses(s@) && q@ == s@,
            None => !selector_parses(s@),
        },
{
    match scraper::Selector::parse(s) {
        Ok(selector) => Some(Query { selector, source: s.to_string() }),
        Err(_) => None,
    }
}

/// Relies on `scraper::Html::select`, which visits the matching elements in the
/// order in which the parser created them, and `scraper::ElementRef::text`,
/// which yields each one's descendant text nodes in tree order.
#[verifier::external_body]
pub(crate) fn selected_texts(doc: &Document, query: &Query) -> (r: Vec<Vec<String>>)
    ensures
        node_texts(r@) == element_texts(doc@, query@),
{
    doc.html.select(&query.selector).map(|e| e.text().map(String::from).collect()).collect()
}

/// Relies on `scraper::Html::select`, which visits the matching elements in the
/// order in which the parser created them, and `scraper::node::Element::attr`,
/// which gives the value of an attribute where the element carries it.
#[verifier::external_body]
pub(crate) fn selected_attribute_values(doc: &Document, query: &Query, name: &str) -> (r: Vec<
    Option<String>,
>)
    ensures
        option_texts(r@) == element_attribute_values(doc@, query@, name@),
{
    doc.html.select(&query.selector).map(|e| e.value().attr(name).map(String::from)).collect()
}

} // verus!
