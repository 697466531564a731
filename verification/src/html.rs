//! HTML documents parsed and queried with the `scraper` crate.
//!
//! A parsed [`Document`] is viewed as the text it was parsed from, and a
//! selected [`Node`] as that text together with the selections that led to
//! it: for each step, the CSS selector and the position of the element among
//! the matches of that step. What `scraper` answers for such a node is named
//! by the uninterpreted functions below; everything that the shows read from
//! a page is stated over these names.

use vstd::prelude::*;
use crate::text::views_of;

verus! {

#[verifier::external_type_specification]
#[verifier::external_body]
pub struct ExHtml(scraper::Html);

#[verifier::external_type_specification]
#[verifier::external_body]
pub struct ExSelector(scraper::Selector);

#[verifier::external_type_specification]
#[verifier::external_body]
pub struct ExElementRef<'a>(scraper::ElementRef<'a>);

/// Whether `scraper::Selector::parse` accepts `selector`.
pub uninterp spec fn css_selector_valid(selector: Seq<char>) -> bool;

/// How many elements `scraper::Html::select` yields for `selector` in the
/// document parsed from `document`.
pub uninterp spec fn html_select_count(document: Seq<char>, selector: Seq<char>) -> nat;

/// How many descendants of the element at `path` `scraper::ElementRef::select`
/// yields for `selector`.
pub uninterp spec fn element_select_count(
    document: Seq<char>,
    path: Seq<(Seq<char>, nat)>,
    selector: Seq<char>,
) -> nat;

/// The tag name of the element at `path`.
pub uninterp spec fn element_name(document: Seq<char>, path: Seq<(Seq<char>, nat)>) -> Seq<char>;

/// The value of attribute `attr` of the element at `path`.
pub uninterp spec fn element_attr(
    document: Seq<char>,
    path: Seq<(Seq<char>, nat)>,
    attr: Seq<char>,
) -> Option<Seq<char>>;

/// The descendant text nodes of the element at `path`, in document order.
pub uninterp spec fn element_texts(
    document: Seq<char>,
    path: Seq<(Seq<char>, nat)>,
) -> Seq<Seq<char>>;

/// The tag name of the first child node of the element at `path`, where
/// that node is an element.
pub uninterp spec fn first_child_element(
    document: Seq<char>,
    path: Seq<(Seq<char>, nat)>,
) -> Option<Seq<char>>;

/// The tag name of the node just before the element at `path`, where that
/// node is an element.
pub uninterp spec fn prev_sibling_element(
    document: Seq<char>,
    path: Seq<(Seq<char>, nat)>,
) -> Option<Seq<char>>;

/// A parsed HTML document.
pub struct Document {
    html: scraper::Html,
    source: Ghost<Seq<char>>,
}

impl View for Document {
    type V = Seq<char>;

    closed spec fn view(&self) -> Seq<char> {
        self.source@
    }
}

/// A compiled CSS selector.
pub struct CssSelector {
    selector: scraper::Selector,
    source: Ghost<Seq<char>>,
}

impl View for CssSelector {
    type V = Seq<char>;

    closed spec fn view(&self) -> Seq<char> {
        self.source@
    }
}

/// An element of a parsed document, reached by a path of selections.
#[derive(Clone, Copy)]
pub struct Node<'a> {
    element: scraper::ElementRef<'a>,
    document: Ghost<Seq<char>>,
    path: Ghost<Seq<(Seq<char>, nat)>>,
}

impl<'a> Node<'a> {
    /// A node is reached by at least one selection.
    #[verifier::type_invariant]
    closed spec fn reached(&self) -> bool {
        self.path@.len() > 0
    }
}

impl<'a> View for Node<'a> {
    type V = (Seq<char>, Seq<(Seq<char>, nat)>);

    closed spec fn view(&self) -> (Seq<char>, Seq<(Seq<char>, nat)>) {
        (self.document@, self.path@)
    }
}

/// Parses `body` as a whole HTML document (`scraper::Html::parse_document`).
/// The document is viewed as `body`; parsing always succeeds.
#[verifier::external_body]
pub fn parse_document(body: &str) -> (res: Document)
    ensures
        res@ == body@,
{
    Document { html: scraper::Html::parse_document(body), source: Ghost(body@) }
}

/// Compiles a CSS selector (`scraper::Selector::parse`): `Some` exactly when
/// the selector is valid, viewed as its text.
#[verifier::external_body]
pub fn parse_selector(selector: &str) -> (res: Option<CssSelector>)
    ensures
        res is Some <==> css_selector_valid(selector@),
        res matches Some(s) ==> s@ == selector@,
{
    match scraper::Selector::parse(selector) {
        Ok(s) => Some(CssSelector { selector: s, source: Ghost(selector@) }),
        Err(_) => None,
    }
}

/// The elements of `doc` that match `selector`, in the order in which the
/// parser created the document's nodes (`scraper::Html::select`); the `i`-th is reached by the path that selects
/// position `i` of `selector`.
#[verifier::external_body]
pub fn select_document<'a>(doc: &'a Document, selector: &CssSelector) -> (res: Vec<Node<'a>>)
    ensures
        res.len() == html_select_count(doc@, selector@),
        forall|i: int|
            0 <= i < res.len() ==> (#[trigger] res@[i])@ == (doc@, seq![(selector@, i as nat)]),
{
    let steps = doc.html.select(&selector.selector).enumerate();
    steps.map(|(i, e)| Node {
        element: e,
        document: Ghost(doc@),
        path: Ghost(seq![(selector@, i as nat)]),
    }).collect()
}

/// The descendants of `node` that match `selector`, in document order
/// (`scraper::ElementRef::select`); the `i`-th is reached by the path of
/// `node` followed by position `i` of `selector`.
#[verifier::external_body]
pub fn select_within<'a>(node: &Node<'a>, selector: &CssSelector) -> (res: Vec<Node<'a>>)
    ensures
        res.len() == element_select_count(node@.0, node@.1, selector@),
        forall|i: int|
            0 <= i < res.len() ==> (#[trigger] res@[i])@ == (node@.0, node@.1.push(
                (selector@, i as nat),
            )),
{
    let steps = node.element.select(&selector.selector).enumerate();
    steps.map(|(i, e)| Node {
        element: e,
        document: node.document,
        path: Ghost(node.path@.push((selector@, i as nat))),
    }).collect()
}

/// The tag name of `node` (`scraper::node::Element::name`).
#[verifier::external_body]
pub fn node_name<'a>(node: &Node<'a>) -> (res: &'a str)
    ensures
        res@ == element_name(node@.0, node@.1),
{
    node.element.value().name()
}

/// The value of attribute `attr` of `node` (`scraper::ElementRef::attr`).
#[verifier::external_body]
pub fn node_attr<'a>(node: &Node<'a>, attr: &str) -> (res: Option<&'a str>)
    ensures
        match res {
            Some(v) => element_attr(node@.0, node@.1, attr@) == Some(v@),
            None => element_attr(node@.0, node@.1, attr@) is None,
        },
{
    node.element.attr(attr)
}

/// The descendant text nodes of `node`, in document order
/// (`scraper::ElementRef::text`).
#[verifier::external_body]
pub fn node_texts<'a>(node: &Node<'a>) -> (res: Vec<&'a str>)
    ensures
        views_of(res@) == element_texts(node@.0, node@.1),
{
    node.element.text().collect()
}

/// The tag name of the first child node of `node`, if that node is an
/// element (`first_child` of the element's tree node).
#[verifier::external_body]
pub fn node_first_child_element<'a>(node: &Node<'a>) -> (res: Option<&'a str>)
    ensures
        match res {
            Some(v) => first_child_element(node@.0, node@.1) == Some(v@),
            None => first_child_element(node@.0, node@.1) is None,
        },
{
    node.element.first_child().and_then(|n| n.value().as_element()).map(|e| e.name())
}

/// The tag name of the node just before `node`, if that node is an element
/// (`prev_sibling` of the element's tree node).
#[verifier::external_body]
pub fn node_prev_sibling_element<'a>(node: &Node<'a>) -> (res: Option<&'a str>)
    ensures
        match res {
            Some(v) => prev_sibling_element(node@.0, node@.1) == Some(v@),
            None => prev_sibling_element(node@.0, node@.1) is None,
        },
{
    node.element.prev_sibling().and_then(|n| n.value().as_element()).map(|e| e.name())
}


/// Where a selection starts: a whole document or one of its elements.
pub enum Scope<'a> {
    Doc(&'a Document),
    Elem(Node<'a>),
}

impl<'a> View for Scope<'a> {
    type V = (Seq<char>, Seq<(Seq<char>, nat)>);

    open spec fn view(&self) -> (Seq<char>, Seq<(Seq<char>, nat)>) {
        match self {
            Scope::Doc(d) => (d@, Seq::empty()),
            Scope::Elem(n) => n@,
        }
    }
}

/// How many elements a selection with `selector` yields, from the document
/// itself (empty path) or from the element at `path`.
pub open spec fn select_count(document: Seq<char>, path: Seq<(Seq<char>, nat)>, selector: Seq<char>) -> nat {
    if path.len() == 0 {
        html_select_count(document, selector)
    } else {
        element_select_count(document, path, selector)
    }
}

/// The elements that `selector` yields from `scope`, in the order in which
/// `scraper` yields them: the order in which the parser created the nodes
/// for a whole document, tree order below an element.
pub fn select<'a>(scope: &Scope<'a>, selector: &CssSelector) -> (res: Vec<Node<'a>>)
    ensures
        res.len() == select_count(scope@.0, scope@.1, selector@),
        forall|i: int|
            0 <= i < res.len() ==> (#[trigger] res@[i])@ == (scope@.0, scope@.1.push(
                (selector@, i as nat),
            )),
{
    match scope {
        Scope::Doc(d) => {
            let r = select_document(d, selector);
            proof {
                assert forall|i: int| 0 <= i < r.len() implies (#[trigger] r@[i])@ == (scope@.0, scope@.1.push(
                    (selector@, i as nat))) by {
                    assert(Seq::<(Seq<char>, nat)>::empty().push((selector@, i as nat)) =~= seq![(selector@, i as nat)]);
                }
            }
            r
        },
        Scope::Elem(n) => {
            let r = select_within(n, selector);
            proof {
                use_type_invariant(n);
            }
            r
        },
    }
}

} // verus!
