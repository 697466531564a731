//! Reading texts and links out of a page, with the failures that a page can
//! cause named by [`PageError`].

use vstd::prelude::*;
use crate::text::trim;
use crate::person::opt_str_view;
use crate::compute::{Compute, Selection, trim_opt};
use crate::html::{
    CssSelector, Node, Scope, select, select_count, element_texts, element_attr,
};

verus! {

/// Why a page could not be read.
#[derive(PartialEq, Eq, Structural, Clone, Copy, Debug)]
pub enum PageError {
    /// A selector or pattern of the show was rejected by its crate.
    InvalidQuery,
    /// An element that the page must have is missing.
    MissingElement,
    /// An element has no text where one is needed.
    MissingText,
    /// An element lacks an attribute that it must have.
    MissingAttribute,
    /// A broadcast time could not be read.
    BadTime,
    /// A guest line did not match the expected form.
    NoMatch,
    /// A guest's biography came before the guest's name.
    MissingName,
}

/// The first text node of the element at `path`, if it has one.
pub open spec fn first_text(doc: Seq<char>, path: Seq<(Seq<char>, nat)>) -> Option<Seq<char>> {
    let t = element_texts(doc, path);
    if t.len() > 0 {
        Some(t[0])
    } else {
        None
    }
}

/// The trimmed first text of the first element that `sel` yields from the
/// scope at `path`; `None` where there is no such element or it has no text.
pub open spec fn spec_opt_text_of(
    doc: Seq<char>,
    path: Seq<(Seq<char>, nat)>,
    sel: Seq<char>,
) -> Option<Seq<char>> {
    if select_count(doc, path, sel) == 0 {
        None
    } else {
        trim_opt(first_text(doc, path.push((sel, 0))))
    }
}

/// As [`spec_opt_text_of`], where the element and its text must be there.
pub open spec fn spec_text_of(doc: Seq<char>, path: Seq<(Seq<char>, nat)>, sel: Seq<char>) -> Result<
    Seq<char>,
    PageError,
> {
    if select_count(doc, path, sel) == 0 {
        Err(PageError::MissingElement)
    } else {
        match first_text(doc, path.push((sel, 0))) {
            Some(t) => Ok(trim(t)),
            None => Err(PageError::MissingText),
        }
    }
}

/// The link target `href` of the first element that `sel` yields from the
/// scope at `path`, behind `base`; `Ok(None)` where there is no such element.
pub open spec fn spec_url_of(
    doc: Seq<char>,
    path: Seq<(Seq<char>, nat)>,
    sel: Seq<char>,
    base: Seq<char>,
) -> Result<Option<Seq<char>>, PageError> {
    if select_count(doc, path, sel) == 0 {
        Ok(None)
    } else {
        match element_attr(doc, path.push((sel, 0)), "href"@) {
            Some(h) => Ok(Some(base + h)),
            None => Err(PageError::MissingAttribute),
        }
    }
}

/// The view of a text or failure.
pub open spec fn res_str_view(r: Result<&str, PageError>) -> Result<Seq<char>, PageError> {
    match r {
        Ok(s) => Ok(s@),
        Err(e) => Err(e),
    }
}

/// The view of an optional address or failure.
pub open spec fn res_opt_view(r: Result<Option<String>, PageError>) -> Result<
    Option<Seq<char>>,
    PageError,
> {
    match r {
        Ok(Some(s)) => Ok(Some(s@)),
        Ok(None) => Ok(None),
        Err(e) => Err(e),
    }
}

/// The elements that `sel` yields from `scope`, ready to be read one by one.
pub fn selection<'a>(scope: &Scope<'a>, sel: &CssSelector) -> (res: Selection<'a>)
    ensures
        res.upcoming().len() == select_count(scope@.0, scope@.1, sel@),
        res.valid(),
        forall|i: int|
            0 <= i < res.upcoming().len() ==> #[trigger] res.upcoming()[i] == (
                scope@.0,
                scope@.1.push((sel@, i as nat)),
            ),
{
    let nodes = select(scope, sel);
    Selection::new(nodes)
}

/// The trimmed first text of the first element that `sel` yields from
/// `scope`, if there is one (`to_text`).
pub fn opt_text_of<'a>(scope: &Scope<'a>, sel: &CssSelector) -> (res: Option<&'a str>)
    ensures
        opt_str_view(res) == spec_opt_text_of(scope@.0, scope@.1, sel@),
{
    let mut s = selection(scope, sel);
    let r = s.to_text();
    r
}

/// The trimmed first text of the first element that `sel` yields from
/// `scope`, which must be there (`to_text` then `unwrap`).
pub fn text_of<'a>(scope: &Scope<'a>, sel: &CssSelector) -> (res: Result<&'a str, PageError>)
    ensures
        res_str_view(res) == spec_text_of(scope@.0, scope@.1, sel@),
{
    let mut s = selection(scope, sel);
    if s.is_empty() {
        return Err(PageError::MissingElement);
    }
    match s.to_text() {
        Some(t) => Ok(t),
        None => Err(PageError::MissingText),
    }
}

/// The link of the first element that `sel` yields from `scope`, behind
/// `base`; `Ok(None)` where there is none (`to_url`).
pub fn url_of<'a>(scope: &Scope<'a>, sel: &CssSelector, base: &'static str) -> (res: Result<
    Option<String>,
    PageError,
>)
    ensures
        res_opt_view(res) == spec_url_of(scope@.0, scope@.1, sel@, base@),
{
    let mut s = selection(scope, sel);
    match s.peek() {
        None => Ok(None),
        Some(n) => {
            if crate::html::node_attr(&n, "href").is_none() {
                Err(PageError::MissingAttribute)
            } else {
                Ok(s.to_url(base))
            }
        },
    }
}

/// The first element that `sel` yields from `scope`, if any.
pub fn first_node<'a>(scope: &Scope<'a>, sel: &CssSelector) -> (res: Option<Node<'a>>)
    ensures
        select_count(scope@.0, scope@.1, sel@) == 0 ==> res is None,
        select_count(scope@.0, scope@.1, sel@) > 0 ==> (res matches Some(n) && n@ == (
            scope@.0,
            scope@.1.push((sel@, 0)),
        )),
{
    let mut s = selection(scope, sel);
    s.get_element_ref()
}


/// The text node numbered `k` of the element at `path`, if it has one.
pub open spec fn text_at(doc: Seq<char>, path: Seq<(Seq<char>, nat)>, k: nat) -> Option<Seq<char>> {
    let t = element_texts(doc, path);
    if k < t.len() {
        Some(t[k as int])
    } else {
        None
    }
}

/// Capture group `k` of a match, if there is a match and the group took part.
pub open spec fn group_of(c: Option<Seq<Option<Seq<char>>>>, k: nat) -> Option<Seq<char>> {
    match c {
        Some(g) => if k < g.len() {
            g[k as int]
        } else {
            None
        },
        None => None,
    }
}

} // verus!
