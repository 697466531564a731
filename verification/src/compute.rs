//! Reading texts and links out of selections, capture groups and elements.

use vstd::prelude::*;
use crate::text::{trim, trim_str};
use crate::person::opt_str_view;
use crate::pattern::{Captures, group_view};
use crate::html::{Node, node_attr, node_texts, element_attr, element_texts};

verus! {

/// The trimmed text, if there is one.
pub open spec fn trim_opt(s: Option<Seq<char>>) -> Option<Seq<char>> {
    match s {
        Some(t) => Some(trim(t)),
        None => None,
    }
}

/// Trims an optional text.
fn trim_opt_str(s: Option<&str>) -> (res: Option<&str>)
    ensures
        opt_str_view(res) == trim_opt(opt_str_view(s)),
{
    match s {
        Some(t) => Some(trim_str(t)),
        None => None,
    }
}

/// A source of numbered texts: capture groups of a match, or the text nodes
/// of an element.
pub trait ComputeCount {
    /// The text numbered `count`, if there is one.
    spec fn text_at(&self, count: nat) -> Option<Seq<char>>;

    /// The text numbered `count`, as it stands.
    fn get_text_internal(&self, count: usize) -> (res: Option<&str>)
        ensures
            opt_str_view(res) == self.text_at(count as nat),
    ;

    /// The first text, trimmed.
    fn get_text(&self) -> (res: Option<&str>)
        ensures
            opt_str_view(res) == trim_opt(self.text_at(0)),
    {
        trim_opt_str(self.get_text_internal(0))
    }

    /// The text numbered `count`, trimmed.
    fn get_text_count(&self, count: usize) -> (res: Option<&str>)
        ensures
            opt_str_view(res) == trim_opt(self.text_at(count as nat)),
    {
        trim_opt_str(self.get_text_internal(count))
    }

    /// The first text, trimmed, as an owned string.
    fn get_string(&self) -> (res: Option<String>)
        ensures
            crate::person::opt_view(res) == trim_opt(self.text_at(0)),
    {
        match self.get_text() {
            Some(s) => Some(s.to_owned()),
            None => None,
        }
    }

    /// The text numbered `count`, trimmed, as an owned string.
    fn get_string_count(&self, count: usize) -> (res: Option<String>)
        ensures
            crate::person::opt_view(res) == trim_opt(self.text_at(count as nat)),
    {
        match self.get_text_count(count) {
            Some(s) => Some(s.to_owned()),
            None => None,
        }
    }
}

impl<T: ComputeCount> ComputeCount for Option<T> {
    open spec fn text_at(&self, count: nat) -> Option<Seq<char>> {
        match self {
            Some(c) => c.text_at(count),
            None => None,
        }
    }

    fn get_text_internal(&self, count: usize) -> (res: Option<&str>) {
        match self {
            Some(c) => c.get_text_internal(count),
            None => None,
        }
    }
}

impl<'t> ComputeCount for Captures<'t> {
    open spec fn text_at(&self, count: nat) -> Option<Seq<char>> {
        if count < self.groups@.len() {
            group_view(self.groups@[count as int])
        } else {
            None
        }
    }

    fn get_text_internal(&self, count: usize) -> (res: Option<&str>) {
        if count < self.groups.len() {
            self.groups[count]
        } else {
            None
        }
    }
}

impl<'a> ComputeCount for Node<'a> {
    open spec fn text_at(&self, count: nat) -> Option<Seq<char>> {
        let texts = element_texts(self@.0, self@.1);
        if count < texts.len() {
            Some(texts[count as int])
        } else {
            None
        }
    }

    fn get_text_internal(&self, count: usize) -> (res: Option<&str>) {
        let texts = node_texts(self);
        proof {
            if count < texts.len() {
                assert(texts@[count as int]@ == element_texts(self@.0, self@.1)[count as int]);
            }
        }
        if count < texts.len() {
            Some(texts[count])
        } else {
            None
        }
    }
}

/// The elements of a selection that have not been taken yet.
pub struct Selection<'a> {
    nodes: Vec<Node<'a>>,
    next: usize,
}

impl<'a> Selection<'a> {
    /// The views of the elements still to come.
    pub closed spec fn rest(&self) -> Seq<(Seq<char>, Seq<(Seq<char>, nat)>)> {
        self.nodes@.skip(self.next as int).map_values(|n: Node<'a>| n@)
    }

    /// The position of the next element lies within the selection.
    pub closed spec fn wf(&self) -> bool {
        self.next <= self.nodes@.len()
    }

    /// Whether every element has been taken.
    pub fn is_empty(&self) -> (res: bool)
        requires
            self.wf(),
        ensures
            res == (self.rest().len() == 0),
    {
        self.next >= self.nodes.len()
    }

    /// The next element, without taking it.
    pub fn peek(&self) -> (res: Option<Node<'a>>)
        requires
            self.wf(),
        ensures
            self.rest().len() == 0 ==> res is None,
            self.rest().len() > 0 ==> (res matches Some(n) && n@ == self.rest()[0]),
    {
        if self.next < self.nodes.len() {
            Some(self.nodes[self.next])
        } else {
            None
        }
    }

    /// A selection of `nodes`, none taken yet.
    pub fn new(nodes: Vec<Node<'a>>) -> (res: Selection<'a>)
        ensures
            res.wf(),
            res.rest() == nodes@.map_values(|n: Node<'a>| n@),
    {
        let res = Selection { nodes, next: 0 };
        proof {
            assert(res.nodes@.skip(0) =~= res.nodes@);
        }
        res
    }
}

/// Element-by-element reading of a selection: its next element, the link or
/// the first text of that element.
pub trait Compute<'a> {
    /// The views of the elements still to come.
    spec fn upcoming(&self) -> Seq<(Seq<char>, Seq<(Seq<char>, nat)>)>;

    spec fn valid(&self) -> bool;

    /// Takes the next element, if there is one.
    fn get_element_ref(&mut self) -> (res: Option<Node<'a>>)
        requires
            old(self).valid(),
        ensures
            final(self).valid(),
            old(self).upcoming().len() == 0 ==> res is None && final(self).upcoming()
                == old(self).upcoming(),
            old(self).upcoming().len() > 0 ==> (res matches Some(n) && n@ == old(
                self,
            ).upcoming()[0] && final(self).upcoming() == old(self).upcoming().drop_first()),
    ;

    /// Takes the next element, if there is one, and gives its link target
    /// `href` behind `base_url`.
    fn to_url(&mut self, base_url: &'static str) -> (res: Option<String>)
        requires
            old(self).valid(),
            old(self).upcoming().len() > 0 ==> element_attr(
                old(self).upcoming()[0].0,
                old(self).upcoming()[0].1,
                "href"@,
            ) is Some,
        ensures
            final(self).valid(),
            old(self).upcoming().len() == 0 ==> res is None && final(self).upcoming()
                == old(self).upcoming(),
            old(self).upcoming().len() > 0 ==> (res matches Some(u) && u@ == base_url@
                + element_attr(old(self).upcoming()[0].0, old(self).upcoming()[0].1, "href"@)->0),
            old(self).upcoming().len() > 0 ==> final(self).upcoming() == old(
                self,
            ).upcoming().drop_first(),
    {
        match self.get_element_ref() {
            Some(e) => {
                let href = node_attr(&e, "href");
                match href {
                    Some(h) => {
                        let mut url = base_url.to_owned();
                        url.append(h);
                        Some(url)
                    },
                    None => None,
                }
            },
            None => None,
        }
    }

    /// Takes the next element, if there is one, and gives its first text,
    /// trimmed.
    fn to_text(&mut self) -> (res: Option<&'a str>)
        requires
            old(self).valid(),
        ensures
            final(self).valid(),
            old(self).upcoming().len() == 0 ==> res is None && final(self).upcoming()
                == old(self).upcoming(),
            old(self).upcoming().len() > 0 ==> opt_str_view(res) == trim_opt(
                {
                    let t = element_texts(old(self).upcoming()[0].0, old(self).upcoming()[0].1);
                    if t.len() > 0 {
                        Some(t[0])
                    } else {
                        None
                    }
                },
            ),
            old(self).upcoming().len() > 0 ==> final(self).upcoming() == old(
                self,
            ).upcoming().drop_first(),
    {
        match self.get_element_ref() {
            Some(e) => {
                let texts = node_texts(&e);
                if texts.len() > 0 {
                    Some(trim_str(texts[0]))
                } else {
                    None
                }
            },
            None => None,
        }
    }
}

impl<'a> Compute<'a> for Selection<'a> {
    open spec fn upcoming(&self) -> Seq<(Seq<char>, Seq<(Seq<char>, nat)>)> {
        self.rest()
    }

    open spec fn valid(&self) -> bool {
        self.wf()
    }

    fn get_element_ref(&mut self) -> (res: Option<Node<'a>>) {
        if self.next < self.nodes.len() {
            let n = self.nodes[self.next];
            self.next = self.next + 1;
            proof {
                assert(old(self).nodes@.skip(old(self).next as int).drop_first() =~= self.nodes@.skip(
                    self.next as int,
                ));
            }
            Some(n)
        } else {
            None
        }
    }
}

} // verus!
