//! The exchange between a show's crawl and the one who performs it: the
//! crawl asks for pages to be fetched and for addresses to be looked up in
//! the store, and in the end hands over the episodes to store.

use vstd::prelude::*;
use crate::person::{Entry, EntryView, entries_view};
use crate::extract::PageError;

verus! {

/// What the crawl was given.
pub enum Event {
    /// The body of the page last asked for.
    Page(String),
    /// Whether the address last asked about is already stored.
    Known(bool),
}

pub enum EventView {
    Page(Seq<char>),
    Known(bool),
}

impl View for Event {
    type V = EventView;

    open spec fn view(&self) -> EventView {
        match self {
            Event::Page(b) => EventView::Page(b@),
            Event::Known(k) => EventView::Known(*k),
        }
    }
}

/// What the crawl asks for next.
pub enum Action {
    /// Fetch the page at this address and hand back its body; the request
    /// must succeed.
    Fetch(String),
    /// Fetch the page at this address and hand back its body, whatever
    /// status the server answers with.
    FetchAnyStatus(String),
    /// Tell whether an episode with this address is already stored.
    Lookup(String),
    /// Store these episodes, in this order; the crawl is over.
    Finish(Vec<Entry>),
    /// A page could not be read; the crawl is over.
    Fail(PageError),
}

pub enum ActionView {
    Fetch(Seq<char>),
    FetchAnyStatus(Seq<char>),
    Lookup(Seq<char>),
    Finish(Seq<EntryView>),
    Fail(PageError),
}

impl View for Action {
    type V = ActionView;

    open spec fn view(&self) -> ActionView {
        match self {
            Action::Fetch(u) => ActionView::Fetch(u@),
            Action::FetchAnyStatus(u) => ActionView::FetchAnyStatus(u@),
            Action::Lookup(u) => ActionView::Lookup(u@),
            Action::Finish(v) => ActionView::Finish(entries_view(v@)),
            Action::Fail(e) => ActionView::Fail(*e),
        }
    }
}

/// The episodes in the order they are stored: the last one read first.
pub fn store_order(results: Vec<Entry>) -> (res: Vec<Entry>)
    ensures
        entries_view(res@) == entries_view(results@).reverse(),
{
    let mut results = results;
    let ghost orig = results@;
    let mut out: Vec<Entry> = Vec::new();
    proof {
        assert(orig.take(orig.len() as int) =~= orig);
        assert(entries_view(out@) =~= entries_view(orig).skip(orig.len() as int).reverse());
    }
    while results.len() > 0
        invariant
            results@ == orig.take(results@.len() as int),
            results@.len() <= orig.len(),
            entries_view(out@) == entries_view(orig).skip(results@.len() as int).reverse(),
        decreases results.len(),
    {
        let ghost before = out@;
        let ghost n: int = results@.len() as int;
        let e = results.pop().unwrap();
        out.push(e);
        proof {
            assert(results@ =~= orig.take(results@.len() as int));
            assert(entries_view(out@) =~= entries_view(before).push(orig[n - 1]@));
            assert(entries_view(orig).skip(n - 1) =~= seq![orig[n - 1]@].add(
                entries_view(orig).skip(n),
            ));
            assert(entries_view(orig).skip(n - 1).reverse() =~= entries_view(orig).skip(n).reverse().push(
                orig[n - 1]@,
            ));
        }
    }
    out
}

} // verus!
