//! The episodes of a show and their guests.

use vstd::prelude::*;
use crate::time::DateTime;

verus! {

/// A guest of an episode.
#[derive(Debug)]
pub struct Person {
    pub name: String,
    pub title: Option<String>,
    pub party: Option<String>,
    pub biografie: Option<String>,
    pub image_url: Option<String>,
}

/// The view of an optional string.
pub open spec fn opt_view(s: Option<String>) -> Option<Seq<char>> {
    match s {
        Some(s) => Some(s@),
        None => None,
    }
}

/// The view of an optional string slice.
pub open spec fn opt_str_view(s: Option<&str>) -> Option<Seq<char>> {
    match s {
        Some(s) => Some(s@),
        None => None,
    }
}

/// A copy of an optional string.
pub fn clone_opt(o: &Option<String>) -> (res: Option<String>)
    ensures
        opt_view(res) == opt_view(*o),
{
    match o {
        Some(s) => Some(s.clone()),
        None => None,
    }
}

/// An owned copy of an optional string slice.
pub fn owned(s: Option<&str>) -> (res: Option<String>)
    ensures
        opt_view(res) == opt_str_view(s),
{
    match s {
        Some(t) => Some(t.to_owned()),
        None => None,
    }
}

/// A guest, as text.
pub struct PersonView {
    pub name: Seq<char>,
    pub title: Option<Seq<char>>,
    pub party: Option<Seq<char>>,
    pub biografie: Option<Seq<char>>,
    pub image_url: Option<Seq<char>>,
}

impl View for Person {
    type V = PersonView;

    open spec fn view(&self) -> PersonView {
        PersonView {
            name: self.name@,
            title: opt_view(self.title),
            party: opt_view(self.party),
            biografie: opt_view(self.biografie),
            image_url: opt_view(self.image_url),
        }
    }
}

/// The views of a list of guests.
pub open spec fn persons_view(v: Seq<Person>) -> Seq<PersonView> {
    v.map_values(|p: Person| p@)
}

/// An episode: its title, broadcast time, guests and page address.
#[derive(Debug)]
pub struct Entry {
    pub name: String,
    pub time: DateTime,
    pub participants: Vec<Person>,
    pub url: String,
}

/// An episode, as text.
pub struct EntryView {
    pub name: Seq<char>,
    pub time: DateTime,
    pub participants: Seq<PersonView>,
    pub url: Seq<char>,
}

impl View for Entry {
    type V = EntryView;

    open spec fn view(&self) -> EntryView {
        EntryView {
            name: self.name@,
            time: self.time,
            participants: persons_view(self.participants@),
            url: self.url@,
        }
    }
}

/// The views of a list of episodes.
pub open spec fn entries_view(v: Seq<Entry>) -> Seq<EntryView> {
    v.map_values(|e: Entry| e@)
}

} // verus!
