//! "Anne Will" (Das Erste): the archive listing, the episode pages and the
//! guest pages.

use vstd::prelude::*;
use crate::text::{trim, split_by, contains_seq, contains, split, trim_str, views_of, same, join2};
use crate::person::{Person, PersonView, persons_view, opt_view, opt_str_view, clone_opt, owned};
use crate::time::{DateTime, chrono_parse, parse_date_time};
use crate::html::{
    CssSelector, Document, Node, Scope, parse_document, parse_selector, css_selector_valid,
    select, select_count, element_name, element_texts, element_attr, first_child_element,
    prev_sibling_element, node_name, node_attr, node_first_child_element,
    node_prev_sibling_element, node_texts,
};
use crate::pattern::{Pattern, Captures, compile, captures, regex_valid, regex_captures, captures_view};
use crate::compute::{ComputeCount, trim_opt};
use crate::crawl::{Event, EventView, Action, ActionView, store_order};
use crate::person::{Entry, EntryView, entries_view};
use crate::extract::{
    PageError, spec_text_of, spec_url_of, text_of, url_of, first_node, first_text, res_str_view,
    res_opt_view, text_at, group_of,
};

verus! {

pub const TEASERS: &'static str = ".teaser";
pub const TIME: &'static str = ".dachzeile > a";
pub const NAME: &'static str = ".headline > a";
pub const PARTICIPANTS: &'static str = ".teasertext > a";
pub const NEXT: &'static str = ".next > a";
pub const BOX: &'static str = ".box";
pub const PERSONS: &'static str = ".box > h3, .box > p, .box > p > strong, .box img";
pub const NAMEFILTER: &'static str = r"((?:\w|\s|-)*)(?:\((\w*)\))?";
pub const NAMES: &'static str = r"Mit ((?:\w|\s|-|,)+), (?:((?:\w|\s|-)+) und )?((?:\w|\s|-)+)";
pub const BASE_URL: &'static str = "https://daserste.ndr.de";
/// The number under which the show's episodes are stored.
pub const SHOW: i64 = 0i64;
pub const TIME_FORMAT: &'static str = "%d.%m.%y | %H:%M Uhr";
pub const GUESTS_MARK: &'static str = "Gaeste";
pub const START_URL: &'static str = "https://daserste.ndr.de/annewill/archiv/index.html";

/// Whether every selector and pattern of the show compiles.
pub open spec fn queries_valid() -> bool {
    &&& css_selector_valid(TEASERS@)
    &&& css_selector_valid(TIME@)
    &&& css_selector_valid(NAME@)
    &&& css_selector_valid(PARTICIPANTS@)
    &&& css_selector_valid(NEXT@)
    &&& css_selector_valid(BOX@)
    &&& css_selector_valid(PERSONS@)
    &&& regex_valid(NAMEFILTER@)
    &&& regex_valid(NAMES@)
}

/// The compiled selectors and patterns of the show.
pub struct Queries {
    teasers: CssSelector,
    time: CssSelector,
    name: CssSelector,
    participants: CssSelector,
    next: CssSelector,
    boxes: CssSelector,
    persons: CssSelector,
    namefilter: Pattern,
    names: Pattern,
}

impl Queries {
    #[verifier::type_invariant]
    closed spec fn compiled(&self) -> bool {
        &&& self.teasers@ == TEASERS@
        &&& self.time@ == TIME@
        &&& self.name@ == NAME@
        &&& self.participants@ == PARTICIPANTS@
        &&& self.next@ == NEXT@
        &&& self.boxes@ == BOX@
        &&& self.persons@ == PERSONS@
        &&& self.namefilter@ == NAMEFILTER@
        &&& self.names@ == NAMES@
    }

    /// Compiles the selectors and patterns; `Err(InvalidQuery)` exactly when
    /// one of them is rejected.
    pub fn new() -> (res: Result<Queries, PageError>)
        ensures
            res is Ok <==> queries_valid(),
            res matches Err(e) ==> e == PageError::InvalidQuery,
    {
        let teasers = parse_selector(TEASERS);
        let time = parse_selector(TIME);
        let name = parse_selector(NAME);
        let participants = parse_selector(PARTICIPANTS);
        let next = parse_selector(NEXT);
        let boxes = parse_selector(BOX);
        let persons = parse_selector(PERSONS);
        let namefilter = compile(NAMEFILTER);
        let names = compile(NAMES);
        match (teasers, time, name, participants, next, boxes, persons, namefilter, names) {
            (
                Some(teasers),
                Some(time),
                Some(name),
                Some(participants),
                Some(next),
                Some(boxes),
                Some(persons),
                Some(namefilter),
                Some(names),
            ) => Ok(
                Queries {
                    teasers,
                    time,
                    name,
                    participants,
                    next,
                    boxes,
                    persons,
                    namefilter,
                    names,
                },
            ),
            _ => Err(PageError::InvalidQuery),
        }
    }
}

/// An episode as the archive listing shows it.
pub struct Teaser {
    pub name: String,
    pub time: DateTime,
    pub participants_text: String,
    pub url: String,
}

pub struct TeaserView {
    pub name: Seq<char>,
    pub time: DateTime,
    pub participants_text: Seq<char>,
    pub url: Seq<char>,
}

impl View for Teaser {
    type V = TeaserView;

    open spec fn view(&self) -> TeaserView {
        TeaserView {
            name: self.name@,
            time: self.time,
            participants_text: self.participants_text@,
            url: self.url@,
        }
    }
}

/// One page of the archive listing: its episodes and the link to the next
/// page.
pub struct Listing {
    pub teasers: Vec<Teaser>,
    pub next: Option<String>,
}

pub struct ListingView {
    pub teasers: Seq<TeaserView>,
    pub next: Option<Seq<char>>,
}

impl View for Listing {
    type V = ListingView;

    open spec fn view(&self) -> ListingView {
        ListingView {
            teasers: self.teasers@.map_values(|t: Teaser| t@),
            next: opt_view(self.next),
        }
    }
}

/// The path of the `i`-th teaser of a listing.
pub open spec fn teaser_path(i: nat) -> Seq<(Seq<char>, nat)> {
    Seq::<(Seq<char>, nat)>::empty().push((TEASERS@, i))
}

/// The `i`-th episode of the listing page `doc`.
pub open spec fn spec_teaser(doc: Seq<char>, i: nat) -> Result<TeaserView, PageError> {
    let p = teaser_path(i);
    match spec_text_of(doc, p, NAME@) {
        Err(e) => Err(e),
        Ok(name) => match spec_text_of(doc, p, TIME@) {
            Err(e) => Err(e),
            Ok(time_text) => match chrono_parse(time_text, TIME_FORMAT@) {
                None => Err(PageError::BadTime),
                Some(time) => match spec_text_of(doc, p, PARTICIPANTS@) {
                    Err(e) => Err(e),
                    Ok(participants_text) => match spec_url_of(doc, p, NAME@, BASE_URL@) {
                        Err(e) => Err(e),
                        Ok(None) => Err(PageError::MissingElement),
                        Ok(Some(url)) => Ok(TeaserView { name, time, participants_text, url }),
                    },
                },
            },
        },
    }
}

/// The first `n` episodes of the listing page `doc`, or the first failure.
pub open spec fn spec_teasers(doc: Seq<char>, n: nat) -> Result<Seq<TeaserView>, PageError>
    decreases n,
{
    if n == 0 {
        Ok(Seq::empty())
    } else {
        match spec_teasers(doc, (n - 1) as nat) {
            Err(e) => Err(e),
            Ok(ts) => match spec_teaser(doc, (n - 1) as nat) {
                Err(e) => Err(e),
                Ok(t) => Ok(ts.push(t)),
            },
        }
    }
}

/// The listing page `doc`: all its episodes and the link to the next page.
pub open spec fn spec_listing(doc: Seq<char>) -> Result<ListingView, PageError> {
    match spec_teasers(doc, select_count(doc, Seq::empty(), TEASERS@)) {
        Err(e) => Err(e),
        Ok(teasers) => match spec_url_of(doc, Seq::empty(), NEXT@, BASE_URL@) {
            Err(e) => Err(e),
            Ok(next) => Ok(ListingView { teasers, next }),
        },
    }
}

/// Reads one episode of a listing.
fn read_teaser<'a>(q: &Queries, teaser: Node<'a>) -> (res: Result<Teaser, PageError>)
    requires
        teaser@.1 == teaser_path(teaser@.1.last().1),
    ensures
        match res {
            Ok(t) => spec_teaser(teaser@.0, teaser@.1.last().1) == Ok::<TeaserView, PageError>(
                t@,
            ),
            Err(e) => spec_teaser(teaser@.0, teaser@.1.last().1) == Err::<TeaserView, PageError>(
                e,
            ),
        },
{
    proof {
        use_type_invariant(q);
    }
    let scope = Scope::Elem(teaser);
    let name = text_of(&scope, &q.name)?;
    let time_text = text_of(&scope, &q.time)?;
    let time = match parse_date_time(time_text, TIME_FORMAT) {
        Some(t) => t,
        None => return Err(PageError::BadTime),
    };
    let participants_text = text_of(&scope, &q.participants)?;
    let url = match url_of(&scope, &q.name, BASE_URL)? {
        Some(u) => u,
        None => return Err(PageError::MissingElement),
    };
    Ok(Teaser { name: name.to_owned(), time, participants_text: participants_text.to_owned(), url })
}


/// The view of a listing or failure.
pub open spec fn listing_result_view(r: Result<Listing, PageError>) -> Result<ListingView, PageError> {
    match r {
        Ok(l) => Ok(l@),
        Err(e) => Err(e),
    }
}

/// Once the episodes fail to read, reading more of them fails the same way.
proof fn lemma_teasers_err_stays(doc: Seq<char>, k: nat, n: nat)
    requires
        k <= n,
        spec_teasers(doc, k) is Err,
    ensures
        spec_teasers(doc, n) == spec_teasers(doc, k),
    decreases n - k,
{
    if k < n {
        lemma_teasers_err_stays(doc, k, (n - 1) as nat);
    }
}

/// Reads one page of the archive listing: its episodes, in page order, and
/// the link to the next page.
pub fn parse_listing(q: &Queries, body: &str) -> (res: Result<Listing, PageError>)
    ensures
        listing_result_view(res) == spec_listing(body@),
{
    let doc = parse_document(body);
    let scope = Scope::Doc(&doc);
    proof {
        use_type_invariant(q);
    }
    let nodes = select(&scope, &q.teasers);
    let n = nodes.len();
    let mut teasers: Vec<Teaser> = Vec::new();
    let mut i: usize = 0;
    proof {
        assert(teasers@.map_values(|t: Teaser| t@) =~= Seq::<TeaserView>::empty());
    }
    while i < n
        invariant
            n == nodes@.len(),
            n == select_count(body@, Seq::empty(), TEASERS@),
            q.teasers@ == TEASERS@,
            forall|j: int|
                0 <= j < n ==> (#[trigger] nodes@[j])@ == (body@, teaser_path(j as nat)),
            i <= n,
            spec_teasers(body@, i as nat) == Ok::<Seq<TeaserView>, PageError>(
                teasers@.map_values(|t: Teaser| t@),
            ),
        decreases n - i,
    {
        let node = nodes[i];
        proof {
            assert(node@.1.last().1 == i as nat);
        }
        let t = match read_teaser(q, node) {
            Ok(t) => t,
            Err(e) => {
                proof {
                    lemma_teasers_err_stays(body@, (i + 1) as nat, n as nat);
                }
                return Err(e);
            },
        };
        let ghost before = teasers@;
        teasers.push(t);
        proof {
            assert(teasers@.map_values(|t: Teaser| t@) =~= before.map_values(|t: Teaser| t@).push(
                t@,
            ));
        }
        i = i + 1;
    }
    let next = url_of(&scope, &q.next, BASE_URL)?;
    Ok(Listing { teasers, next })
}

/// The link to the guest page on an episode page `doc`: the link of the
/// first participants teaser, where it leads to the guests.
pub open spec fn spec_guests_link(doc: Seq<char>) -> Result<Option<Seq<char>>, PageError> {
    match spec_url_of(doc, Seq::empty(), PARTICIPANTS@, BASE_URL@) {
        Err(e) => Err(e),
        Ok(None) => Ok(None),
        Ok(Some(u)) => Ok(
            if contains_seq(u, GUESTS_MARK@) {
                Some(u)
            } else {
                None
            },
        ),
    }
}

/// Reads the link to the guest page from an episode page.
pub fn guests_link(q: &Queries, body: &str) -> (res: Result<Option<String>, PageError>)
    ensures
        res_opt_view(res) == spec_guests_link(body@),
{
    proof {
        use_type_invariant(q);
    }
    let doc = parse_document(body);
    let scope = Scope::Doc(&doc);
    match url_of(&scope, &q.participants, BASE_URL)? {
        None => Ok(None),
        Some(u) => {
            if contains(u.as_str(), GUESTS_MARK) {
                Ok(Some(u))
            } else {
                Ok(None)
            }
        },
    }
}


/// What one element of the guest box contributes to the guest list.
pub enum GuestItem {
    /// A heading: the guest's name and party, as its text reads.
    Heading { name: Option<String>, party: Option<String> },
    /// A biography paragraph: its second text and, for an empty one, its
    /// third text.
    Biography { text: Option<String>, fallback: Option<String> },
    /// A portrait: the image source.
    Image { src: Option<String> },
    /// A bold line: a name where it follows a line break, else a title.
    Strong { after_break: bool, text: Option<String> },
    /// An element that contributes nothing.
    Other,
}

pub enum GuestItemView {
    Heading { name: Option<Seq<char>>, party: Option<Seq<char>> },
    Biography { text: Option<Seq<char>>, fallback: Option<Seq<char>> },
    Image { src: Option<Seq<char>> },
    Strong { after_break: bool, text: Option<Seq<char>> },
    Other,
}

impl View for GuestItem {
    type V = GuestItemView;

    open spec fn view(&self) -> GuestItemView {
        match self {
            GuestItem::Heading { name, party } => GuestItemView::Heading {
                name: opt_view(*name),
                party: opt_view(*party),
            },
            GuestItem::Biography { text, fallback } => GuestItemView::Biography {
                text: opt_view(*text),
                fallback: opt_view(*fallback),
            },
            GuestItem::Image { src } => GuestItemView::Image { src: opt_view(*src) },
            GuestItem::Strong { after_break, text } => GuestItemView::Strong {
                after_break: *after_break,
                text: opt_view(*text),
            },
            GuestItem::Other => GuestItemView::Other,
        }
    }
}

/// The guest list being read: the guest details seen since the last
/// biography, and the guests completed so far.
pub struct GuestState {
    pub name: Option<Seq<char>>,
    pub title: Option<Seq<char>>,
    pub party: Option<Seq<char>>,
    pub image_url: Option<Seq<char>>,
    pub persons: Seq<PersonView>,
}

/// Nothing read yet.
pub open spec fn guest_start() -> GuestState {
    GuestState { name: None, title: None, party: None, image_url: None, persons: Seq::empty() }
}

/// The guest list after one more element of the guest box.
pub open spec fn guest_step(st: GuestState, item: GuestItemView) -> Result<GuestState, PageError> {
    match item {
        GuestItemView::Heading { name, party } => Ok(GuestState { name, party, ..st }),
        GuestItemView::Biography { text, fallback } => match text {
            None => Err(PageError::MissingText),
            Some(b) => {
                let bio = if b.len() == 0 {
                    match fallback {
                        Some(f) => f,
                        None => Seq::empty(),
                    }
                } else {
                    b
                };
                match st.name {
                    None => Err(PageError::MissingName),
                    Some(n) => Ok(
                        GuestState {
                            name: None,
                            title: None,
                            party: None,
                            image_url: None,
                            persons: st.persons.push(
                                PersonView {
                                    name: n,
                                    title: st.title,
                                    party: st.party,
                                    biografie: Some(bio),
                                    image_url: st.image_url,
                                },
                            ),
                        },
                    ),
                }
            },
        },
        GuestItemView::Image { src } => match src {
            None => Err(PageError::MissingAttribute),
            Some(s) => Ok(GuestState { image_url: Some(BASE_URL@ + s), ..st }),
        },
        GuestItemView::Strong { after_break, text } => match text {
            None => Err(PageError::MissingText),
            Some(t) => if after_break {
                Ok(GuestState { name: Some(t), ..st })
            } else {
                Ok(GuestState { title: Some(t), ..st })
            },
        },
        GuestItemView::Other => Ok(st),
    }
}

/// The guest list after all of `items`, or the first failure.
pub open spec fn guest_fold(items: Seq<GuestItemView>) -> Result<GuestState, PageError>
    decreases items.len(),
{
    if items.len() == 0 {
        Ok(guest_start())
    } else {
        match guest_fold(items.drop_last()) {
            Err(e) => Err(e),
            Ok(st) => guest_step(st, items.last()),
        }
    }
}

/// The guests that `items` describe.
pub open spec fn spec_guests_from_items(items: Seq<GuestItemView>) -> Result<Seq<PersonView>, PageError> {
    match guest_fold(items) {
        Err(e) => Err(e),
        Ok(st) => Ok(st.persons),
    }
}

/// The view of a guest list or failure.
pub open spec fn persons_result_view(r: Result<Vec<Person>, PageError>) -> Result<
    Seq<PersonView>,
    PageError,
> {
    match r {
        Ok(v) => Ok(persons_view(v@)),
        Err(e) => Err(e),
    }
}

proof fn lemma_guest_fold_err_stays(items: Seq<GuestItemView>, k: int)
    requires
        0 <= k <= items.len(),
        guest_fold(items.take(k)) is Err,
    ensures
        guest_fold(items) == guest_fold(items.take(k)),
    decreases items.len() - k,
{
    if k < items.len() {
        assert(items.take(k + 1).drop_last() =~= items.take(k));
        lemma_guest_fold_err_stays(items, k + 1);
    } else {
        assert(items.take(k) =~= items);
    }
}

/// Reads the guests from the elements of a guest box, in order: each
/// biography completes a guest from the name, title, party and portrait
/// seen since the previous one.
pub fn guests_from_items(items: &Vec<GuestItem>) -> (res: Result<Vec<Person>, PageError>)
    ensures
        persons_result_view(res) == spec_guests_from_items(items@.map_values(|g: GuestItem| g@)),
{
    let ghost views = items@.map_values(|g: GuestItem| g@);
    let mut name: Option<String> = None;
    let mut title: Option<String> = None;
    let mut party: Option<String> = None;
    let mut image_url: Option<String> = None;
    let mut persons: Vec<Person> = Vec::new();
    let mut i: usize = 0;
    proof {
        assert(views.take(0) =~= Seq::<GuestItemView>::empty());
        assert(persons_view(persons@) =~= Seq::<PersonView>::empty());
    }
    while i < items.len()
        invariant
            views == items@.map_values(|g: GuestItem| g@),
            i <= items@.len(),
            guest_fold(views.take(i as int)) == Ok::<GuestState, PageError>(
                GuestState {
                    name: opt_view(name),
                    title: opt_view(title),
                    party: opt_view(party),
                    image_url: opt_view(image_url),
                    persons: persons_view(persons@),
                },
            ),
        decreases items.len() - i,
    {
        proof {
            assert(views.take(i + 1).drop_last() =~= views.take(i as int));
            assert(views.take(i + 1).last() == items@[i as int]@);
        }
        match &items[i] {
            GuestItem::Heading { name: n, party: p } => {
                name = clone_opt(n);
                party = clone_opt(p);
            },
            GuestItem::Biography { text, fallback } => {
                let b = match text {
                    Some(b) => b,
                    None => {
                        proof {
                            lemma_guest_fold_err_stays(views, i + 1);
                            assert(views.take(views.len() as int) =~= views);
                        }
                        return Err(PageError::MissingText);
                    },
                };
                let bio = if b.as_str().unicode_len() == 0 {
                    match fallback {
                        Some(f) => f.clone(),
                        None => String::new(),
                    }
                } else {
                    b.clone()
                };
                let n = match name.take() {
                    Some(n) => n,
                    None => {
                        proof {
                            lemma_guest_fold_err_stays(views, i + 1);
                            assert(views.take(views.len() as int) =~= views);
                        }
                        return Err(PageError::MissingName);
                    },
                };
                let ghost before = persons@;
                persons.push(
                    Person {
                        name: n,
                        title: title.take(),
                        party: party.take(),
                        biografie: Some(bio),
                        image_url: image_url.take(),
                    },
                );
                proof {
                    assert(persons_view(persons@) =~= persons_view(before).push(persons@.last()@));
                }
            },
            GuestItem::Image { src } => {
                match src {
                    Some(s) => {
                        image_url = Some(join2(BASE_URL, s.as_str()));
                    },
                    None => {
                        proof {
                            lemma_guest_fold_err_stays(views, i + 1);
                            assert(views.take(views.len() as int) =~= views);
                        }
                        return Err(PageError::MissingAttribute);
                    },
                }
            },
            GuestItem::Strong { after_break, text } => {
                let t = match text {
                    Some(t) => t.clone(),
                    None => {
                        proof {
                            lemma_guest_fold_err_stays(views, i + 1);
                            assert(views.take(views.len() as int) =~= views);
                        }
                        return Err(PageError::MissingText);
                    },
                };
                if *after_break {
                    name = Some(t);
                } else {
                    title = Some(t);
                }
            },
            GuestItem::Other => {},
        }
        i = i + 1;
    }
    proof {
        assert(views.take(items@.len() as int) =~= views);
    }
    Ok(persons)
}


/// What the element at `path` of the guest page `doc` contributes.
pub open spec fn spec_guest_item(doc: Seq<char>, path: Seq<(Seq<char>, nat)>) -> GuestItemView {
    let tag = element_name(doc, path);
    if tag == "h3"@ {
        match first_text(doc, path) {
            None => GuestItemView::Other,
            Some(t) => {
                let c = regex_captures(NAMEFILTER@, t);
                GuestItemView::Heading {
                    name: trim_opt(group_of(c, 1)),
                    party: trim_opt(group_of(c, 2)),
                }
            },
        }
    } else if tag == "p"@ {
        if first_child_element(doc, path) == Some("em"@) {
            GuestItemView::Biography {
                text: trim_opt(text_at(doc, path, 1)),
                fallback: trim_opt(text_at(doc, path, 2)),
            }
        } else {
            GuestItemView::Other
        }
    } else if tag == "img"@ {
        GuestItemView::Image { src: element_attr(doc, path, "src"@) }
    } else if tag == "strong"@ {
        GuestItemView::Strong {
            after_break: prev_sibling_element(doc, path) == Some("br"@),
            text: trim_opt(text_at(doc, path, 0)),
        }
    } else {
        GuestItemView::Other
    }
}

/// Reads what one element of the guest box contributes.
pub fn guest_item<'a>(q: &Queries, node: Node<'a>) -> (res: GuestItem)
    ensures
        res@ == spec_guest_item(node@.0, node@.1),
{
    proof {
        use_type_invariant(q);
    }
    let tag = node_name(&node);
    if same(tag, "h3") {
        let texts = node_texts(&node);
        if texts.len() > 0 {
            proof {
                assert(texts@[0]@ == element_texts(node@.0, node@.1)[0]);
            }
            let parts = captures(&q.namefilter, texts[0]);
            GuestItem::Heading { name: parts.get_string_count(1), party: parts.get_string_count(2) }
        } else {
            GuestItem::Other
        }
    } else if same(tag, "p") {
        let is_biografie = match node_first_child_element(&node) {
            Some(e) => same(e, "em"),
            None => false,
        };
        if is_biografie {
            GuestItem::Biography { text: node.get_string_count(1), fallback: node.get_string_count(2) }
        } else {
            GuestItem::Other
        }
    } else if same(tag, "img") {
        GuestItem::Image { src: owned(node_attr(&node, "src")) }
    } else if same(tag, "strong") {
        let after_break = match node_prev_sibling_element(&node) {
            Some(e) => same(e, "br"),
            None => false,
        };
        GuestItem::Strong { after_break, text: node.get_string() }
    } else {
        GuestItem::Other
    }
}

/// The path of the guest box on a guest page.
pub open spec fn box_path() -> Seq<(Seq<char>, nat)> {
    Seq::<(Seq<char>, nat)>::empty().push((BOX@, 0))
}

/// The guest page `doc`: the guests in its first guest box.
pub open spec fn spec_guests(doc: Seq<char>) -> Result<Seq<PersonView>, PageError> {
    if select_count(doc, Seq::empty(), BOX@) == 0 {
        Err(PageError::MissingElement)
    } else {
        spec_guests_from_items(
            Seq::new(
                select_count(doc, box_path(), PERSONS@),
                |i: int| spec_guest_item(doc, box_path().push((PERSONS@, i as nat))),
            ),
        )
    }
}

/// Reads the guests from a guest page.
pub fn parse_guests(q: &Queries, body: &str) -> (res: Result<Vec<Person>, PageError>)
    ensures
        persons_result_view(res) == spec_guests(body@),
{
    proof {
        use_type_invariant(q);
    }
    let doc = parse_document(body);
    let scope = Scope::Doc(&doc);
    let guest_box = match first_node(&scope, &q.boxes) {
        Some(b) => b,
        None => return Err(PageError::MissingElement),
    };
    let nodes = select(&Scope::Elem(guest_box), &q.persons);
    let mut items: Vec<GuestItem> = Vec::new();
    let mut i: usize = 0;
    while i < nodes.len()
        invariant
            q.persons@ == PERSONS@,
            guest_box@ == (body@, box_path()),
            nodes@.len() == select_count(body@, box_path(), PERSONS@),
            forall|j: int|
                0 <= j < nodes@.len() ==> (#[trigger] nodes@[j])@ == (body@, box_path().push(
                    (PERSONS@, j as nat),
                )),
            i <= nodes@.len(),
            items@.len() == i,
            forall|j: int|
                0 <= j < i ==> (#[trigger] items@[j])@ == spec_guest_item(
                    body@,
                    box_path().push((PERSONS@, j as nat)),
                ),
        decreases nodes.len() - i,
    {
        let item = guest_item(q, nodes[i]);
        items.push(item);
        i = i + 1;
    }
    proof {
        assert(items@.map_values(|g: GuestItem| g@) =~= Seq::new(
            select_count(body@, box_path(), PERSONS@),
            |i: int| spec_guest_item(body@, box_path().push((PERSONS@, i as nat))),
        ));
    }
    guests_from_items(&items)
}


/// A guest of whom only the name is known.
pub open spec fn name_only(n: Seq<char>) -> PersonView {
    PersonView { name: n, title: None, party: None, biografie: None, image_url: None }
}

/// The trimmed pieces of a comma-separated list of names.
pub open spec fn trimmed_pieces(list: Seq<char>) -> Seq<Seq<char>> {
    split_by(list, ", "@).map_values(|p: Seq<char>| trim(p))
}

/// The guest names that the participants line of a teaser gives: the names
/// of "Mit A, B, C und D", else the whole line as one name.
pub open spec fn spec_names(text: Seq<char>) -> Result<Seq<Seq<char>>, PageError> {
    let c = regex_captures(NAMES@, text);
    if c is None {
        Ok(seq![trim(text)])
    } else {
        match trim_opt(group_of(c, 1)) {
            None => Err(PageError::NoMatch),
            Some(list) => {
                let second = match trim_opt(group_of(c, 2)) {
                    Some(g) => seq![g],
                    None => Seq::empty(),
                };
                match trim_opt(group_of(c, 3)) {
                    None => Err(PageError::NoMatch),
                    Some(last) => Ok(trimmed_pieces(list) + second + seq![last]),
                }
            },
        }
    }
}

/// The guests that the participants line of a teaser gives.
pub open spec fn spec_participants(text: Seq<char>) -> Result<Seq<PersonView>, PageError> {
    match spec_names(text) {
        Err(e) => Err(e),
        Ok(names) => Ok(names.map_values(|n: Seq<char>| name_only(n))),
    }
}

/// A guest of whom only the name is known.
fn person_named(name: String) -> (res: Person)
    ensures
        res@ == name_only(name@),
{
    Person { name, title: None, party: None, biografie: None, image_url: None }
}

/// Reads the guests from the participants line of a teaser, for episodes
/// without a guest page.
pub fn participants_from_text(q: &Queries, text: &str) -> (res: Result<Vec<Person>, PageError>)
    ensures
        persons_result_view(res) == spec_participants(text@),
{
    proof {
        use_type_invariant(q);
    }
    let c = captures(&q.names, text);
    let mut persons: Vec<Person> = Vec::new();
    match c {
        None => {
            persons.push(person_named(trim_str(text).to_owned()));
            proof {
                assert(persons_view(persons@) =~= seq![trim(text@)].map_values(
                    |n: Seq<char>| name_only(n),
                ));
            }
            Ok(persons)
        },
        Some(caps) => {
            let list = match caps.get_text_count(1) {
                Some(l) => l,
                None => return Err(PageError::NoMatch),
            };
            proof {
                reveal_strlit(", ");
            }
            let pieces = split(list, ", ");
            let ghost names = trimmed_pieces(list@);
            let mut k: usize = 0;
            while k < pieces.len()
                invariant
                    views_of(pieces@) == split_by(list@, ", "@),
                    names == trimmed_pieces(list@),
                    k <= pieces@.len(),
                    persons_view(persons@) == names.take(k as int).map_values(
                        |n: Seq<char>| name_only(n),
                    ),
                decreases pieces.len() - k,
            {
                let ghost before = persons@;
                let p = person_named(trim_str(pieces[k]).to_owned());
                let ghost pv = p@;
                persons.push(p);
                proof {
                    assert(views_of(pieces@)[k as int] == pieces@[k as int]@);
                    assert(names[k as int] == trim(pieces@[k as int]@));
                    assert(pv == name_only(names[k as int]));
                    assert(persons_view(persons@) =~= persons_view(before).push(pv));
                    assert(names.take(k + 1) =~= names.take(k as int).push(names[k as int]));
                    assert(persons_view(persons@) =~= names.take(k + 1).map_values(
                        |n: Seq<char>| name_only(n),
                    ));
                }
                k = k + 1;
            }
            let ghost so_far = persons@;
            let second = caps.get_string_count(2);
            let ghost second_names: Seq<Seq<char>> = match opt_view(second) {
                Some(g) => seq![g],
                None => Seq::empty(),
            };
            proof {
                assert(names.take(pieces@.len() as int) =~= names);
                assert(persons_view(so_far) =~= names.map_values(|n: Seq<char>| name_only(n)));
            }
            match second {
                Some(g) => {
                    let p = person_named(g);
                    let ghost pv = p@;
                    persons.push(p);
                    proof {
                        assert(persons_view(persons@) =~= persons_view(so_far).push(pv));
                    }
                },
                None => {
                    proof {
                        assert(persons@ == so_far);
                    }
                },
            }
            proof {
                assert(persons_view(persons@) =~= (names + second_names).map_values(
                    |n: Seq<char>| name_only(n),
                ));
            }
            let last = match caps.get_string_count(3) {
                Some(l) => l,
                None => return Err(PageError::NoMatch),
            };
            let ghost last_view = last@;
            let ghost before = persons@;
            let p = person_named(last);
            let ghost pv = p@;
            persons.push(p);
            proof {
                assert(persons_view(persons@) =~= persons_view(before).push(pv));
                assert(persons_view(persons@) =~= (names + second_names + seq![last_view]).map_values(
                    |n: Seq<char>| name_only(n),
                ));
            }
            Ok(persons)
        },
    }
}


/// Where the crawl of the archive stands.
#[derive(PartialEq, Eq, Structural, Clone, Copy, Debug)]
pub enum Phase {
    /// Waiting for a listing page.
    Listing,
    /// Waiting for the page of the current episode.
    Detail,
    /// Waiting for the guest page of the current episode.
    Guests,
    /// Waiting to learn whether the last episode read is already stored.
    Lookup,
    /// Over.
    Done,
}

/// The crawl of the archive: listing page after listing page, each episode
/// of a page completed with its guests, until an episode that is already
/// stored, or the last page, is reached.
pub struct AnneWillCrawl {
    queries: Queries,
    phase: Phase,
    results: Vec<Entry>,
    teasers: Vec<Teaser>,
    current: usize,
    next: Option<String>,
}

pub struct CrawlView {
    pub phase: Phase,
    pub results: Seq<EntryView>,
    pub teasers: Seq<TeaserView>,
    pub current: nat,
    pub next: Option<Seq<char>>,
}

impl View for AnneWillCrawl {
    type V = CrawlView;

    closed spec fn view(&self) -> CrawlView {
        CrawlView {
            phase: self.phase,
            results: entries_view(self.results@),
            teasers: self.teasers@.map_values(|t: Teaser| t@),
            current: self.current as nat,
            next: opt_view(self.next),
        }
    }
}

/// Whether the crawl can take `e` in state `s`: a page where it waits for
/// one, an answer where it waits for one.
pub open spec fn accepts(s: CrawlView, e: EventView) -> bool {
    match s.phase {
        Phase::Listing | Phase::Detail | Phase::Guests => e is Page,
        Phase::Lookup => e is Known,
        Phase::Done => false,
    }
}

/// The consistent states of the crawl.
pub open spec fn crawl_wf(s: CrawlView) -> bool {
    &&& s.current <= s.teasers.len()
    &&& (s.phase == Phase::Detail || s.phase == Phase::Guests) ==> s.current < s.teasers.len()
}

/// The episode of teaser `t` with guests `ps`.
pub open spec fn entry_of(t: TeaserView, ps: Seq<PersonView>) -> EntryView {
    EntryView { name: t.name, time: t.time, participants: ps, url: t.url }
}

/// The crawl stopped by a failure.
pub open spec fn failed(s: CrawlView, e: PageError) -> (CrawlView, ActionView) {
    (CrawlView { phase: Phase::Done, ..s }, ActionView::Fail(e))
}

/// After an episode is complete (or a listing page read): on to the next
/// episode of the page, else ask whether the last episode read is stored.
pub open spec fn advance(s: CrawlView) -> (CrawlView, ActionView) {
    if s.current < s.teasers.len() {
        (CrawlView { phase: Phase::Detail, ..s }, ActionView::FetchAnyStatus(s.teasers[s.current as int].url))
    } else if s.results.len() == 0 {
        failed(s, PageError::MissingElement)
    } else {
        (CrawlView { phase: Phase::Lookup, ..s }, ActionView::Lookup(s.results.last().url))
    }
}

/// The current episode completed with guests `ps`.
pub open spec fn complete(s: CrawlView, ps: Seq<PersonView>) -> (CrawlView, ActionView) {
    advance(
        CrawlView {
            results: s.results.push(entry_of(s.teasers[s.current as int], ps)),
            current: s.current + 1,
            ..s
        },
    )
}

/// One step of the crawl: the state and request after event `e`.
pub open spec fn spec_step(s: CrawlView, e: EventView) -> (CrawlView, ActionView) {
    match e {
        EventView::Page(body) => match s.phase {
            Phase::Listing => match spec_listing(body) {
                Err(x) => failed(s, x),
                Ok(l) => advance(CrawlView { teasers: l.teasers, current: 0, next: l.next, ..s }),
            },
            Phase::Detail => match spec_guests_link(body) {
                Err(x) => failed(s, x),
                Ok(Some(g)) => (CrawlView { phase: Phase::Guests, ..s }, ActionView::FetchAnyStatus(g)),
                Ok(None) => match spec_participants(s.teasers[s.current as int].participants_text) {
                    Err(x) => failed(s, x),
                    Ok(ps) => complete(s, ps),
                },
            },
            _ => match spec_guests(body) {
                Err(x) => failed(s, x),
                Ok(ps) => complete(s, ps),
            },
        },
        EventView::Known(known) => if known || s.next is None {
            (
                CrawlView { phase: Phase::Done, results: Seq::empty(), ..s },
                ActionView::Finish(s.results.reverse()),
            )
        } else {
            (CrawlView { phase: Phase::Listing, ..s }, ActionView::Fetch(s.next->0))
        },
    }
}

fn clone_teaser(t: &Teaser) -> (res: Teaser)
    ensures
        res@ == t@,
{
    Teaser {
        name: t.name.clone(),
        time: t.time,
        participants_text: t.participants_text.clone(),
        url: t.url.clone(),
    }
}

impl AnneWillCrawl {
    /// The crawl before anything is read, and its first request: the first
    /// listing page. `Err(InvalidQuery)` where a selector or pattern does not
    /// compile.
    pub fn new() -> (res: Result<(AnneWillCrawl, Action), PageError>)
        ensures
            res is Ok <==> queries_valid(),
            res matches Err(e) ==> e == PageError::InvalidQuery,
            res matches Ok((c, a)) ==> {
                &&& crawl_wf(c@)
                &&& c@.phase == Phase::Listing
                &&& c@.results.len() == 0
                &&& a@ == ActionView::Fetch(START_URL@)
            },
    {
        let queries = Queries::new()?;
        let c = AnneWillCrawl {
            queries,
            phase: Phase::Listing,
            results: Vec::new(),
            teasers: Vec::new(),
            current: 0,
            next: None,
        };
        proof {
            assert(entries_view(c.results@) =~= Seq::<EntryView>::empty());
        }
        Ok((c, Action::Fetch(START_URL.to_owned())))
    }

    /// Whether the crawl is over.
    pub fn is_done(&self) -> (res: bool)
        ensures
            res == (self@.phase == Phase::Done),
    {
        self.phase == Phase::Done
    }

    /// Whether the crawl can take `e` now.
    pub fn accepts(&self, e: &Event) -> (res: bool)
        ensures
            res == accepts(self@, e@),
    {
        match (self.phase, e) {
            (Phase::Listing, Event::Page(_)) => true,
            (Phase::Detail, Event::Page(_)) => true,
            (Phase::Guests, Event::Page(_)) => true,
            (Phase::Lookup, Event::Known(_)) => true,
            _ => false,
        }
    }

    fn fail(&mut self, e: PageError) -> (res: Action)
        ensures
            (final(self)@, res@) == failed(old(self)@, e),
    {
        self.phase = Phase::Done;
        Action::Fail(e)
    }

    fn advance(&mut self) -> (res: Action)
        requires
            crawl_wf(old(self)@),
        ensures
            crawl_wf(final(self)@),
            (final(self)@, res@) == advance(old(self)@),
    {
        if self.current < self.teasers.len() {
            self.phase = Phase::Detail;
            Action::FetchAnyStatus(self.teasers[self.current].url.clone())
        } else if self.results.len() == 0 {
            self.fail(PageError::MissingElement)
        } else {
            self.phase = Phase::Lookup;
            let last = self.results.len() - 1;
            proof {
                assert(entries_view(self.results@).last() == self.results@[last as int]@);
            }
            Action::Lookup(self.results[last].url.clone())
        }
    }

    fn complete(&mut self, ps: Vec<Person>) -> (res: Action)
        requires
            crawl_wf(old(self)@),
            old(self)@.phase == Phase::Detail || old(self)@.phase == Phase::Guests,
        ensures
            crawl_wf(final(self)@),
            (final(self)@, res@) == complete(old(self)@, persons_view(ps@)),
    {
        let n = self.teasers.len();
        assert(self.current < n);
        let t = clone_teaser(&self.teasers[self.current]);
        let ghost before = self.results@;
        self.results.push(Entry { name: t.name, time: t.time, participants: ps, url: t.url });
        proof {
            assert(entries_view(self.results@) =~= entries_view(before).push(self.results@.last()@));
        }
        self.current = self.current + 1;
        self.phase = Phase::Lookup;
        self.advance()
    }

    /// Takes event `e` and gives the next request.
    pub fn step(&mut self, e: Event) -> (res: Action)
        requires
            crawl_wf(old(self)@),
            accepts(old(self)@, e@),
        ensures
            crawl_wf(final(self)@),
            (final(self)@, res@) == spec_step(old(self)@, e@),
    {
        match e {
            Event::Page(body) => {
                if self.phase == Phase::Listing {
                    match parse_listing(&self.queries, body.as_str()) {
                        Err(x) => self.fail(x),
                        Ok(l) => {
                            self.teasers = l.teasers;
                            self.current = 0;
                            self.next = l.next;
                            self.advance()
                        },
                    }
                } else if self.phase == Phase::Detail {
                    match guests_link(&self.queries, body.as_str()) {
                        Err(x) => self.fail(x),
                        Ok(Some(g)) => {
                            self.phase = Phase::Guests;
                            Action::FetchAnyStatus(g)
                        },
                        Ok(None) => {
                            let text = self.teasers[self.current].participants_text.as_str();
                            match participants_from_text(&self.queries, text) {
                                Err(x) => self.fail(x),
                                Ok(ps) => self.complete(ps),
                            }
                        },
                    }
                } else {
                    match parse_guests(&self.queries, body.as_str()) {
                        Err(x) => self.fail(x),
                        Ok(ps) => self.complete(ps),
                    }
                }
            },
            Event::Known(known) => match &self.next {
                Some(n) if !known => {
                    let u = n.clone();
                    self.phase = Phase::Listing;
                    Action::Fetch(u)
                },
                _ => {
                    proof {
                        assert(entries_view(self.results@) == old(self)@.results);
                    }
                    self.phase = Phase::Done;
                    let mut results: Vec<Entry> = Vec::new();
                    std::mem::swap(&mut results, &mut self.results);
                    proof {
                        assert(entries_view(self.results@) =~= Seq::<EntryView>::empty());
                    }
                    Action::Finish(store_order(results))
                },
            },
        }
    }
}


/// How many of `items` are biographies.
pub open spec fn biography_count(items: Seq<GuestItemView>) -> nat
    decreases items.len(),
{
    if items.len() == 0 {
        0
    } else {
        biography_count(items.drop_last()) + if items.last() is Biography {
            1nat
        } else {
            0nat
        }
    }
}

/// A guest page yields exactly one guest per biography paragraph of its
/// guest box, in the order of the biographies.
pub proof fn law_one_guest_per_biography(items: Seq<GuestItemView>)
    requires
        spec_guests_from_items(items) is Ok,
    ensures
        spec_guests_from_items(items)->Ok_0.len() == biography_count(items),
    decreases items.len(),
{
    if items.len() > 0 {
        let rest = items.drop_last();
        assert(guest_fold(rest) is Ok);
        law_one_guest_per_biography(rest);
    }
}

/// No guest detail is pending: name, title, party and portrait are unset.
pub open spec fn nothing_pending(st: GuestState) -> bool {
    &&& st.name is None
    &&& st.title is None
    &&& st.party is None
    &&& st.image_url is None
}

/// The guest list after `items`, read on from state `st`.
pub open spec fn guest_fold_from(st: GuestState, items: Seq<GuestItemView>) -> Result<GuestState, PageError>
    decreases items.len(),
{
    if items.len() == 0 {
        Ok(st)
    } else {
        match guest_fold_from(st, items.drop_last()) {
            Err(e) => Err(e),
            Ok(t) => guest_step(t, items.last()),
        }
    }
}

proof fn lemma_fold_concat(pre: Seq<GuestItemView>, seg: Seq<GuestItemView>)
    ensures
        guest_fold(pre + seg) == match guest_fold(pre) {
            Err(e) => Err(e),
            Ok(st) => guest_fold_from(st, seg),
        },
    decreases seg.len(),
{
    if seg.len() == 0 {
        assert(pre + seg =~= pre);
    } else {
        assert((pre + seg).drop_last() =~= pre + seg.drop_last());
        assert((pre + seg).last() == seg.last());
        lemma_fold_concat(pre, seg.drop_last());
        if guest_fold(pre) is Err {
            lemma_fold_err_from_concat(pre, seg);
        }
    }
}

proof fn lemma_fold_err_from_concat(pre: Seq<GuestItemView>, seg: Seq<GuestItemView>)
    requires
        guest_fold(pre) is Err,
    ensures
        guest_fold(pre + seg) == guest_fold(pre),
    decreases seg.len(),
{
    if seg.len() == 0 {
        assert(pre + seg =~= pre);
    } else {
        assert((pre + seg).drop_last() =~= pre + seg.drop_last());
        lemma_fold_err_from_concat(pre, seg.drop_last());
    }
}

/// One step from a state that differs from `u` only by the guests `p`
/// completed before: the same step, with `p` in front.
proof fn lemma_step_shift(u: GuestState, p: Seq<PersonView>, item: GuestItemView)
    ensures
        guest_step(GuestState { persons: p + u.persons, ..u }, item) == match guest_step(u, item) {
            Err(e) => Err(e),
            Ok(w) => Ok(GuestState { persons: p + w.persons, ..w }),
        },
{
    match item {
        GuestItemView::Biography { text, fallback } => {
            if text is Some && u.name is Some {
                let w = guest_step(u, item)->Ok_0;
                assert(w.persons.len() == u.persons.len() + 1);
                assert((p + u.persons).push(w.persons.last()) =~= p + w.persons);
            }
        },
        _ => {},
    }
}

proof fn lemma_fold_from_shift(st: GuestState, seg: Seq<GuestItemView>)
    requires
        nothing_pending(st),
    ensures
        guest_fold_from(st, seg) == match guest_fold_from(guest_start(), seg) {
            Err(e) => Err(e),
            Ok(u) => Ok(GuestState { persons: st.persons + u.persons, ..u }),
        },
    decreases seg.len(),
{
    if seg.len() == 0 {
        assert(st.persons + Seq::<PersonView>::empty() =~= st.persons);
        assert(GuestState { persons: st.persons, ..guest_start() } == st);
    } else {
        lemma_fold_from_shift(st, seg.drop_last());
        match guest_fold_from(guest_start(), seg.drop_last()) {
            Err(e) => {},
            Ok(u) => {
                lemma_step_shift(u, st.persons, seg.last());
            },
        }
    }
}

proof fn lemma_fold_is_fold_from_start(items: Seq<GuestItemView>)
    ensures
        guest_fold(items) == guest_fold_from(guest_start(), items),
    decreases items.len(),
{
    if items.len() > 0 {
        lemma_fold_is_fold_from_start(items.drop_last());
    }
}

/// Each biography completes a guest from what the guest box gave since the
/// previous biography alone: after a guest is completed, no name, title,
/// party or portrait is left over. So a guest box that is cut just after a
/// biography reads as its two parts read separately, the guests of the first
/// part before those of the second.
pub proof fn law_guests_read_in_parts(pre: Seq<GuestItemView>, seg: Seq<GuestItemView>)
    requires
        pre.len() == 0 || pre.last() is Biography,
        spec_guests_from_items(pre) is Ok,
    ensures
        guest_fold(pre) is Ok && nothing_pending(guest_fold(pre)->Ok_0),
        spec_guests_from_items(pre + seg) == match spec_guests_from_items(seg) {
            Err(e) => Err(e),
            Ok(g) => Ok(spec_guests_from_items(pre)->Ok_0 + g),
        },
{
    let st = guest_fold(pre)->Ok_0;
    if pre.len() > 0 {
        assert(guest_fold(pre) == guest_step(guest_fold(pre.drop_last())->Ok_0, pre.last()));
    }
    lemma_fold_concat(pre, seg);
    lemma_fold_from_shift(st, seg);
    lemma_fold_is_fold_from_start(seg);
}

/// A teaser line "Mit A, ..., B und C" names its guests in order: the
/// comma-separated names, then B (where there is an "und"), then C; a line
/// of any other form names one guest. Splitting the list and joining it
/// again gives the list back, so no part of the list is lost.
pub proof fn law_names_cover_the_list(list: Seq<char>)
    ensures
        crate::text::join(split_by(list, ", "@), ", "@) == list,
{
    reveal_strlit(", ");
    crate::text::law_join_split(list, ", "@);
}

/// Once the last episode read is found to be stored already, the crawl
/// ends and hands over the episodes read, the last one first.
pub proof fn law_stored_episode_ends_crawl(s: CrawlView)
    requires
        s.phase == Phase::Lookup,
    ensures
        spec_step(s, EventView::Known(true)).0.phase == Phase::Done,
        spec_step(s, EventView::Known(true)).1 == ActionView::Finish(s.results.reverse()),
{
}

/// Where no further listing page exists, the crawl ends after the lookup,
/// whatever its answer; otherwise an unstored last episode leads to the
/// next listing page.
pub proof fn law_last_page_ends_crawl(s: CrawlView, known: bool)
    requires
        s.phase == Phase::Lookup,
    ensures
        s.next is None ==> spec_step(s, EventView::Known(known)).1 == ActionView::Finish(
            s.results.reverse(),
        ),
        (s.next is Some && !known) ==> spec_step(s, EventView::Known(known)).1
            == ActionView::Fetch(s.next->0) && spec_step(s, EventView::Known(known)).0.phase
            == Phase::Listing,
{
}

/// Completing an episode adds exactly one episode, carrying the teaser's
/// title, time and address and the guests read, after those read before.
pub proof fn law_episode_keeps_teaser(s: CrawlView, ps: Seq<PersonView>)
    requires
        crawl_wf(s),
        s.phase == Phase::Detail || s.phase == Phase::Guests,
    ensures
        ({
            let t = s.teasers[s.current as int];
            let r = complete(s, ps).0;
            &&& r.phase != Phase::Done
            &&& r.results == s.results.push(
                EntryView { name: t.name, time: t.time, participants: ps, url: t.url },
            )
            &&& r.current == s.current + 1
        }),
{
}

} // verus!
