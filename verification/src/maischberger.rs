//! "maischberger" (Das Erste): the archive listing and the episode pages.

use vstd::prelude::*;
use crate::text::{trim, contains_seq, contains, trim_str, same, join2, concat_all, concat_strs, views_of};
use crate::person::{Person, PersonView, persons_view, opt_view, Entry, EntryView, entries_view};
use crate::time::{DateTime, chrono_parse, parse_date_time};
use crate::html::{
    CssSelector, Node, Scope, parse_document, parse_selector, css_selector_valid, select,
    select_count, element_texts, first_child_element, node_texts, node_first_child_element,
};
use crate::pattern::{Pattern, compile, captures, regex_valid, regex_captures};
use crate::compute::{ComputeCount, trim_opt};
use crate::crawl::{Event, EventView, Action, ActionView, store_order};
use crate::extract::{PageError, spec_text_of, spec_url_of, text_of, url_of, res_opt_view, group_of};

verus! {

pub const TEASERS: &'static str = ".viewA";
pub const TIME: &'static str = ".ressort";
pub const NAME: &'static str = ".headline > a";
pub const TIMEFILTER: &'static str = r"\d{2}\.\d{2}\.\d{4}";
pub const PARTICIPANTS: &'static str = "p";
pub const NEXT: &'static str = ".right > a";
pub const NAMEFILTER: &'static str = r"((?:\w|\s|-)+)(?:, (.+) )?\((.*)\)";
pub const BASE_URL: &'static str = "https://www.daserste.de";
pub const TIME_SUFFIX: &'static str = " | 22:50";
/// The number under which the show's episodes are stored.
pub const SHOW: i64 = 2i64;
pub const TIME_FORMAT: &'static str = "%d.%m.%Y | %H:%M";
pub const GUESTS_HEADING: &'static str = "G\u{e4}ste";
pub const START_URL: &'static str = "https://www.daserste.de/information/talk/maischberger/sendung/index.html";

/// Whether every selector and pattern of the show compiles.
pub open spec fn queries_valid() -> bool {
    &&& css_selector_valid(TEASERS@)
    &&& css_selector_valid(TIME@)
    &&& css_selector_valid(NAME@)
    &&& css_selector_valid(PARTICIPANTS@)
    &&& css_selector_valid(NEXT@)
    &&& regex_valid(TIMEFILTER@)
    &&& regex_valid(NAMEFILTER@)
}

/// The compiled selectors and patterns of the show.
pub struct Queries {
    teasers: CssSelector,
    time: CssSelector,
    name: CssSelector,
    participants: CssSelector,
    next: CssSelector,
    timefilter: Pattern,
    namefilter: Pattern,
}

impl Queries {
    #[verifier::type_invariant]
    closed spec fn compiled(&self) -> bool {
        &&& self.teasers@ == TEASERS@
        &&& self.time@ == TIME@
        &&& self.name@ == NAME@
        &&& self.participants@ == PARTICIPANTS@
        &&& self.next@ == NEXT@
        &&& self.timefilter@ == TIMEFILTER@
        &&& self.namefilter@ == NAMEFILTER@
    }

    /// Compiles the selectors and patterns; `Err(InvalidQuery)` exactly when
    /// one of them is rejected.
    pub fn new() -> (res: Result<Queries, PageError>)
        ensures
            res is Ok <==> queries_valid(),
            res matches Err(e) ==> e == PageError::InvalidQuery,
    {
        let teasers = parse_selector(TEASERS);
        let time = parse_selector(TIME);
        let name = parse_selector(NAME);
        let participants = parse_selector(PARTICIPANTS);
        let next = parse_selector(NEXT);
        let timefilter = compile(TIMEFILTER);
        let namefilter = compile(NAMEFILTER);
        match (teasers, time, name, participants, next, timefilter, namefilter) {
            (
                Some(teasers),
                Some(time),
                Some(name),
                Some(participants),
                Some(next),
                Some(timefilter),
                Some(namefilter),
            ) => Ok(Queries { teasers, time, name, participants, next, timefilter, namefilter }),
            _ => Err(PageError::InvalidQuery),
        }
    }
}

/// An episode as the archive listing shows it.
pub struct Teaser {
    pub name: String,
    pub time: DateTime,
    pub url: String,
}

pub struct TeaserView {
    pub name: Seq<char>,
    pub time: DateTime,
    pub url: Seq<char>,
}

impl View for Teaser {
    type V = TeaserView;

    open spec fn view(&self) -> TeaserView {
        TeaserView { name: self.name@, time: self.time, url: self.url@ }
    }
}

/// One page of the archive listing.
pub struct Listing {
    pub teasers: Vec<Teaser>,
    pub next: Option<String>,
}

pub struct ListingView {
    pub teasers: Seq<TeaserView>,
    pub next: Option<Seq<char>>,
}

impl View for Listing {
    type V = ListingView;

    open spec fn view(&self) -> ListingView {
        ListingView { teasers: self.teasers@.map_values(|t: Teaser| t@), next: opt_view(self.next) }
    }
}

/// The view of a listing or failure.
pub open spec fn listing_result_view(r: Result<Listing, PageError>) -> Result<ListingView, PageError> {
    match r {
        Ok(l) => Ok(l@),
        Err(e) => Err(e),
    }
}

/// The path of the `i`-th teaser of a listing.
pub open spec fn teaser_path(i: nat) -> Seq<(Seq<char>, nat)> {
    Seq::<(Seq<char>, nat)>::empty().push((TEASERS@, i))
}

/// The broadcast time that the date line `line` gives: its first date,
/// at 22:50.
pub open spec fn spec_time(line: Seq<char>) -> Result<DateTime, PageError> {
    match group_of(regex_captures(TIMEFILTER@, line), 0) {
        None => Err(PageError::NoMatch),
        Some(date) => match chrono_parse(date + TIME_SUFFIX@, TIME_FORMAT@) {
            None => Err(PageError::BadTime),
            Some(t) => Ok(t),
        },
    }
}

/// The `i`-th episode of the listing page `doc`.
pub open spec fn spec_teaser(doc: Seq<char>, i: nat) -> Result<TeaserView, PageError> {
    let p = teaser_path(i);
    match spec_text_of(doc, p, NAME@) {
        Err(e) => Err(e),
        Ok(name) => match spec_text_of(doc, p, TIME@) {
            Err(e) => Err(e),
            Ok(line) => match spec_time(line) {
                Err(e) => Err(e),
                Ok(time) => match spec_url_of(doc, p, NAME@, BASE_URL@) {
                    Err(e) => Err(e),
                    Ok(None) => Err(PageError::MissingElement),
                    Ok(Some(url)) => Ok(TeaserView { name, time, url }),
                },
            },
        },
    }
}

/// The first `n` episodes of the listing page `doc`, or the first failure.
pub open spec fn spec_teasers(doc: Seq<char>, n: nat) -> Result<Seq<TeaserView>, PageError>
    decreases n,
{
    if n == 0 {
        Ok(Seq::empty())
    } else {
        match spec_teasers(doc, (n - 1) as nat) {
            Err(e) => Err(e),
            Ok(ts) => match spec_teaser(doc, (n - 1) as nat) {
                Err(e) => Err(e),
                Ok(t) => Ok(ts.push(t)),
            },
        }
    }
}

/// The listing page `doc`.
pub open spec fn spec_listing(doc: Seq<char>) -> Result<ListingView, PageError> {
    match spec_teasers(doc, select_count(doc, Seq::empty(), TEASERS@)) {
        Err(e) => Err(e),
        Ok(teasers) => match spec_url_of(doc, Seq::empty(), NEXT@, BASE_URL@) {
            Err(e) => Err(e),
            Ok(next) => Ok(ListingView { teasers, next }),
        },
    }
}

/// Reads the broadcast time from a date line.
fn read_time(q: &Queries, line: &str) -> (res: Result<DateTime, PageError>)
    ensures
        match res {
            Ok(t) => spec_time(line@) == Ok::<DateTime, PageError>(t),
            Err(e) => spec_time(line@) == Err::<DateTime, PageError>(e),
        },
{
    proof {
        use_type_invariant(q);
    }
    let found = captures(&q.timefilter, line);
    let date = match found.get_text_internal(0) {
        Some(d) => d,
        None => return Err(PageError::NoMatch),
    };
    let text = join2(date, TIME_SUFFIX);
    match parse_date_time(text.as_str(), TIME_FORMAT) {
        Some(t) => Ok(t),
        None => Err(PageError::BadTime),
    }
}

fn read_teaser<'a>(q: &Queries, teaser: Node<'a>) -> (res: Result<Teaser, PageError>)
    requires
        teaser@.1 == teaser_path(teaser@.1.last().1),
    ensures
        match res {
            Ok(t) => spec_teaser(teaser@.0, teaser@.1.last().1) == Ok::<TeaserView, PageError>(
                t@,
            ),
            Err(e) => spec_teaser(teaser@.0, teaser@.1.last().1) == Err::<TeaserView, PageError>(
                e,
            ),
        },
{
    proof {
        use_type_invariant(q);
    }
    let scope = Scope::Elem(teaser);
    let name = text_of(&scope, &q.name)?;
    let line = text_of(&scope, &q.time)?;
    let time = read_time(q, line)?;
    let url = match url_of(&scope, &q.name, BASE_URL)? {
        Some(u) => u,
        None => return Err(PageError::MissingElement),
    };
    Ok(Teaser { name: name.to_owned(), time, url })
}

proof fn lemma_teasers_err_stays(doc: Seq<char>, k: nat, n: nat)
    requires
        k <= n,
        spec_teasers(doc, k) is Err,
    ensures
        spec_teasers(doc, n) == spec_teasers(doc, k),
    decreases n - k,
{
    if k < n {
        lemma_teasers_err_stays(doc, k, (n - 1) as nat);
    }
}

/// Reads one page of the archive listing: its episodes, in page order, and
/// the link to the next page.
pub fn parse_listing(q: &Queries, body: &str) -> (res: Result<Listing, PageError>)
    ensures
        listing_result_view(res) == spec_listing(body@),
{
    let doc = parse_document(body);
    let scope = Scope::Doc(&doc);
    proof {
        use_type_invariant(q);
    }
    let nodes = select(&scope, &q.teasers);
    let n = nodes.len();
    let mut teasers: Vec<Teaser> = Vec::new();
    let mut i: usize = 0;
    proof {
        assert(teasers@.map_values(|t: Teaser| t@) =~= Seq::<TeaserView>::empty());
    }
    while i < n
        invariant
            n == nodes@.len(),
            n == select_count(body@, Seq::empty(), TEASERS@),
            q.teasers@ == TEASERS@,
            forall|j: int|
                0 <= j < n ==> (#[trigger] nodes@[j])@ == (body@, teaser_path(j as nat)),
            i <= n,
            spec_teasers(body@, i as nat) == Ok::<Seq<TeaserView>, PageError>(
                teasers@.map_values(|t: Teaser| t@),
            ),
        decreases n - i,
    {
        let node = nodes[i];
        let t = match read_teaser(q, node) {
            Ok(t) => t,
            Err(e) => {
                proof {
                    lemma_teasers_err_stays(body@, (i + 1) as nat, n as nat);
                }
                return Err(e);
            },
        };
        let ghost before = teasers@;
        teasers.push(t);
        proof {
            assert(teasers@.map_values(|t: Teaser| t@) =~= before.map_values(|t: Teaser| t@).push(
                t@,
            ));
        }
        i = i + 1;
    }
    let next = url_of(&scope, &q.next, BASE_URL)?;
    Ok(Listing { teasers, next })
}

/// The guest, if any, that a paragraph of an episode page names: a bold
/// paragraph reading "Name, Party (Title)", where the paragraph is not the
/// guest-list heading and not empty.
pub open spec fn spec_paragraph_guest(bold_text: Option<Seq<char>>) -> Result<Option<PersonView>, PageError> {
    match bold_text {
        None => Ok(None),
        Some(all) => {
            let line = trim(all);
            if contains_seq(line, GUESTS_HEADING@) || line.len() == 0 {
                Ok(None)
            } else {
                let c = regex_captures(NAMEFILTER@, line);
                if c is None {
                    Err(PageError::NoMatch)
                } else {
                    match trim_opt(group_of(c, 1)) {
                        None => Err(PageError::NoMatch),
                        Some(name) => Ok(
                            Some(
                                PersonView {
                                    name,
                                    title: trim_opt(group_of(c, 3)),
                                    party: trim_opt(group_of(c, 2)),
                                    biografie: None,
                                    image_url: None,
                                },
                            ),
                        ),
                    }
                }
            }
        },
    }
}

/// The text of the paragraph at `path`, where the paragraph opens with a
/// bold element.
pub open spec fn bold_text(doc: Seq<char>, path: Seq<(Seq<char>, nat)>) -> Option<Seq<char>> {
    if first_child_element(doc, path) == Some("strong"@) {
        Some(concat_all(element_texts(doc, path)))
    } else {
        None
    }
}

/// The path of the `i`-th paragraph of an episode page.
pub open spec fn paragraph_path(i: nat) -> Seq<(Seq<char>, nat)> {
    Seq::<(Seq<char>, nat)>::empty().push((PARTICIPANTS@, i))
}

/// The guests named by the first `n` paragraphs of the episode page `doc`,
/// or the first failure.
pub open spec fn spec_guests_upto(doc: Seq<char>, n: nat) -> Result<Seq<PersonView>, PageError>
    decreases n,
{
    if n == 0 {
        Ok(Seq::empty())
    } else {
        match spec_guests_upto(doc, (n - 1) as nat) {
            Err(e) => Err(e),
            Ok(ps) => match spec_paragraph_guest(bold_text(doc, paragraph_path((n - 1) as nat))) {
                Err(e) => Err(e),
                Ok(None) => Ok(ps),
                Ok(Some(p)) => Ok(ps.push(p)),
            },
        }
    }
}

/// The guests of the episode page `doc`.
pub open spec fn spec_guests(doc: Seq<char>) -> Result<Seq<PersonView>, PageError> {
    spec_guests_upto(doc, select_count(doc, Seq::empty(), PARTICIPANTS@))
}

/// The view of a guest list or failure.
pub open spec fn persons_result_view(r: Result<Vec<Person>, PageError>) -> Result<
    Seq<PersonView>,
    PageError,
> {
    match r {
        Ok(v) => Ok(persons_view(v@)),
        Err(e) => Err(e),
    }
}

/// Reads the guest, if any, named by a paragraph.
pub fn paragraph_guest(q: &Queries, bold: Option<String>) -> (res: Result<Option<Person>, PageError>)
    ensures
        match res {
            Ok(Some(p)) => spec_paragraph_guest(opt_view(bold)) == Ok::<Option<PersonView>, PageError>(
                Some(p@),
            ),
            Ok(None) => spec_paragraph_guest(opt_view(bold)) == Ok::<Option<PersonView>, PageError>(
                None,
            ),
            Err(e) => spec_paragraph_guest(opt_view(bold)) == Err::<Option<PersonView>, PageError>(
                e,
            ),
        },
{
    proof {
        use_type_invariant(q);
    }
    let all = match bold {
        None => return Ok(None),
        Some(a) => a,
    };
    let line = trim_str(all.as_str());
    if contains(line, GUESTS_HEADING) || line.unicode_len() == 0 {
        return Ok(None);
    }
    let c = match captures(&q.namefilter, line) {
        Some(c) => c,
        None => return Err(PageError::NoMatch),
    };
    let name = match c.get_string_count(1) {
        Some(n) => n,
        None => return Err(PageError::NoMatch),
    };
    let party = c.get_string_count(2);
    let title = c.get_string_count(3);
    Ok(Some(Person { name, title, party, biografie: None, image_url: None }))
}

proof fn lemma_guests_err_stays(doc: Seq<char>, k: nat, n: nat)
    requires
        k <= n,
        spec_guests_upto(doc, k) is Err,
    ensures
        spec_guests_upto(doc, n) == spec_guests_upto(doc, k),
    decreases n - k,
{
    if k < n {
        lemma_guests_err_stays(doc, k, (n - 1) as nat);
    }
}

/// Reads the guests from an episode page: one per bold paragraph.
pub fn parse_guests(q: &Queries, body: &str) -> (res: Result<Vec<Person>, PageError>)
    ensures
        persons_result_view(res) == spec_guests(body@),
{
    proof {
        use_type_invariant(q);
    }
    let doc = parse_document(body);
    let scope = Scope::Doc(&doc);
    let nodes = select(&scope, &q.participants);
    let n = nodes.len();
    let mut persons: Vec<Person> = Vec::new();
    let mut i: usize = 0;
    proof {
        assert(persons_view(persons@) =~= Seq::<PersonView>::empty());
    }
    while i < n
        invariant
            n == nodes@.len(),
            n == select_count(body@, Seq::empty(), PARTICIPANTS@),
            q.participants@ == PARTICIPANTS@,
            forall|j: int|
                0 <= j < n ==> (#[trigger] nodes@[j])@ == (body@, paragraph_path(j as nat)),
            i <= n,
            spec_guests_upto(body@, i as nat) == Ok::<Seq<PersonView>, PageError>(
                persons_view(persons@),
            ),
        decreases n - i,
    {
        let node = nodes[i];
        let strong = match node_first_child_element(&node) {
            Some(e) => same(e, "strong"),
            None => false,
        };
        let bold = if strong {
            let texts = node_texts(&node);
            Some(concat_strs(&texts))
        } else {
            None
        };
        proof {
            assert(opt_view(bold) == bold_text(body@, paragraph_path(i as nat)));
        }
        match paragraph_guest(q, bold) {
            Err(e) => {
                proof {
                    lemma_guests_err_stays(body@, (i + 1) as nat, n as nat);
                }
                return Err(e);
            },
            Ok(None) => {},
            Ok(Some(p)) => {
                let ghost before = persons@;
                persons.push(p);
                proof {
                    assert(persons_view(persons@) =~= persons_view(before).push(p@));
                }
            },
        }
        i = i + 1;
    }
    Ok(persons)
}


/// Where the crawl of the archive stands.
#[derive(PartialEq, Eq, Structural, Clone, Copy, Debug)]
pub enum Phase {
    /// Waiting for a listing page.
    Listing,
    /// Waiting for the page of the current episode.
    Detail,
    /// Waiting to learn whether the last episode read is already stored.
    Lookup,
    /// Over.
    Done,
}

/// The crawl of the archive: listing page after listing page, each episode
/// completed with the guests of its page, until an episode that is already
/// stored, or the last page, is reached.
pub struct MaischbergerCrawl {
    queries: Queries,
    phase: Phase,
    results: Vec<Entry>,
    teasers: Vec<Teaser>,
    current: usize,
    next: Option<String>,
}

pub struct CrawlView {
    pub phase: Phase,
    pub results: Seq<EntryView>,
    pub teasers: Seq<TeaserView>,
    pub current: nat,
    pub next: Option<Seq<char>>,
}

impl View for MaischbergerCrawl {
    type V = CrawlView;

    closed spec fn view(&self) -> CrawlView {
        CrawlView {
            phase: self.phase,
            results: entries_view(self.results@),
            teasers: self.teasers@.map_values(|t: Teaser| t@),
            current: self.current as nat,
            next: opt_view(self.next),
        }
    }
}

/// Whether the crawl can take `e` in state `s`.
pub open spec fn accepts(s: CrawlView, e: EventView) -> bool {
    match s.phase {
        Phase::Listing | Phase::Detail => e is Page,
        Phase::Lookup => e is Known,
        Phase::Done => false,
    }
}

/// The consistent states of the crawl.
pub open spec fn crawl_wf(s: CrawlView) -> bool {
    &&& s.current <= s.teasers.len()
    &&& s.phase == Phase::Detail ==> s.current < s.teasers.len()
}

/// The crawl stopped by a failure.
pub open spec fn failed(s: CrawlView, e: PageError) -> (CrawlView, ActionView) {
    (CrawlView { phase: Phase::Done, ..s }, ActionView::Fail(e))
}

/// On to the next episode of the page, else ask whether the last episode
/// read is stored.
pub open spec fn advance(s: CrawlView) -> (CrawlView, ActionView) {
    if s.current < s.teasers.len() {
        (CrawlView { phase: Phase::Detail, ..s }, ActionView::FetchAnyStatus(s.teasers[s.current as int].url))
    } else if s.results.len() == 0 {
        failed(s, PageError::MissingElement)
    } else {
        (CrawlView { phase: Phase::Lookup, ..s }, ActionView::Lookup(s.results.last().url))
    }
}

/// The episode of teaser `t` with guests `ps`.
pub open spec fn entry_of(t: TeaserView, ps: Seq<PersonView>) -> EntryView {
    EntryView { name: t.name, time: t.time, participants: ps, url: t.url }
}

/// One step of the crawl: the state and request after event `e`.
pub open spec fn spec_step(s: CrawlView, e: EventView) -> (CrawlView, ActionView) {
    match e {
        EventView::Page(body) => if s.phase == Phase::Listing {
            match spec_listing(body) {
                Err(x) => failed(s, x),
                Ok(l) => advance(CrawlView { teasers: l.teasers, current: 0, next: l.next, ..s }),
            }
        } else {
            match spec_guests(body) {
                Err(x) => failed(s, x),
                Ok(ps) => advance(
                    CrawlView {
                        results: s.results.push(entry_of(s.teasers[s.current as int], ps)),
                        current: s.current + 1,
                        ..s
                    },
                ),
            }
        },
        EventView::Known(known) => if known || s.next is None {
            (
                CrawlView { phase: Phase::Done, results: Seq::empty(), ..s },
                ActionView::Finish(s.results.reverse()),
            )
        } else {
            (CrawlView { phase: Phase::Listing, ..s }, ActionView::Fetch(s.next->0))
        },
    }
}

impl MaischbergerCrawl {
    /// The crawl before anything is read, and its first request: the first
    /// listing page.
    pub fn new() -> (res: Result<(MaischbergerCrawl, Action), PageError>)
        ensures
            res is Ok <==> queries_valid(),
            res matches Err(e) ==> e == PageError::InvalidQuery,
            res matches Ok((c, a)) ==> {
                &&& crawl_wf(c@)
                &&& c@.phase == Phase::Listing
                &&& c@.results.len() == 0
                &&& a@ == ActionView::Fetch(START_URL@)
            },
    {
        let queries = Queries::new()?;
        let c = MaischbergerCrawl {
            queries,
            phase: Phase::Listing,
            results: Vec::new(),
            teasers: Vec::new(),
            current: 0,
            next: None,
        };
        proof {
            assert(entries_view(c.results@) =~= Seq::<EntryView>::empty());
        }
        Ok((c, Action::Fetch(START_URL.to_owned())))
    }

    /// Whether the crawl is over.
    pub fn is_done(&self) -> (res: bool)
        ensures
            res == (self@.phase == Phase::Done),
    {
        self.phase == Phase::Done
    }

    /// Whether the crawl can take `e` now.
    pub fn accepts(&self, e: &Event) -> (res: bool)
        ensures
            res == accepts(self@, e@),
    {
        match (self.phase, e) {
            (Phase::Listing, Event::Page(_)) => true,
            (Phase::Detail, Event::Page(_)) => true,
            (Phase::Lookup, Event::Known(_)) => true,
            _ => false,
        }
    }

    fn fail(&mut self, e: PageError) -> (res: Action)
        ensures
            (final(self)@, res@) == failed(old(self)@, e),
    {
        self.phase = Phase::Done;
        Action::Fail(e)
    }

    fn advance(&mut self) -> (res: Action)
        requires
            old(self)@.current <= old(self)@.teasers.len(),
        ensures
            crawl_wf(final(self)@),
            (final(self)@, res@) == advance(old(self)@),
    {
        if self.current < self.teasers.len() {
            self.phase = Phase::Detail;
            Action::FetchAnyStatus(self.teasers[self.current].url.clone())
        } else if self.results.len() == 0 {
            self.fail(PageError::MissingElement)
        } else {
            self.phase = Phase::Lookup;
            let last = self.results.len() - 1;
            proof {
                assert(entries_view(self.results@).last() == self.results@[last as int]@);
            }
            Action::Lookup(self.results[last].url.clone())
        }
    }

    /// Takes event `e` and gives the next request.
    pub fn step(&mut self, e: Event) -> (res: Action)
        requires
            crawl_wf(old(self)@),
            accepts(old(self)@, e@),
        ensures
            crawl_wf(final(self)@),
            (final(self)@, res@) == spec_step(old(self)@, e@),
    {
        match e {
            Event::Page(body) => {
                if self.phase == Phase::Listing {
                    match parse_listing(&self.queries, body.as_str()) {
                        Err(x) => self.fail(x),
                        Ok(l) => {
                            self.teasers = l.teasers;
                            self.current = 0;
                            self.next = l.next;
                            self.advance()
                        },
                    }
                } else {
                    match parse_guests(&self.queries, body.as_str()) {
                        Err(x) => self.fail(x),
                        Ok(ps) => {
                            let n = self.teasers.len();
                            let t = &self.teasers[self.current];
                            let entry = Entry {
                                name: t.name.clone(),
                                time: t.time,
                                participants: ps,
                                url: t.url.clone(),
                            };
                            let ghost before = self.results@;
                            self.results.push(entry);
                            proof {
                                assert(entries_view(self.results@) =~= entries_view(before).push(
                                    self.results@.last()@,
                                ));
                            }
                            self.current = self.current + 1;
                            self.advance()
                        },
                    }
                }
            },
            Event::Known(known) => match &self.next {
                Some(n) if !known => {
                    let u = n.clone();
                    self.phase = Phase::Listing;
                    Action::Fetch(u)
                },
                _ => {
                    self.phase = Phase::Done;
                    let mut results: Vec<Entry> = Vec::new();
                    std::mem::swap(&mut results, &mut self.results);
                    proof {
                        assert(entries_view(self.results@) =~= Seq::<EntryView>::empty());
                    }
                    Action::Finish(store_order(results))
                },
            },
        }
    }
}


/// Once the last episode read is found to be stored already, the crawl
/// ends and hands over the episodes read, the last one first; where there
/// is no further listing page, it ends whatever the answer.
pub proof fn law_crawl_ends(s: CrawlView, known: bool)
    requires
        s.phase == Phase::Lookup,
    ensures
        (known || s.next is None) ==> spec_step(s, EventView::Known(known)).1 == ActionView::Finish(
            s.results.reverse(),
        ),
        (known || s.next is None) ==> spec_step(s, EventView::Known(known)).0.phase == Phase::Done,
        (s.next is Some && !known) ==> spec_step(s, EventView::Known(known)).1 == ActionView::Fetch(
            s.next->0,
        ),
{
}

} // verus!
