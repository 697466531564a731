//! "hart aber fair" (WDR): the list of episodes and the episode pages.

use vstd::prelude::*;
use crate::text::{trim, replace_all, replace, trim_str, join2};
use crate::person::{Person, PersonView, persons_view, opt_view, opt_str_view, Entry, EntryView, entries_view};
use crate::time::{DateTime, chrono_parse, parse_date_time};
use crate::html::{
    CssSelector, Node, Scope, parse_document, parse_selector, css_selector_valid, select,
    select_count, element_attr, node_attr,
};
use crate::pattern::{Pattern, compile, captures, regex_valid, regex_captures, captures_view};
use crate::compute::{ComputeCount, trim_opt};
use crate::crawl::{Event, EventView, Action, ActionView, store_order};
use crate::extract::{
    PageError, spec_text_of, spec_opt_text_of, text_of, opt_text_of, first_node, res_str_view,
    group_of, text_at,
};

verus! {

pub const TEASERS: &'static str = ".teaser > a";
pub const TIME: &'static str = ".teaser > a > p > .mediaDate";
pub const TITLE: &'static str = ".teaser  > a > h4";
pub const PARTICIPANTS: &'static str = ".modConStage > .modMini .teaser > a";
pub const SOURCE: &'static str = "picure > source";
pub const NAME: &'static str = "h4";
pub const DETAILS: &'static str = "p";
pub const NAMEFILTER: &'static str = r"^\s?(?:\w+\.\s)*((?:\w|\s|-)+)(?:\(\d+\))?(?:, (.+))?\s?$";
pub const EINZELGESPRAECH: &'static str = r"^\s?(?:\w|\s)+:\s+((?:\w|\s|-)+)(?:\(\d+\))?\s?$";
pub const BASE_URL: &'static str = "https://www1.wdr.de";
pub const START_URL: &'static str = "https://www1.wdr.de/daserste/hartaberfair/sendungen/index.html";
pub const DEFAULT_DATE: &'static str = "25.05.2020";
pub const TIME_SUFFIX: &'static str = " | 21:00";
/// The number under which the show's episodes are stored.
pub const SHOW: i64 = 1i64;
pub const TIME_FORMAT: &'static str = "%d.%m.%Y | %H:%M";
pub const DEFAULT_TITLE: &'static str = "Kinder und Eltern zuletzt - scheitern Schulen an Corona?";

/// Whether every selector and pattern of the show compiles.
pub open spec fn queries_valid() -> bool {
    &&& css_selector_valid(TEASERS@)
    &&& css_selector_valid(TIME@)
    &&& css_selector_valid(TITLE@)
    &&& css_selector_valid(PARTICIPANTS@)
    &&& css_selector_valid(SOURCE@)
    &&& css_selector_valid(NAME@)
    &&& css_selector_valid(DETAILS@)
    &&& regex_valid(NAMEFILTER@)
    &&& regex_valid(EINZELGESPRAECH@)
}

/// The compiled selectors and patterns of the show.
pub struct Queries {
    teasers: CssSelector,
    time: CssSelector,
    title: CssSelector,
    participants: CssSelector,
    source: CssSelector,
    name: CssSelector,
    details: CssSelector,
    namefilter: Pattern,
    einzelgespraech: Pattern,
}

impl Queries {
    #[verifier::type_invariant]
    closed spec fn compiled(&self) -> bool {
        &&& self.teasers@ == TEASERS@
        &&& self.time@ == TIME@
        &&& self.title@ == TITLE@
        &&& self.participants@ == PARTICIPANTS@
        &&& self.source@ == SOURCE@
        &&& self.name@ == NAME@
        &&& self.details@ == DETAILS@
        &&& self.namefilter@ == NAMEFILTER@
        &&& self.einzelgespraech@ == EINZELGESPRAECH@
    }

    /// Compiles the selectors and patterns; `Err(InvalidQuery)` exactly when
    /// one of them is rejected.
    pub fn new() -> (res: Result<Queries, PageError>)
        ensures
            res is Ok <==> queries_valid(),
            res matches Err(e) ==> e == PageError::InvalidQuery,
    {
        let teasers = parse_selector(TEASERS);
        let time = parse_selector(TIME);
        let title = parse_selector(TITLE);
        let participants = parse_selector(PARTICIPANTS);
        let source = parse_selector(SOURCE);
        let name = parse_selector(NAME);
        let details = parse_selector(DETAILS);
        let namefilter = compile(NAMEFILTER);
        let einzelgespraech = compile(EINZELGESPRAECH);
        match (teasers, time, title, participants, source, name, details, namefilter, einzelgespraech) {
            (
                Some(teasers),
                Some(time),
                Some(title),
                Some(participants),
                Some(source),
                Some(name),
                Some(details),
                Some(namefilter),
                Some(einzelgespraech),
            ) => Ok(
                Queries {
                    teasers,
                    time,
                    title,
                    participants,
                    source,
                    name,
                    details,
                    namefilter,
                    einzelgespraech,
                },
            ),
            _ => Err(PageError::InvalidQuery),
        }
    }
}

/// The path of the `i`-th teaser of the episode list.
pub open spec fn teaser_path(i: nat) -> Seq<(Seq<char>, nat)> {
    Seq::<(Seq<char>, nat)>::empty().push((TEASERS@, i))
}

/// The addresses of the first `n` episodes of the list page `doc`, or the
/// first failure.
pub open spec fn spec_links(doc: Seq<char>, n: nat) -> Result<Seq<Seq<char>>, PageError>
    decreases n,
{
    if n == 0 {
        Ok(Seq::empty())
    } else {
        match spec_links(doc, (n - 1) as nat) {
            Err(e) => Err(e),
            Ok(ls) => match element_attr(doc, teaser_path((n - 1) as nat), "href"@) {
                None => Err(PageError::MissingAttribute),
                Some(h) => Ok(ls.push(BASE_URL@ + h)),
            },
        }
    }
}

/// The addresses of the episodes on the list page `doc`.
pub open spec fn spec_listing(doc: Seq<char>) -> Result<Seq<Seq<char>>, PageError> {
    spec_links(doc, select_count(doc, Seq::empty(), TEASERS@))
}

/// The view of a list of addresses or failure.
pub open spec fn links_result_view(r: Result<Vec<String>, PageError>) -> Result<Seq<Seq<char>>, PageError> {
    match r {
        Ok(v) => Ok(v@.map_values(|s: String| s@)),
        Err(e) => Err(e),
    }
}

proof fn lemma_links_err_stays(doc: Seq<char>, k: nat, n: nat)
    requires
        k <= n,
        spec_links(doc, k) is Err,
    ensures
        spec_links(doc, n) == spec_links(doc, k),
    decreases n - k,
{
    if k < n {
        lemma_links_err_stays(doc, k, (n - 1) as nat);
    }
}

/// Reads the addresses of the episodes from the list page.
pub fn parse_listing(q: &Queries, body: &str) -> (res: Result<Vec<String>, PageError>)
    ensures
        links_result_view(res) == spec_listing(body@),
{
    proof {
        use_type_invariant(q);
    }
    let doc = parse_document(body);
    let nodes = select(&Scope::Doc(&doc), &q.teasers);
    let n = nodes.len();
    let mut links: Vec<String> = Vec::new();
    let mut i: usize = 0;
    proof {
        assert(links@.map_values(|s: String| s@) =~= Seq::<Seq<char>>::empty());
    }
    while i < n
        invariant
            n == nodes@.len(),
            n == select_count(body@, Seq::empty(), TEASERS@),
            forall|j: int|
                0 <= j < n ==> (#[trigger] nodes@[j])@ == (body@, teaser_path(j as nat)),
            i <= n,
            spec_links(body@, i as nat) == Ok::<Seq<Seq<char>>, PageError>(
                links@.map_values(|s: String| s@),
            ),
        decreases n - i,
    {
        let href = match node_attr(&nodes[i], "href") {
            Some(h) => h,
            None => {
                proof {
                    lemma_links_err_stays(body@, (i + 1) as nat, n as nat);
                }
                return Err(PageError::MissingAttribute);
            },
        };
        let link = join2(BASE_URL, href);
        let ghost before = links@;
        links.push(link);
        proof {
            assert(links@.map_values(|s: String| s@) =~= before.map_values(|s: String| s@).push(
                link@,
            ));
        }
        i = i + 1;
    }
    Ok(links)
}

/// The portrait address of the guest at `path`: the `srcset` of its first
/// picture source, behind the site address.
pub open spec fn spec_image(doc: Seq<char>, path: Seq<(Seq<char>, nat)>) -> Option<Seq<char>> {
    if select_count(doc, path, SOURCE@) == 0 {
        None
    } else {
        match element_attr(doc, path.push((SOURCE@, 0)), "srcset"@) {
            Some(s) => Some(BASE_URL@ + s),
            None => None,
        }
    }
}

/// The guest teaser at `path` of the episode page `doc`: the name line
/// "Name, Party" or "Topic: Name", the details line without bars, and the
/// portrait.
pub open spec fn spec_guest(doc: Seq<char>, path: Seq<(Seq<char>, nat)>) -> Result<PersonView, PageError> {
    match spec_text_of(doc, path, NAME@) {
        Err(e) => Err(e),
        Ok(line) => {
            let first = regex_captures(NAMEFILTER@, line);
            let c = if first is Some {
                first
            } else {
                regex_captures(EINZELGESPRAECH@, line)
            };
            match trim_opt(group_of(c, 1)) {
                None => Err(PageError::NoMatch),
                Some(name) => Ok(
                    PersonView {
                        name,
                        title: match spec_opt_text_of(doc, path, DETAILS@) {
                            Some(t) => Some(replace_all(t, "|"@, ""@)),
                            None => None,
                        },
                        party: trim_opt(group_of(c, 2)),
                        biografie: None,
                        image_url: spec_image(doc, path),
                    },
                ),
            }
        },
    }
}

/// The path of the `i`-th guest teaser of an episode page.
pub open spec fn guest_path(i: nat) -> Seq<(Seq<char>, nat)> {
    Seq::<(Seq<char>, nat)>::empty().push((PARTICIPANTS@, i))
}

/// The first `n` guests of the episode page `doc`, or the first failure.
pub open spec fn spec_guests_upto(doc: Seq<char>, n: nat) -> Result<Seq<PersonView>, PageError>
    decreases n,
{
    if n == 0 {
        Ok(Seq::empty())
    } else {
        match spec_guests_upto(doc, (n - 1) as nat) {
            Err(e) => Err(e),
            Ok(ps) => match spec_guest(doc, guest_path((n - 1) as nat)) {
                Err(e) => Err(e),
                Ok(p) => Ok(ps.push(p)),
            },
        }
    }
}

/// The broadcast time of the episode page `doc`: its date (or, where it
/// has none, 25.05.2020) at 21:00.
pub open spec fn spec_time(doc: Seq<char>) -> Result<DateTime, PageError> {
    let date = match spec_opt_text_of(doc, Seq::empty(), TIME@) {
        Some(d) => d,
        None => DEFAULT_DATE@,
    };
    match chrono_parse(date + TIME_SUFFIX@, TIME_FORMAT@) {
        None => Err(PageError::BadTime),
        Some(t) => Ok(t),
    }
}

/// The title of the episode page `doc`: the third text of its first title
/// element, or a fixed title where there is none.
pub open spec fn spec_title(doc: Seq<char>) -> Seq<char> {
    let t = if select_count(doc, Seq::empty(), TITLE@) == 0 {
        None
    } else {
        trim_opt(text_at(doc, Seq::<(Seq<char>, nat)>::empty().push((TITLE@, 0)), 2))
    };
    match t {
        Some(s) => s,
        None => DEFAULT_TITLE@,
    }
}

/// The episode at address `url` whose page is `doc`.
pub open spec fn spec_entry(url: Seq<char>, doc: Seq<char>) -> Result<EntryView, PageError> {
    match spec_time(doc) {
        Err(e) => Err(e),
        Ok(time) => match spec_guests_upto(doc, select_count(doc, Seq::empty(), PARTICIPANTS@)) {
            Err(e) => Err(e),
            Ok(participants) => Ok(EntryView { name: spec_title(doc), time, participants, url }),
        },
    }
}

fn read_guest<'a>(q: &Queries, node: Node<'a>) -> (res: Result<Person, PageError>)
    ensures
        match res {
            Ok(p) => spec_guest(node@.0, node@.1) == Ok::<PersonView, PageError>(p@),
            Err(e) => spec_guest(node@.0, node@.1) == Err::<PersonView, PageError>(e),
        },
{
    proof {
        use_type_invariant(q);
        reveal_strlit("|");
    }
    let scope = Scope::Elem(node);
    let line = text_of(&scope, &q.name)?;
    let first = captures(&q.namefilter, line);
    let parts = if first.is_some() {
        first
    } else {
        captures(&q.einzelgespraech, line)
    };
    let name = match parts.get_string_count(1) {
        Some(n) => n,
        None => return Err(PageError::NoMatch),
    };
    let party = parts.get_string_count(2);
    let title = match opt_text_of(&scope, &q.details) {
        Some(t) => Some(replace(t, "|", "")),
        None => None,
    };
    let image_url = match first_node(&scope, &q.source) {
        Some(s) => match node_attr(&s, "srcset") {
            Some(src) => Some(join2(BASE_URL, src)),
            None => None,
        },
        None => None,
    };
    Ok(Person { name, title, party, biografie: None, image_url })
}

proof fn lemma_guests_err_stays(doc: Seq<char>, k: nat, n: nat)
    requires
        k <= n,
        spec_guests_upto(doc, k) is Err,
    ensures
        spec_guests_upto(doc, n) == spec_guests_upto(doc, k),
    decreases n - k,
{
    if k < n {
        lemma_guests_err_stays(doc, k, (n - 1) as nat);
    }
}

/// The view of an episode or failure.
pub open spec fn entry_result_view(r: Result<Entry, PageError>) -> Result<EntryView, PageError> {
    match r {
        Ok(e) => Ok(e@),
        Err(e) => Err(e),
    }
}

/// Reads the episode at address `url` from its page.
pub fn parse_entry(q: &Queries, url: String, body: &str) -> (res: Result<Entry, PageError>)
    ensures
        entry_result_view(res) == spec_entry(url@, body@),
{
    proof {
        use_type_invariant(q);
    }
    let doc = parse_document(body);
    let scope = Scope::Doc(&doc);
    let date = match opt_text_of(&scope, &q.time) {
        Some(d) => d,
        None => DEFAULT_DATE,
    };
    let crafted = join2(date, TIME_SUFFIX);
    let time = match parse_date_time(crafted.as_str(), TIME_FORMAT) {
        Some(t) => t,
        None => return Err(PageError::BadTime),
    };
    let title_node = first_node(&scope, &q.title);
    let title = match &title_node {
        Some(t) => t.get_string_count(2),
        None => None,
    };
    let name = match title {
        Some(t) => t,
        None => DEFAULT_TITLE.to_owned(),
    };
    let nodes = select(&scope, &q.participants);
    let n = nodes.len();
    let mut participants: Vec<Person> = Vec::new();
    let mut i: usize = 0;
    proof {
        assert(persons_view(participants@) =~= Seq::<PersonView>::empty());
    }
    while i < n
        invariant
            n == nodes@.len(),
            n == select_count(body@, Seq::empty(), PARTICIPANTS@),
            forall|j: int|
                0 <= j < n ==> (#[trigger] nodes@[j])@ == (body@, guest_path(j as nat)),
            i <= n,
            spec_guests_upto(body@, i as nat) == Ok::<Seq<PersonView>, PageError>(
                persons_view(participants@),
            ),
            spec_time(body@) == Ok::<DateTime, PageError>(time),
            name@ == spec_title(body@),
        decreases n - i,
    {
        let p = match read_guest(q, nodes[i]) {
            Ok(p) => p,
            Err(e) => {
                proof {
                    lemma_guests_err_stays(body@, (i + 1) as nat, n as nat);
                }
                return Err(e);
            },
        };
        let ghost before = participants@;
        participants.push(p);
        proof {
            assert(persons_view(participants@) =~= persons_view(before).push(p@));
        }
        i = i + 1;
    }
    Ok(Entry { name, time, participants, url })
}


/// Where the crawl stands.
#[derive(PartialEq, Eq, Structural, Clone, Copy, Debug)]
pub enum Phase {
    /// Waiting for the episode list.
    Listing,
    /// Waiting for the page of the current episode.
    Detail,
    /// Over.
    Done,
}

/// The crawl of the show: the episode list, then each episode page.
pub struct HartAberFairCrawl {
    queries: Queries,
    phase: Phase,
    results: Vec<Entry>,
    links: Vec<String>,
    current: usize,
}

pub struct CrawlView {
    pub phase: Phase,
    pub results: Seq<EntryView>,
    pub links: Seq<Seq<char>>,
    pub current: nat,
}

impl View for HartAberFairCrawl {
    type V = CrawlView;

    closed spec fn view(&self) -> CrawlView {
        CrawlView {
            phase: self.phase,
            results: entries_view(self.results@),
            links: self.links@.map_values(|s: String| s@),
            current: self.current as nat,
        }
    }
}

/// Whether the crawl can take `e` in state `s`.
pub open spec fn accepts(s: CrawlView, e: EventView) -> bool {
    s.phase != Phase::Done && e is Page
}

/// The consistent states of the crawl.
pub open spec fn crawl_wf(s: CrawlView) -> bool {
    &&& s.current <= s.links.len()
    &&& s.phase == Phase::Detail ==> s.current < s.links.len()
}

/// On to the next episode page, else hand over the episodes, the last one
/// read first.
pub open spec fn advance(s: CrawlView) -> (CrawlView, ActionView) {
    if s.current < s.links.len() {
        (CrawlView { phase: Phase::Detail, ..s }, ActionView::Fetch(s.links[s.current as int]))
    } else {
        (
            CrawlView { phase: Phase::Done, results: Seq::empty(), ..s },
            ActionView::Finish(s.results.reverse()),
        )
    }
}

/// One step of the crawl: the state and request after event `e`.
pub open spec fn spec_step(s: CrawlView, e: EventView) -> (CrawlView, ActionView) {
    match e {
        EventView::Page(body) => if s.phase == Phase::Listing {
            match spec_listing(body) {
                Err(x) => (CrawlView { phase: Phase::Done, ..s }, ActionView::Fail(x)),
                Ok(links) => advance(CrawlView { links, current: 0, ..s }),
            }
        } else {
            match spec_entry(s.links[s.current as int], body) {
                Err(x) => (CrawlView { phase: Phase::Done, ..s }, ActionView::Fail(x)),
                Ok(entry) => advance(
                    CrawlView { results: s.results.push(entry), current: s.current + 1, ..s },
                ),
            }
        },
        EventView::Known(_) => (s, ActionView::Fail(PageError::MissingElement)),
    }
}

impl HartAberFairCrawl {
    /// The crawl before anything is read, and its first request: the
    /// episode list.
    pub fn new() -> (res: Result<(HartAberFairCrawl, Action), PageError>)
        ensures
            res is Ok <==> queries_valid(),
            res matches Err(e) ==> e == PageError::InvalidQuery,
            res matches Ok((c, a)) ==> {
                &&& crawl_wf(c@)
                &&& c@.phase == Phase::Listing
                &&& c@.results.len() == 0
                &&& a@ == ActionView::Fetch(START_URL@)
            },
    {
        let queries = Queries::new()?;
        let c = HartAberFairCrawl {
            queries,
            phase: Phase::Listing,
            results: Vec::new(),
            links: Vec::new(),
            current: 0,
        };
        proof {
            assert(entries_view(c.results@) =~= Seq::<EntryView>::empty());
        }
        Ok((c, Action::Fetch(START_URL.to_owned())))
    }

    /// Whether the crawl is over.
    pub fn is_done(&self) -> (res: bool)
        ensures
            res == (self@.phase == Phase::Done),
    {
        self.phase == Phase::Done
    }

    /// Whether the crawl can take `e` now.
    pub fn accepts(&self, e: &Event) -> (res: bool)
        ensures
            res == accepts(self@, e@),
    {
        self.phase != Phase::Done && match e {
            Event::Page(_) => true,
            Event::Known(_) => false,
        }
    }

    fn advance(&mut self) -> (res: Action)
        requires
            old(self)@.current <= old(self)@.links.len(),
        ensures
            crawl_wf(final(self)@),
            (final(self)@, res@) == advance(old(self)@),
    {
        if self.current < self.links.len() {
            self.phase = Phase::Detail;
            Action::Fetch(self.links[self.current].clone())
        } else {
            self.phase = Phase::Done;
            let mut results: Vec<Entry> = Vec::new();
            std::mem::swap(&mut results, &mut self.results);
            proof {
                assert(entries_view(self.results@) =~= Seq::<EntryView>::empty());
            }
            Action::Finish(store_order(results))
        }
    }

    /// Takes event `e` and gives the next request.
    pub fn step(&mut self, e: Event) -> (res: Action)
        requires
            crawl_wf(old(self)@),
            accepts(old(self)@, e@),
        ensures
            crawl_wf(final(self)@),
            (final(self)@, res@) == spec_step(old(self)@, e@),
    {
        match e {
            Event::Page(body) => {
                if self.phase == Phase::Listing {
                    match parse_listing(&self.queries, body.as_str()) {
                        Err(x) => {
                            self.phase = Phase::Done;
                            Action::Fail(x)
                        },
                        Ok(links) => {
                            self.links = links;
                            self.current = 0;
                            self.advance()
                        },
                    }
                } else {
                    proof {
                        assert(self.current < self.links.len());
                    }
                    let url = self.links[self.current].clone();
                    match parse_entry(&self.queries, url, body.as_str()) {
                        Err(x) => {
                            self.phase = Phase::Done;
                            Action::Fail(x)
                        },
                        Ok(entry) => {
                            let ghost before = self.results@;
                            self.results.push(entry);
                            proof {
                                assert(entries_view(self.results@) =~= entries_view(before).push(
                                    self.results@.last()@,
                                ));
                            }
                            self.current = self.current + 1;
                            self.advance()
                        },
                    }
                }
            },
            Event::Known(_) => Action::Fail(PageError::MissingElement),
        }
    }
}


/// The episodes handed over at the end are all the episodes read, the last
/// one first: reversed, they begin with the episodes read before this step.
pub proof fn law_finish_keeps_reading_order(s: CrawlView, e: EventView)
    requires
        crawl_wf(s),
        accepts(s, e),
        spec_step(s, e).1 is Finish,
    ensures
        spec_step(s, e).1->Finish_0.reverse().take(s.results.len() as int) == s.results,
{
    let x = spec_step(s, e).1->Finish_0;
    let body = e->Page_0;
    if s.phase == Phase::Listing {
        assert(x == s.results.reverse());
    } else {
        let r = s.results.push(spec_entry(s.links[s.current as int], body)->Ok_0);
        assert(x == r.reverse());
    }
    assert(x.reverse().take(s.results.len() as int) =~= s.results);
}

} // verus!
