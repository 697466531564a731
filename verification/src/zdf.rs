//! The ZDF search: the episodes of a brand, page after page of search
//! results; and the crawl of the ZDF shows over the addresses it finds.

use vstd::prelude::*;
use crate::text::{replace_all, replace, join2, same};
use crate::person::{opt_view, Entry, EntryView, entries_view};
use crate::html::{
    CssSelector, Node, Scope, parse_document, parse_selector, css_selector_valid, select,
    select_count, element_attr, node_attr,
};
use crate::crawl::{Event, EventView, Action, ActionView, store_order};
use crate::extract::{PageError, spec_text_of, text_of, first_node, res_opt_view};
use crate::maybrit_illner;
use crate::markus_lanz;

verus! {

pub const TEASERS: &'static str = ".b-content-teaser-item";
pub const NEXT: &'static str = ".load-more-container > a";
pub const BRAND: &'static str = ".teaser-cat-brand-ellipsis";
pub const LINK: &'static str = "a";
pub const BASE_URL: &'static str = "https://www.zdf.de";
pub const SEARCH_PATH: &'static str = "/suche?q=";
pub const SEARCH_OPTIONS: &'static str = "&synth=true&sender=ZDF&contentTypes=episode";

/// Whether every selector of the search compiles.
pub open spec fn queries_valid() -> bool {
    &&& css_selector_valid(TEASERS@)
    &&& css_selector_valid(NEXT@)
    &&& css_selector_valid(BRAND@)
    &&& css_selector_valid(LINK@)
}

/// The compiled selectors of the search.
pub struct Queries {
    teasers: CssSelector,
    next: CssSelector,
    brand: CssSelector,
    link: CssSelector,
}

impl Queries {
    #[verifier::type_invariant]
    closed spec fn compiled(&self) -> bool {
        &&& self.teasers@ == TEASERS@
        &&& self.next@ == NEXT@
        &&& self.brand@ == BRAND@
        &&& self.link@ == LINK@
    }

    /// Compiles the selectors; `Err(InvalidQuery)` exactly when one of them
    /// is rejected.
    pub fn new() -> (res: Result<Queries, PageError>)
        ensures
            res is Ok <==> queries_valid(),
            res matches Err(e) ==> e == PageError::InvalidQuery,
    {
        let teasers = parse_selector(TEASERS);
        let next = parse_selector(NEXT);
        let brand = parse_selector(BRAND);
        let link = parse_selector(LINK);
        match (teasers, next, brand, link) {
            (Some(teasers), Some(next), Some(brand), Some(link)) => Ok(
                Queries { teasers, next, brand, link },
            ),
            _ => Err(PageError::InvalidQuery),
        }
    }
}

/// The address of the first search page for `predicate`: the search path
/// with the words of `predicate` joined by `+`, then the search options.
pub open spec fn spec_search_url(predicate: Seq<char>) -> Seq<char> {
    BASE_URL@ + SEARCH_PATH@ + replace_all(predicate, " "@, "+"@) + SEARCH_OPTIONS@
}

/// The address of the first search page for `predicate`.
pub fn search_url(predicate: &str) -> (res: String)
    ensures
        res@ == spec_search_url(predicate@),
{
    proof {
        reveal_strlit(" ");
    }
    let words = replace(predicate, " ", "+");
    let mut url = join2(BASE_URL, SEARCH_PATH);
    url.append(words.as_str());
    url.append(SEARCH_OPTIONS);
    url
}

/// One page of search results: the addresses of the episodes of the brand
/// searched for, and the link to the next page.
pub struct SearchPage {
    pub results: Vec<String>,
    pub next: Option<String>,
}

pub struct SearchPageView {
    pub results: Seq<Seq<char>>,
    pub next: Option<Seq<char>>,
}

impl View for SearchPage {
    type V = SearchPageView;

    open spec fn view(&self) -> SearchPageView {
        SearchPageView { results: self.results@.map_values(|s: String| s@), next: opt_view(self.next) }
    }
}

/// The view of a search page or failure.
pub open spec fn search_result_view(r: Result<SearchPage, PageError>) -> Result<SearchPageView, PageError> {
    match r {
        Ok(p) => Ok(p@),
        Err(e) => Err(e),
    }
}

/// The path of the `i`-th result of a search page.
pub open spec fn result_path(i: nat) -> Seq<(Seq<char>, nat)> {
    Seq::<(Seq<char>, nat)>::empty().push((TEASERS@, i))
}

/// The address that the `i`-th result of the search page `doc` gives for
/// brand `predicate`: none where the result belongs to another brand.
pub open spec fn spec_result(doc: Seq<char>, i: nat, predicate: Seq<char>) -> Result<Option<Seq<char>>, PageError> {
    let p = result_path(i);
    match spec_text_of(doc, p, BRAND@) {
        Err(e) => Err(e),
        Ok(brand) => if brand != predicate {
            Ok(None)
        } else if select_count(doc, p, LINK@) == 0 {
            Err(PageError::MissingElement)
        } else {
            match element_attr(doc, p.push((LINK@, 0)), "href"@) {
                None => Err(PageError::MissingAttribute),
                Some(h) => Ok(Some(BASE_URL@ + h)),
            }
        },
    }
}

/// The addresses that the first `n` results of the search page `doc` give,
/// or the first failure.
pub open spec fn spec_results(doc: Seq<char>, n: nat, predicate: Seq<char>) -> Result<Seq<Seq<char>>, PageError>
    decreases n,
{
    if n == 0 {
        Ok(Seq::empty())
    } else {
        match spec_results(doc, (n - 1) as nat, predicate) {
            Err(e) => Err(e),
            Ok(rs) => match spec_result(doc, (n - 1) as nat, predicate) {
                Err(e) => Err(e),
                Ok(None) => Ok(rs),
                Ok(Some(u)) => Ok(rs.push(u)),
            },
        }
    }
}

/// The link to the next search page: only where this page has results at
/// all, and where the first "load more" link has a target.
pub open spec fn spec_next(doc: Seq<char>) -> Option<Seq<char>> {
    if select_count(doc, Seq::empty(), TEASERS@) == 0 || select_count(doc, Seq::empty(), NEXT@)
        == 0 {
        None
    } else {
        match element_attr(doc, Seq::<(Seq<char>, nat)>::empty().push((NEXT@, 0)), "href"@) {
            Some(h) => Some(BASE_URL@ + h),
            None => None,
        }
    }
}

/// The search page `doc` for brand `predicate`.
pub open spec fn spec_search_page(doc: Seq<char>, predicate: Seq<char>) -> Result<SearchPageView, PageError> {
    match spec_results(doc, select_count(doc, Seq::empty(), TEASERS@), predicate) {
        Err(e) => Err(e),
        Ok(results) => Ok(SearchPageView { results, next: spec_next(doc) }),
    }
}

fn read_result<'a>(q: &Queries, node: Node<'a>, predicate: &str) -> (res: Result<Option<String>, PageError>)
    requires
        node@.1 == result_path(node@.1.last().1),
    ensures
        res_opt_view(res) == spec_result(node@.0, node@.1.last().1, predicate@),
{
    proof {
        use_type_invariant(q);
    }
    let scope = Scope::Elem(node);
    let brand = text_of(&scope, &q.brand)?;
    if !same(brand, predicate) {
        return Ok(None);
    }
    let link = match first_node(&scope, &q.link) {
        Some(l) => l,
        None => return Err(PageError::MissingElement),
    };
    match node_attr(&link, "href") {
        Some(h) => Ok(Some(join2(BASE_URL, h))),
        None => Err(PageError::MissingAttribute),
    }
}

proof fn lemma_results_err_stays(doc: Seq<char>, k: nat, n: nat, predicate: Seq<char>)
    requires
        k <= n,
        spec_results(doc, k, predicate) is Err,
    ensures
        spec_results(doc, n, predicate) == spec_results(doc, k, predicate),
    decreases n - k,
{
    if k < n {
        lemma_results_err_stays(doc, k, (n - 1) as nat, predicate);
    }
}

/// Reads one page of search results for brand `predicate`.
pub fn parse_search_page(q: &Queries, body: &str, predicate: &str) -> (res: Result<SearchPage, PageError>)
    ensures
        search_result_view(res) == spec_search_page(body@, predicate@),
{
    proof {
        use_type_invariant(q);
    }
    let doc = parse_document(body);
    let scope = Scope::Doc(&doc);
    let nodes = select(&scope, &q.teasers);
    let n = nodes.len();
    let mut results: Vec<String> = Vec::new();
    let mut i: usize = 0;
    proof {
        assert(results@.map_values(|s: String| s@) =~= Seq::<Seq<char>>::empty());
    }
    while i < n
        invariant
            n == nodes@.len(),
            n == select_count(body@, Seq::empty(), TEASERS@),
            forall|j: int|
                0 <= j < n ==> (#[trigger] nodes@[j])@ == (body@, result_path(j as nat)),
            i <= n,
            spec_results(body@, i as nat, predicate@) == Ok::<Seq<Seq<char>>, PageError>(
                results@.map_values(|s: String| s@),
            ),
        decreases n - i,
    {
        match read_result(q, nodes[i], predicate) {
            Err(e) => {
                proof {
                    lemma_results_err_stays(body@, (i + 1) as nat, n as nat, predicate@);
                }
                return Err(e);
            },
            Ok(None) => {},
            Ok(Some(u)) => {
                let ghost before = results@;
                results.push(u);
                proof {
                    assert(results@.map_values(|s: String| s@) =~= before.map_values(
                        |s: String| s@,
                    ).push(results@.last()@));
                }
            },
        }
        i = i + 1;
    }
    let next = if n == 0 {
        None
    } else {
        match first_node(&scope, &q.next) {
            Some(l) => match node_attr(&l, "href") {
                Some(h) => Some(join2(BASE_URL, h)),
                None => None,
            },
            None => None,
        }
    };
    Ok(SearchPage { results, next })
}

/// The views of a list of addresses.
pub open spec fn strings_view(v: Seq<String>) -> Seq<Seq<char>> {
    v.map_values(|s: String| s@)
}

/// What the search asks for next.
pub enum SearchAction {
    /// Fetch the search page at this address (the request must succeed) and
    /// hand back its body.
    Fetch(String),
    /// The search is over: these are the addresses found, after those the
    /// search was started with.
    Finish(Vec<String>),
    /// A search page could not be read; the search is over.
    Fail(PageError),
}

pub enum SearchActionView {
    Fetch(Seq<char>),
    Finish(Seq<Seq<char>>),
    Fail(PageError),
}

impl View for SearchAction {
    type V = SearchActionView;

    open spec fn view(&self) -> SearchActionView {
        match self {
            SearchAction::Fetch(u) => SearchActionView::Fetch(u@),
            SearchAction::Finish(v) => SearchActionView::Finish(strings_view(v@)),
            SearchAction::Fail(e) => SearchActionView::Fail(*e),
        }
    }
}

/// A search for the episodes of brand `predicate`, page after page, adding
/// each address found to those collected so far.
pub struct ZdfSearch {
    queries: Queries,
    predicate: String,
    results: Vec<String>,
    done: bool,
}

pub struct SearchView {
    pub predicate: Seq<char>,
    pub results: Seq<Seq<char>>,
    pub done: bool,
}

impl View for ZdfSearch {
    type V = SearchView;

    closed spec fn view(&self) -> SearchView {
        SearchView {
            predicate: self.predicate@,
            results: strings_view(self.results@),
            done: self.done,
        }
    }
}

/// One step of the search: the state and request after the search page
/// `body`. The addresses found on it go behind those found before; the
/// search goes on to the next page where there is one, else it hands over
/// all addresses.
pub open spec fn spec_search_step(s: SearchView, body: Seq<char>) -> (SearchView, SearchActionView) {
    match spec_search_page(body, s.predicate) {
        Err(x) => (SearchView { done: true, ..s }, SearchActionView::Fail(x)),
        Ok(page) => {
            let found = s.results + page.results;
            match page.next {
                Some(u) => (SearchView { results: found, ..s }, SearchActionView::Fetch(u)),
                None => (
                    SearchView { results: Seq::empty(), done: true, ..s },
                    SearchActionView::Finish(found),
                ),
            }
        },
    }
}

impl ZdfSearch {
    /// The search for `predicate`, starting from the addresses `results`,
    /// and its first request: the first search page.
    pub fn new(predicate: &str, results: Vec<String>) -> (res: Result<(ZdfSearch, SearchAction), PageError>)
        ensures
            res is Ok <==> queries_valid(),
            res matches Err(e) ==> e == PageError::InvalidQuery,
            res matches Ok((s, a)) ==> {
                &&& s@ == SearchView {
                    predicate: predicate@,
                    results: strings_view(results@),
                    done: false,
                }
                &&& a@ == SearchActionView::Fetch(spec_search_url(predicate@))
            },
    {
        let queries = Queries::new()?;
        let url = search_url(predicate);
        let s = ZdfSearch { queries, predicate: predicate.to_owned(), results, done: false };
        Ok((s, SearchAction::Fetch(url)))
    }

    /// Whether the search is over.
    pub fn is_done(&self) -> (res: bool)
        ensures
            res == self@.done,
    {
        self.done
    }

    /// Takes the search page `body` and gives the next request.
    pub fn step(&mut self, body: String) -> (res: SearchAction)
        requires
            !old(self)@.done,
        ensures
            (final(self)@, res@) == spec_search_step(old(self)@, body@),
    {
        match parse_search_page(&self.queries, body.as_str(), self.predicate.as_str()) {
            Err(x) => {
                self.done = true;
                SearchAction::Fail(x)
            },
            Ok(page) => {
                let SearchPage { results, next } = page;
                let mut results = results;
                let ghost before = self.results@;
                let ghost more = results@;
                self.results.append(&mut results);
                proof {
                    assert(strings_view(self.results@) =~= strings_view(before) + strings_view(more));
                }
                match next {
                    Some(u) => SearchAction::Fetch(u),
                    None => {
                        self.done = true;
                        let mut found: Vec<String> = Vec::new();
                        std::mem::swap(&mut found, &mut self.results);
                        proof {
                            assert(strings_view(self.results@) =~= Seq::<Seq<char>>::empty());
                        }
                        SearchAction::Finish(found)
                    },
                }
            },
        }
    }
}

/// The search keeps every address found on a page, in page order, behind
/// those found before: it asks for the next page exactly when the page
/// links to one, and otherwise hands over all addresses.
pub proof fn law_search_accumulates(s: SearchView, body: Seq<char>)
    requires
        !s.done,
        spec_search_page(body, s.predicate) is Ok,
    ensures
        ({
            let page = spec_search_page(body, s.predicate)->Ok_0;
            let (t, a) = spec_search_step(s, body);
            &&& (a is Fetch <==> page.next is Some)
            &&& a is Fetch ==> t.results == s.results + page.results && !t.done
            &&& a is Finish ==> a->Finish_0 == s.results + page.results && t.done
        }),
{
}

/// A search page without any result ends the search, which hands over the
/// addresses found before.
pub proof fn law_empty_page_ends_search(s: SearchView, body: Seq<char>)
    requires
        select_count(body, Seq::empty(), TEASERS@) == 0,
    ensures
        spec_search_step(s, body).1 == SearchActionView::Finish(s.results),
{
    assert(s.results + Seq::<Seq<char>>::empty() =~= s.results);
}

/// A search page with at least one result item and a "load more" link with
/// a target leads on to that target, whichever brands its items belong to:
/// the page's next page is the target behind the site's address, and the
/// search asks for it.
pub proof fn law_next_page_followed(s: SearchView, body: Seq<char>, href: Seq<char>)
    requires
        select_count(body, Seq::empty(), TEASERS@) > 0,
        select_count(body, Seq::empty(), NEXT@) > 0,
        element_attr(body, Seq::<(Seq<char>, nat)>::empty().push((NEXT@, 0)), "href"@) == Some(
            href,
        ),
        spec_search_page(body, s.predicate) is Ok,
    ensures
        spec_search_page(body, s.predicate)->Ok_0.next == Some(BASE_URL@ + href),
        spec_search_step(s, body).1 == SearchActionView::Fetch(BASE_URL@ + href),
        spec_search_step(s, body).0.results == s.results + spec_search_page(
            body,
            s.predicate,
        )->Ok_0.results,
{
}

/// The ZDF shows read from the search.
#[derive(PartialEq, Eq, Structural, Clone, Copy, Debug)]
pub enum ZdfShow {
    MaybritIllner,
    MarkusLanz,
}

/// The episode pages' selectors of a ZDF show.
pub enum DetailQueries {
    MaybritIllner(maybrit_illner::Queries),
    MarkusLanz(markus_lanz::Queries),
}

/// The episode of `show` at address `url` whose page is `doc`.
pub open spec fn spec_show_entry(show: ZdfShow, url: Seq<char>, doc: Seq<char>) -> Result<EntryView, PageError> {
    match show {
        ZdfShow::MaybritIllner => maybrit_illner::spec_entry(url, doc),
        ZdfShow::MarkusLanz => markus_lanz::spec_entry(url, doc),
    }
}

/// Whether the selectors and patterns of the episode pages of `show`
/// compile.
pub open spec fn show_queries_valid(show: ZdfShow) -> bool {
    match show {
        ZdfShow::MaybritIllner => maybrit_illner::queries_valid(),
        ZdfShow::MarkusLanz => markus_lanz::queries_valid(),
    }
}

/// Where the crawl stands.
#[derive(PartialEq, Eq, Structural, Clone, Copy, Debug)]
pub enum Phase {
    /// Waiting for the page of the current episode.
    Detail,
    /// Over.
    Done,
}

/// The crawl of a ZDF show: the page of each episode found by the search.
pub struct ZdfCrawl {
    show: ZdfShow,
    detail: DetailQueries,
    phase: Phase,
    links: Vec<String>,
    current: usize,
    results: Vec<Entry>,
}

pub struct CrawlView {
    pub show: ZdfShow,
    pub phase: Phase,
    pub links: Seq<Seq<char>>,
    pub current: nat,
    pub results: Seq<EntryView>,
}

impl View for ZdfCrawl {
    type V = CrawlView;

    closed spec fn view(&self) -> CrawlView {
        CrawlView {
            show: self.show,
            phase: self.phase,
            links: strings_view(self.links@),
            current: self.current as nat,
            results: entries_view(self.results@),
        }
    }
}

/// Whether the crawl can take `e` in state `s`.
pub open spec fn accepts(s: CrawlView, e: EventView) -> bool {
    s.phase != Phase::Done && e is Page
}

/// The consistent states of the crawl.
pub open spec fn crawl_wf(s: CrawlView) -> bool {
    &&& s.current <= s.links.len()
    &&& s.phase == Phase::Detail ==> s.current < s.links.len()
}

/// On to the next episode page, else hand over the episodes, the last one
/// read first.
pub open spec fn advance(s: CrawlView) -> (CrawlView, ActionView) {
    if s.current < s.links.len() {
        (CrawlView { phase: Phase::Detail, ..s }, ActionView::Fetch(s.links[s.current as int]))
    } else {
        (
            CrawlView { phase: Phase::Done, results: Seq::empty(), ..s },
            ActionView::Finish(s.results.reverse()),
        )
    }
}

/// One step of the crawl: the state and request after event `e`.
pub open spec fn spec_step(s: CrawlView, e: EventView) -> (CrawlView, ActionView) {
    match e {
        EventView::Page(body) => match spec_show_entry(s.show, s.links[s.current as int], body) {
            Err(x) => (CrawlView { phase: Phase::Done, ..s }, ActionView::Fail(x)),
            Ok(entry) => advance(
                CrawlView { results: s.results.push(entry), current: s.current + 1, ..s },
            ),
        },
        EventView::Known(_) => (s, ActionView::Fail(PageError::MissingElement)),
    }
}

impl ZdfCrawl {
    /// The crawl of `show` over the episode addresses `links` that the search
    /// found, and its first request: the first episode page, or, where there
    /// is none, the end with no episode.
    pub fn new(show: ZdfShow, links: Vec<String>) -> (res: Result<(ZdfCrawl, Action), PageError>)
        ensures
            res is Ok <==> show_queries_valid(show),
            res matches Err(e) ==> e == PageError::InvalidQuery,
            res matches Ok((c, a)) ==> {
                &&& crawl_wf(c@)
                &&& c.detail_matches()
                &&& (c@, a@) == advance(
                    CrawlView {
                        show,
                        phase: Phase::Detail,
                        links: strings_view(links@),
                        current: 0,
                        results: Seq::empty(),
                    },
                )
            },
    {
        let detail = match show {
            ZdfShow::MaybritIllner => DetailQueries::MaybritIllner(maybrit_illner::Queries::new()?),
            ZdfShow::MarkusLanz => DetailQueries::MarkusLanz(markus_lanz::Queries::new()?),
        };
        let mut c = ZdfCrawl {
            show,
            detail,
            phase: Phase::Detail,
            links,
            current: 0,
            results: Vec::new(),
        };
        proof {
            assert(entries_view(c.results@) =~= Seq::<EntryView>::empty());
        }
        let a = c.advance();
        Ok((c, a))
    }

    /// Whether the crawl is over.
    pub fn is_done(&self) -> (res: bool)
        ensures
            res == (self@.phase == Phase::Done),
    {
        self.phase == Phase::Done
    }

    /// Whether the crawl can take `e` now.
    pub fn accepts(&self, e: &Event) -> (res: bool)
        ensures
            res == accepts(self@, e@),
    {
        self.phase != Phase::Done && match e {
            Event::Page(_) => true,
            Event::Known(_) => false,
        }
    }

    /// The episode selectors are those of the show.
    pub closed spec fn detail_matches(&self) -> bool {
        match self.detail {
            DetailQueries::MaybritIllner(_) => self.show == ZdfShow::MaybritIllner,
            DetailQueries::MarkusLanz(_) => self.show == ZdfShow::MarkusLanz,
        }
    }

    fn advance(&mut self) -> (res: Action)
        requires
            old(self)@.current <= old(self)@.links.len(),
        ensures
            crawl_wf(final(self)@),
            final(self).show == old(self).show,
            final(self).detail == old(self).detail,
            (final(self)@, res@) == advance(old(self)@),
    {
        if self.current < self.links.len() {
            self.phase = Phase::Detail;
            Action::Fetch(self.links[self.current].clone())
        } else {
            self.phase = Phase::Done;
            let mut results: Vec<Entry> = Vec::new();
            std::mem::swap(&mut results, &mut self.results);
            proof {
                assert(entries_view(self.results@) =~= Seq::<EntryView>::empty());
            }
            Action::Finish(store_order(results))
        }
    }

    /// Takes event `e` and gives the next request.
    pub fn step(&mut self, e: Event) -> (res: Action)
        requires
            crawl_wf(old(self)@),
            old(self).detail_matches(),
            accepts(old(self)@, e@),
        ensures
            crawl_wf(final(self)@),
            final(self).detail_matches(),
            (final(self)@, res@) == spec_step(old(self)@, e@),
    {
        match e {
            Event::Page(body) => {
                proof {
                    assert(self.current < self.links.len());
                }
                let url = self.links[self.current].clone();
                let parsed = match &self.detail {
                    DetailQueries::MaybritIllner(q) => maybrit_illner::parse_entry(q, url, body.as_str()),
                    DetailQueries::MarkusLanz(q) => markus_lanz::parse_entry(q, url, body.as_str()),
                };
                assert(maybrit_illner::entry_result_view(parsed) == spec_show_entry(
                    self.show,
                    self@.links[self.current as int],
                    body@,
                ));
                match parsed {
                    Err(x) => {
                        self.phase = Phase::Done;
                        Action::Fail(x)
                    },
                    Ok(entry) => {
                        let ghost before = self.results@;
                        self.results.push(entry);
                        proof {
                            assert(entries_view(self.results@) =~= entries_view(before).push(
                                self.results@.last()@,
                            ));
                        }
                        self.current = self.current + 1;
                        self.advance()
                    },
                }
            },
            Event::Known(_) => Action::Fail(PageError::MissingElement),
        }
    }
}

/// The episodes handed over at the end are all the episodes read, the last
/// one first: reversed, they begin with the episodes read before this step.
pub proof fn law_finish_keeps_reading_order(s: CrawlView, e: EventView)
    requires
        crawl_wf(s),
        accepts(s, e),
        spec_step(s, e).1 is Finish,
    ensures
        spec_step(s, e).1->Finish_0.reverse().take(s.results.len() as int) == s.results,
{
    let x = spec_step(s, e).1->Finish_0;
    let body = e->Page_0;
    let r = s.results.push(spec_show_entry(s.show, s.links[s.current as int], body)->Ok_0);
    assert(x == r.reverse());
    assert(x.reverse().take(s.results.len() as int) =~= s.results);
}

} // verus!
