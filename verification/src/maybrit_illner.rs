//! "maybrit illner" (ZDF): the episode pages, with one guest box per guest.

use vstd::prelude::*;
use crate::text::{trim, replace_all, replace, trim_str, join2};
use crate::person::{Person, PersonView, persons_view, opt_view, opt_str_view, Entry, EntryView, owned};
use crate::time::{DateTime, chrono_parse, parse_date_time};
use crate::html::{
    CssSelector, Node, Scope, parse_document, parse_selector, css_selector_valid, select,
    select_count, element_texts, element_attr, node_texts, node_attr,
};
use crate::pattern::{Pattern, compile, captures, regex_valid, regex_captures};
use crate::compute::{ComputeCount, trim_opt};
use crate::extract::{
    PageError, spec_text_of, spec_opt_text_of, text_of, opt_text_of, first_node, first_text,
    group_of,
};

verus! {

pub const TIME: &'static str = ".other-infos .teaser-info";
pub const TITLE: &'static str = ".title-wrap > .big-headline";
pub const PARTICIPANTS: &'static str = ".guest-info";
pub const SOURCE: &'static str = "picure > source";
pub const NAME: &'static str = ".guest-name > button";
pub const PERSONTITILE: &'static str = ".guest-title > p";
pub const DETAILS: &'static str = ".desc-text > p";
pub const NAMEFILTER: &'static str = r"^\s*((?:\w|\s|-)+)(?:\((.+)\))?(?:, (\w+))?\s*$";
pub const BASE_URL: &'static str = "https://www.zdf.de";
pub const TIME_SUFFIX: &'static str = " | 22:15";
/// The number under which the show's episodes are stored.
pub const SHOW: i64 = 3i64;
pub const TIME_FORMAT: &'static str = "%d.%m.%Y | %H:%M";
/// The term searched for on the ZDF to find the episodes.
pub const SEARCH_TERM: &'static str = "maybrit illner";

/// Whether every selector and pattern of the show compiles.
pub open spec fn queries_valid() -> bool {
    &&& css_selector_valid(TIME@)
    &&& css_selector_valid(TITLE@)
    &&& css_selector_valid(PARTICIPANTS@)
    &&& css_selector_valid(SOURCE@)
    &&& css_selector_valid(NAME@)
    &&& css_selector_valid(PERSONTITILE@)
    &&& css_selector_valid(DETAILS@)
    &&& regex_valid(NAMEFILTER@)
}

/// The compiled selectors and patterns of the show.
pub struct Queries {
    time: CssSelector,
    title: CssSelector,
    participants: CssSelector,
    source: CssSelector,
    name: CssSelector,
    person_title: CssSelector,
    details: CssSelector,
    namefilter: Pattern,
}

impl Queries {
    #[verifier::type_invariant]
    closed spec fn compiled(&self) -> bool {
        &&& self.time@ == TIME@
        &&& self.title@ == TITLE@
        &&& self.participants@ == PARTICIPANTS@
        &&& self.source@ == SOURCE@
        &&& self.name@ == NAME@
        &&& self.person_title@ == PERSONTITILE@
        &&& self.details@ == DETAILS@
        &&& self.namefilter@ == NAMEFILTER@
    }

    /// Compiles the selectors and patterns; `Err(InvalidQuery)` exactly when
    /// one of them is rejected.
    pub fn new() -> (res: Result<Queries, PageError>)
        ensures
            res is Ok <==> queries_valid(),
            res matches Err(e) ==> e == PageError::InvalidQuery,
    {
        let time = parse_selector(TIME);
        let title = parse_selector(TITLE);
        let participants = parse_selector(PARTICIPANTS);
        let source = parse_selector(SOURCE);
        let name = parse_selector(NAME);
        let person_title = parse_selector(PERSONTITILE);
        let details = parse_selector(DETAILS);
        let namefilter = compile(NAMEFILTER);
        match (time, title, participants, source, name, person_title, details, namefilter) {
            (
                Some(time),
                Some(title),
                Some(participants),
                Some(source),
                Some(name),
                Some(person_title),
                Some(details),
                Some(namefilter),
            ) => Ok(
                Queries { time, title, participants, source, name, person_title, details, namefilter },
            ),
            _ => Err(PageError::InvalidQuery),
        }
    }
}

/// The broadcast time of the episode page `doc`: the date of its second
/// information line (of its first where it has only one), at 22:15.
pub open spec fn spec_time(doc: Seq<char>) -> Result<DateTime, PageError> {
    let n = select_count(doc, Seq::empty(), TIME@);
    if n == 0 {
        Err(PageError::MissingElement)
    } else {
        let k: nat = if n > 1 {
            1
        } else {
            0
        };
        match first_text(doc, Seq::<(Seq<char>, nat)>::empty().push((TIME@, k))) {
            None => Err(PageError::MissingText),
            Some(date) => match chrono_parse(date + TIME_SUFFIX@, TIME_FORMAT@) {
                None => Err(PageError::BadTime),
                Some(t) => Ok(t),
            },
        }
    }
}

/// The name line of a guest without the single-talk prefixes.
pub open spec fn strip_prefixes(line: Seq<char>) -> Seq<char> {
    replace_all(replace_all(line, "Im Einzegespr\u{e4}ch: "@, ""@), "Im Einzel-Gespr\u{e4}ch: "@, ""@)
}

/// The portrait address of the guest at `path`.
pub open spec fn spec_image(doc: Seq<char>, path: Seq<(Seq<char>, nat)>) -> Option<Seq<char>> {
    if select_count(doc, path, SOURCE@) == 0 {
        None
    } else {
        match element_attr(doc, path.push((SOURCE@, 0)), "data-src"@) {
            Some(s) => Some(BASE_URL@ + s),
            None => None,
        }
    }
}

/// The guest box at `path` of the episode page `doc`: the name (before a
/// parenthesis, or inside it), the party in parentheses, title, biography
/// and portrait.
pub open spec fn spec_guest(doc: Seq<char>, path: Seq<(Seq<char>, nat)>) -> Result<PersonView, PageError> {
    match spec_text_of(doc, path, NAME@) {
        Err(e) => Err(e),
        Ok(line) => {
            let c = regex_captures(NAMEFILTER@, strip_prefixes(line));
            let raw = if group_of(c, 1) is Some {
                group_of(c, 1)
            } else {
                group_of(c, 2)
            };
            match raw {
                None => Err(PageError::NoMatch),
                Some(n) => Ok(
                    PersonView {
                        name: trim(n),
                        title: spec_opt_text_of(doc, path, PERSONTITILE@),
                        party: trim_opt(group_of(c, 2)),
                        biografie: spec_opt_text_of(doc, path, DETAILS@),
                        image_url: spec_image(doc, path),
                    },
                ),
            }
        },
    }
}

/// The path of the `i`-th guest box of an episode page.
pub open spec fn guest_path(i: nat) -> Seq<(Seq<char>, nat)> {
    Seq::<(Seq<char>, nat)>::empty().push((PARTICIPANTS@, i))
}

/// The first `n` guests of the episode page `doc`, or the first failure.
pub open spec fn spec_guests_upto(doc: Seq<char>, n: nat) -> Result<Seq<PersonView>, PageError>
    decreases n,
{
    if n == 0 {
        Ok(Seq::empty())
    } else {
        match spec_guests_upto(doc, (n - 1) as nat) {
            Err(e) => Err(e),
            Ok(ps) => match spec_guest(doc, guest_path((n - 1) as nat)) {
                Err(e) => Err(e),
                Ok(p) => Ok(ps.push(p)),
            },
        }
    }
}

/// The episode at address `url` whose page is `doc`.
pub open spec fn spec_entry(url: Seq<char>, doc: Seq<char>) -> Result<EntryView, PageError> {
    match spec_time(doc) {
        Err(e) => Err(e),
        Ok(time) => match spec_text_of(doc, Seq::empty(), TITLE@) {
            Err(e) => Err(e),
            Ok(name) => match spec_guests_upto(doc, select_count(doc, Seq::empty(), PARTICIPANTS@)) {
                Err(e) => Err(e),
                Ok(participants) => Ok(EntryView { name, time, participants, url }),
            },
        },
    }
}

fn read_guest<'a>(q: &Queries, node: Node<'a>) -> (res: Result<Person, PageError>)
    ensures
        match res {
            Ok(p) => spec_guest(node@.0, node@.1) == Ok::<PersonView, PageError>(p@),
            Err(e) => spec_guest(node@.0, node@.1) == Err::<PersonView, PageError>(e),
        },
{
    proof {
        use_type_invariant(q);
        reveal_strlit("Im Einzegespr\u{e4}ch: ");
        reveal_strlit("Im Einzel-Gespr\u{e4}ch: ");
    }
    let scope = Scope::Elem(node);
    let line = text_of(&scope, &q.name)?;
    let first = replace(line, "Im Einzegespr\u{e4}ch: ", "");
    let stripped = replace(first.as_str(), "Im Einzel-Gespr\u{e4}ch: ", "");
    let parts = captures(&q.namefilter, stripped.as_str());
    let raw = match parts.get_text_internal(1) {
        Some(g) => Some(g),
        None => parts.get_text_internal(2),
    };
    let name = match raw {
        Some(n) => trim_str(n).to_owned(),
        None => return Err(PageError::NoMatch),
    };
    let party = parts.get_string_count(2);
    let title = owned(opt_text_of(&scope, &q.person_title));
    let image_url = match first_node(&scope, &q.source) {
        Some(s) => match node_attr(&s, "data-src") {
            Some(src) => Some(join2(BASE_URL, src)),
            None => None,
        },
        None => None,
    };
    let biografie = owned(opt_text_of(&scope, &q.details));
    Ok(Person { name, title, party, biografie, image_url })
}

proof fn lemma_guests_err_stays(doc: Seq<char>, k: nat, n: nat)
    requires
        k <= n,
        spec_guests_upto(doc, k) is Err,
    ensures
        spec_guests_upto(doc, n) == spec_guests_upto(doc, k),
    decreases n - k,
{
    if k < n {
        lemma_guests_err_stays(doc, k, (n - 1) as nat);
    }
}

/// The view of an episode or failure.
pub open spec fn entry_result_view(r: Result<Entry, PageError>) -> Result<EntryView, PageError> {
    match r {
        Ok(e) => Ok(e@),
        Err(e) => Err(e),
    }
}

/// Reads the episode at address `url` from its page.
pub fn parse_entry(q: &Queries, url: String, body: &str) -> (res: Result<Entry, PageError>)
    ensures
        entry_result_view(res) == spec_entry(url@, body@),
{
    proof {
        use_type_invariant(q);
    }
    let doc = parse_document(body);
    let scope = Scope::Doc(&doc);
    let times = select(&scope, &q.time);
    if times.len() == 0 {
        return Err(PageError::MissingElement);
    }
    let chosen = if times.len() > 1 {
        times[1]
    } else {
        times[0]
    };
    let texts = node_texts(&chosen);
    if texts.len() == 0 {
        return Err(PageError::MissingText);
    }
    proof {
        assert(texts@[0]@ == element_texts(chosen@.0, chosen@.1)[0]);
    }
    let crafted = join2(texts[0], TIME_SUFFIX);
    let time = match parse_date_time(crafted.as_str(), TIME_FORMAT) {
        Some(t) => t,
        None => return Err(PageError::BadTime),
    };
    let name = text_of(&scope, &q.title)?;
    let nodes = select(&scope, &q.participants);
    let n = nodes.len();
    let mut participants: Vec<Person> = Vec::new();
    let mut i: usize = 0;
    proof {
        assert(persons_view(participants@) =~= Seq::<PersonView>::empty());
    }
    while i < n
        invariant
            n == nodes@.len(),
            n == select_count(body@, Seq::empty(), PARTICIPANTS@),
            forall|j: int|
                0 <= j < n ==> (#[trigger] nodes@[j])@ == (body@, guest_path(j as nat)),
            i <= n,
            spec_guests_upto(body@, i as nat) == Ok::<Seq<PersonView>, PageError>(
                persons_view(participants@),
            ),
            spec_time(body@) == Ok::<DateTime, PageError>(time),
            spec_text_of(body@, Seq::empty(), TITLE@) == Ok::<Seq<char>, PageError>(name@),
        decreases n - i,
    {
        let p = match read_guest(q, nodes[i]) {
            Ok(p) => p,
            Err(e) => {
                proof {
                    lemma_guests_err_stays(body@, (i + 1) as nat, n as nat);
                }
                return Err(e);
            },
        };
        let ghost before = participants@;
        participants.push(p);
        proof {
            assert(persons_view(participants@) =~= persons_view(before).push(p@));
        }
        i = i + 1;
    }
    Ok(Entry { name: name.to_owned(), time, participants, url })
}

/// Where the page has two or more information lines, the broadcast time is
/// the date of the second one at 22:15, read with the show's format; the
/// first line plays no part. An episode read from the page has that time.
pub proof fn law_time_from_second_info_line(url: Seq<char>, doc: Seq<char>, date: Seq<char>, t: DateTime)
    requires
        select_count(doc, Seq::empty(), TIME@) >= 2,
        first_text(doc, Seq::<(Seq<char>, nat)>::empty().push((TIME@, 1))) == Some(date),
        chrono_parse(date + " | 22:15"@, "%d.%m.%Y | %H:%M"@) == Some(t),
    ensures
        spec_time(doc) == Ok::<DateTime, PageError>(t),
        spec_entry(url, doc) is Ok ==> spec_entry(url, doc)->Ok_0.time == t,
{
    reveal_strlit(" | 22:15");
    reveal_strlit("%d.%m.%Y | %H:%M");
    assert(TIME_SUFFIX@ == " | 22:15"@);
    assert(TIME_FORMAT@ == "%d.%m.%Y | %H:%M"@);
}

/// Where the page has exactly one information line, the broadcast time is
/// its date at 22:15, read with the show's format: the episode is read, not
/// refused for want of a second line.
pub proof fn law_time_from_single_info_line(url: Seq<char>, doc: Seq<char>, date: Seq<char>, t: DateTime)
    requires
        select_count(doc, Seq::empty(), TIME@) == 1,
        first_text(doc, Seq::<(Seq<char>, nat)>::empty().push((TIME@, 0))) == Some(date),
        chrono_parse(date + " | 22:15"@, "%d.%m.%Y | %H:%M"@) == Some(t),
    ensures
        spec_time(doc) == Ok::<DateTime, PageError>(t),
        spec_entry(url, doc) is Ok ==> spec_entry(url, doc)->Ok_0.time == t,
{
    reveal_strlit(" | 22:15");
    reveal_strlit("%d.%m.%Y | %H:%M");
    assert(TIME_SUFFIX@ == " | 22:15"@);
    assert(TIME_FORMAT@ == "%d.%m.%Y | %H:%M"@);
}

} // verus!
