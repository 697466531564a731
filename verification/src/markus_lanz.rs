//! The ZDF talk show episode pages whose guests are listed as alternating
//! name lines and biography lines.

use vstd::prelude::*;
use crate::text::{join2, views_of};
use crate::person::{Person, PersonView, persons_view, opt_view, Entry, EntryView};
use crate::time::{DateTime, chrono_parse, parse_date_time};
use crate::html::{
    CssSelector, Node, Scope, parse_document, parse_selector, css_selector_valid, select,
    select_count, element_texts, node_texts,
};
use crate::pattern::{Pattern, compile, captures, regex_valid, regex_captures};
use crate::compute::{ComputeCount, trim_opt};
use crate::extract::{PageError, spec_text_of, text_of, first_node, first_text, group_of};

verus! {

pub const TIME: &'static str = ".other-infos .teaser-info";
pub const TITLE: &'static str = ".title-wrap > .big-headline";
pub const PARTICIPANTS: &'static str = ".b-post-content > .grid-container > .large-8";
pub const NAMEFILTER: &'static str = r"^\s*((?:\w|\s|-)+)(?:\((.+)\))?(?:, (\w+))?\s*$";
pub const TIME_SUFFIX: &'static str = " | 23:15";
/// The number under which the show's episodes are stored.
pub const SHOW: i64 = 3i64;
pub const TIME_FORMAT: &'static str = "%d.%m.%Y | %H:%M";
/// The term searched for on the ZDF to find the episodes.
pub const SEARCH_TERM: &'static str = "maybrit illner";

/// Whether every selector and pattern of the show compiles.
pub open spec fn queries_valid() -> bool {
    &&& css_selector_valid(TIME@)
    &&& css_selector_valid(TITLE@)
    &&& css_selector_valid(PARTICIPANTS@)
    &&& regex_valid(NAMEFILTER@)
}

/// The compiled selectors and patterns of the show.
pub struct Queries {
    time: CssSelector,
    title: CssSelector,
    participants: CssSelector,
    namefilter: Pattern,
}

impl Queries {
    #[verifier::type_invariant]
    closed spec fn compiled(&self) -> bool {
        &&& self.time@ == TIME@
        &&& self.title@ == TITLE@
        &&& self.participants@ == PARTICIPANTS@
        &&& self.namefilter@ == NAMEFILTER@
    }

    /// Compiles the selectors and patterns; `Err(InvalidQuery)` exactly when
    /// one of them is rejected.
    pub fn new() -> (res: Result<Queries, PageError>)
        ensures
            res is Ok <==> queries_valid(),
            res matches Err(e) ==> e == PageError::InvalidQuery,
    {
        let time = parse_selector(TIME);
        let title = parse_selector(TITLE);
        let participants = parse_selector(PARTICIPANTS);
        let namefilter = compile(NAMEFILTER);
        match (time, title, participants, namefilter) {
            (Some(time), Some(title), Some(participants), Some(namefilter)) => Ok(
                Queries { time, title, participants, namefilter },
            ),
            _ => Err(PageError::InvalidQuery),
        }
    }
}

/// The broadcast time of the episode page `doc`: the date of its second
/// information line (of its first where it has only one), at 23:15.
pub open spec fn spec_time(doc: Seq<char>) -> Result<DateTime, PageError> {
    let n = select_count(doc, Seq::empty(), TIME@);
    if n == 0 {
        Err(PageError::MissingElement)
    } else {
        let k: nat = if n > 1 {
            1
        } else {
            0
        };
        match first_text(doc, Seq::<(Seq<char>, nat)>::empty().push((TIME@, k))) {
            None => Err(PageError::MissingText),
            Some(date) => match chrono_parse(date + TIME_SUFFIX@, TIME_FORMAT@) {
                None => Err(PageError::BadTime),
                Some(t) => Ok(t),
            },
        }
    }
}

/// The guest list being read: whether a biography line is due, the name
/// and title of the last name line, and the guests completed so far.
pub struct PairState {
    pub expecting_bio: bool,
    pub name: Option<Seq<char>>,
    pub title: Option<Seq<char>>,
    pub persons: Seq<PersonView>,
}

/// One more line of the guest text: a name line "Name (Title)" where no
/// biography is due, else the biography of the last named guest.
pub open spec fn pair_step(st: PairState, line: Seq<char>) -> Result<PairState, PageError> {
    if !st.expecting_bio {
        let c = regex_captures(NAMEFILTER@, line);
        Ok(
            PairState {
                expecting_bio: true,
                name: trim_opt(group_of(c, 1)),
                title: trim_opt(group_of(c, 2)),
                persons: st.persons,
            },
        )
    } else {
        match st.name {
            None => Err(PageError::MissingName),
            Some(n) => Ok(
                PairState {
                    expecting_bio: false,
                    name: None,
                    title: None,
                    persons: st.persons.push(
                        PersonView {
                            name: n,
                            title: st.title,
                            party: None,
                            biografie: Some(line),
                            image_url: None,
                        },
                    ),
                },
            ),
        }
    }
}

/// The guest list after all of `lines`, or the first failure.
pub open spec fn pair_fold(lines: Seq<Seq<char>>) -> Result<PairState, PageError>
    decreases lines.len(),
{
    if lines.len() == 0 {
        Ok(PairState { expecting_bio: false, name: None, title: None, persons: Seq::empty() })
    } else {
        match pair_fold(lines.drop_last()) {
            Err(e) => Err(e),
            Ok(st) => pair_step(st, lines.last()),
        }
    }
}

/// The guests that the guest text `lines` gives.
pub open spec fn spec_pairs(lines: Seq<Seq<char>>) -> Result<Seq<PersonView>, PageError> {
    match pair_fold(lines) {
        Err(e) => Err(e),
        Ok(st) => Ok(st.persons),
    }
}

/// The episode at address `url` whose page is `doc`.
pub open spec fn spec_entry(url: Seq<char>, doc: Seq<char>) -> Result<EntryView, PageError> {
    match spec_time(doc) {
        Err(e) => Err(e),
        Ok(time) => match spec_text_of(doc, Seq::empty(), TITLE@) {
            Err(e) => Err(e),
            Ok(name) => if select_count(doc, Seq::empty(), PARTICIPANTS@) == 0 {
                Err(PageError::MissingElement)
            } else {
                match spec_pairs(
                    element_texts(doc, Seq::<(Seq<char>, nat)>::empty().push((PARTICIPANTS@, 0))),
                ) {
                    Err(e) => Err(e),
                    Ok(participants) => Ok(EntryView { name, time, participants, url }),
                }
            },
        },
    }
}

/// The view of a guest list or failure.
pub open spec fn persons_result_view(r: Result<Vec<Person>, PageError>) -> Result<
    Seq<PersonView>,
    PageError,
> {
    match r {
        Ok(v) => Ok(persons_view(v@)),
        Err(e) => Err(e),
    }
}

proof fn lemma_pair_fold_err_stays(lines: Seq<Seq<char>>, k: int)
    requires
        0 <= k <= lines.len(),
        pair_fold(lines.take(k)) is Err,
    ensures
        pair_fold(lines) == pair_fold(lines.take(k)),
    decreases lines.len() - k,
{
    if k < lines.len() {
        assert(lines.take(k + 1).drop_last() =~= lines.take(k));
        lemma_pair_fold_err_stays(lines, k + 1);
    } else {
        assert(lines.take(k) =~= lines);
    }
}

/// Reads the guests from the lines of the guest text: name lines and
/// biography lines in turn.
pub fn guests_from_lines(q: &Queries, lines: &Vec<&str>) -> (res: Result<Vec<Person>, PageError>)
    ensures
        persons_result_view(res) == spec_pairs(views_of(lines@)),
{
    proof {
        use_type_invariant(q);
    }
    let ghost views = views_of(lines@);
    let mut expecting_bio = false;
    let mut name: Option<String> = None;
    let mut title: Option<String> = None;
    let mut persons: Vec<Person> = Vec::new();
    let mut i: usize = 0;
    proof {
        assert(views.take(0) =~= Seq::<Seq<char>>::empty());
        assert(persons_view(persons@) =~= Seq::<PersonView>::empty());
    }
    while i < lines.len()
        invariant
            views == views_of(lines@),
            q.namefilter@ == NAMEFILTER@,
            i <= lines@.len(),
            pair_fold(views.take(i as int)) == Ok::<PairState, PageError>(
                PairState {
                    expecting_bio,
                    name: opt_view(name),
                    title: opt_view(title),
                    persons: persons_view(persons@),
                },
            ),
        decreases lines.len() - i,
    {
        proof {
            assert(views.take(i + 1).drop_last() =~= views.take(i as int));
            assert(views.take(i + 1).last() == lines@[i as int]@);
        }
        let line = lines[i];
        if !expecting_bio {
            let parts = captures(&q.namefilter, line);
            name = parts.get_string_count(1);
            title = parts.get_string_count(2);
            expecting_bio = true;
        } else {
            let n = match name.take() {
                Some(n) => n,
                None => {
                    proof {
                        lemma_pair_fold_err_stays(views, i + 1);
                        assert(views.take(views.len() as int) =~= views);
                    }
                    return Err(PageError::MissingName);
                },
            };
            let ghost before = persons@;
            persons.push(
                Person {
                    name: n,
                    title: title.take(),
                    biografie: Some(line.to_owned()),
                    image_url: None,
                    party: None,
                },
            );
            proof {
                assert(persons_view(persons@) =~= persons_view(before).push(persons@.last()@));
            }
            expecting_bio = false;
        }
        i = i + 1;
    }
    proof {
        assert(views.take(lines@.len() as int) =~= views);
    }
    Ok(persons)
}

/// The view of an episode or failure.
pub open spec fn entry_result_view(r: Result<Entry, PageError>) -> Result<EntryView, PageError> {
    match r {
        Ok(e) => Ok(e@),
        Err(e) => Err(e),
    }
}

/// Reads the episode at address `url` from its page.
pub fn parse_entry(q: &Queries, url: String, body: &str) -> (res: Result<Entry, PageError>)
    ensures
        entry_result_view(res) == spec_entry(url@, body@),
{
    proof {
        use_type_invariant(q);
    }
    let doc = parse_document(body);
    let scope = Scope::Doc(&doc);
    let times = select(&scope, &q.time);
    if times.len() == 0 {
        return Err(PageError::MissingElement);
    }
    let chosen = if times.len() > 1 {
        times[1]
    } else {
        times[0]
    };
    let texts = node_texts(&chosen);
    if texts.len() == 0 {
        return Err(PageError::MissingText);
    }
    proof {
        assert(texts@[0]@ == element_texts(chosen@.0, chosen@.1)[0]);
    }
    let crafted = join2(texts[0], TIME_SUFFIX);
    let time = match parse_date_time(crafted.as_str(), TIME_FORMAT) {
        Some(t) => t,
        None => return Err(PageError::BadTime),
    };
    let name = text_of(&scope, &q.title)?;
    let guest_text = match first_node(&scope, &q.participants) {
        Some(n) => n,
        None => return Err(PageError::MissingElement),
    };
    let lines = node_texts(&guest_text);
    let participants = guests_from_lines(q, &lines)?;
    Ok(Entry { name: name.to_owned(), time, participants, url })
}


/// The guest text alternates name lines and biography lines: `n` lines
/// give `n / 2` guests, and the biography of guest `k` is line `2k + 1`.
pub proof fn law_guests_alternate(lines: Seq<Seq<char>>)
    requires
        pair_fold(lines) is Ok,
    ensures
        pair_fold(lines)->Ok_0.persons.len() == lines.len() / 2,
        pair_fold(lines)->Ok_0.expecting_bio == (lines.len() % 2 == 1),
        forall|k: int|
            0 <= k < lines.len() / 2 ==> (#[trigger] pair_fold(lines)->Ok_0.persons[k]).biografie
                == Some(lines[2 * k + 1]),
    decreases lines.len(),
{
    if lines.len() > 0 {
        let rest = lines.drop_last();
        assert(pair_fold(rest) is Ok);
        law_guests_alternate(rest);
        let st = pair_fold(rest)->Ok_0;
        assert forall|k: int|
            0 <= k < lines.len() / 2 implies (#[trigger] pair_fold(lines)->Ok_0.persons[k]).biografie
            == Some(lines[2 * k + 1]) by {
            if k < rest.len() / 2 {
                assert(rest[2 * k + 1] == lines[2 * k + 1]);
            }
        }
    }
}

/// Where the page has two or more information lines, the broadcast time is
/// the date of the second one at 23:15, read with the show's format; the
/// first line plays no part. An episode read from the page has that time.
pub proof fn law_time_from_second_info_line(url: Seq<char>, doc: Seq<char>, date: Seq<char>, t: DateTime)
    requires
        select_count(doc, Seq::empty(), TIME@) >= 2,
        first_text(doc, Seq::<(Seq<char>, nat)>::empty().push((TIME@, 1))) == Some(date),
        chrono_parse(date + " | 23:15"@, "%d.%m.%Y | %H:%M"@) == Some(t),
    ensures
        spec_time(doc) == Ok::<DateTime, PageError>(t),
        spec_entry(url, doc) is Ok ==> spec_entry(url, doc)->Ok_0.time == t,
{
    reveal_strlit(" | 23:15");
    reveal_strlit("%d.%m.%Y | %H:%M");
    assert(TIME_SUFFIX@ == " | 23:15"@);
    assert(TIME_FORMAT@ == "%d.%m.%Y | %H:%M"@);
}

/// Where the page has exactly one information line, the broadcast time is
/// its date at 23:15, read with the show's format: the episode is read, not
/// refused for want of a second line.
pub proof fn law_time_from_single_info_line(url: Seq<char>, doc: Seq<char>, date: Seq<char>, t: DateTime)
    requires
        select_count(doc, Seq::empty(), TIME@) == 1,
        first_text(doc, Seq::<(Seq<char>, nat)>::empty().push((TIME@, 0))) == Some(date),
        chrono_parse(date + " | 23:15"@, "%d.%m.%Y | %H:%M"@) == Some(t),
    ensures
        spec_time(doc) == Ok::<DateTime, PageError>(t),
        spec_entry(url, doc) is Ok ==> spec_entry(url, doc)->Ok_0.time == t,
{
    reveal_strlit(" | 23:15");
    reveal_strlit("%d.%m.%Y | %H:%M");
    assert(TIME_SUFFIX@ == " | 23:15"@);
    assert(TIME_FORMAT@ == "%d.%m.%Y | %H:%M"@);
}

} // verus!
