//! Storing one episode: its guests first, then the episode, then the links
//! between the episode and each of its guests.

use vstd::prelude::*;
use crate::person::{Person, PersonView, Entry, EntryView, opt_view, clone_opt};
use crate::time::DateTime;

verus! {

/// What the store was told.
pub enum StoreEvent {
    /// The id under which the guest last asked for is stored.
    GuestId(i64),
    /// The id of the stored episode, `None` where it could not be stored.
    EpisodeId(Option<i64>),
    /// The link last asked for is stored.
    Linked,
}

/// What the store asks for next.
pub enum StoreAction {
    /// Store this guest and tell its id.
    InsertGuest(Person),
    /// Store this episode of show `show` and tell its id.
    InsertEpisode { show: i64, name: String, url: String, time: DateTime },
    /// Link the episode with id `episode` to the guest with id `guest`.
    Link { episode: i64, guest: i64 },
    /// The episode is stored.
    Done,
}

pub enum StoreActionView {
    InsertGuest(PersonView),
    InsertEpisode { show: i64, name: Seq<char>, url: Seq<char>, time: DateTime },
    Link { episode: i64, guest: i64 },
    Done,
}

impl View for StoreAction {
    type V = StoreActionView;

    open spec fn view(&self) -> StoreActionView {
        match self {
            StoreAction::InsertGuest(p) => StoreActionView::InsertGuest(p@),
            StoreAction::InsertEpisode { show, name, url, time } => StoreActionView::InsertEpisode {
                show: *show,
                name: name@,
                url: url@,
                time: *time,
            },
            StoreAction::Link { episode, guest } => StoreActionView::Link {
                episode: *episode,
                guest: *guest,
            },
            StoreAction::Done => StoreActionView::Done,
        }
    }
}

/// Where the storing stands.
#[derive(PartialEq, Eq, Structural, Clone, Copy, Debug)]
pub enum StorePhase {
    /// Storing guests.
    Guests,
    /// Storing the episode.
    Episode,
    /// Linking the episode to its guests.
    Links,
    /// Over.
    Done,
}

/// The storing of one episode.
pub struct EntryStore {
    entry: Entry,
    show: i64,
    phase: StorePhase,
    guest_ids: Vec<i64>,
    episode: i64,
    next_link: usize,
}

pub struct StoreView {
    pub entry: EntryView,
    pub show: i64,
    pub phase: StorePhase,
    pub guest_ids: Seq<i64>,
    pub episode: i64,
    pub next_link: nat,
}

impl View for EntryStore {
    type V = StoreView;

    closed spec fn view(&self) -> StoreView {
        StoreView {
            entry: self.entry@,
            show: self.show,
            phase: self.phase,
            guest_ids: self.guest_ids@,
            episode: self.episode,
            next_link: self.next_link as nat,
        }
    }
}

/// The consistent states: guest ids are asked for in order, one per guest,
/// and links are made in the order of the guests.
pub open spec fn store_wf(s: StoreView) -> bool {
    &&& s.guest_ids.len() <= s.entry.participants.len()
    &&& s.phase == StorePhase::Guests ==> s.guest_ids.len() < s.entry.participants.len()
    &&& s.phase != StorePhase::Guests ==> s.guest_ids.len() == s.entry.participants.len()
    &&& s.next_link <= s.guest_ids.len()
    &&& s.phase == StorePhase::Links ==> s.next_link < s.guest_ids.len()
}

/// Whether the store can take `e` in state `s`.
pub open spec fn store_accepts(s: StoreView, e: StoreEvent) -> bool {
    match s.phase {
        StorePhase::Guests => e is GuestId,
        StorePhase::Episode => e is EpisodeId,
        StorePhase::Links => e is Linked,
        StorePhase::Done => false,
    }
}

/// The request to store the episode itself.
pub open spec fn episode_action(s: StoreView) -> StoreActionView {
    StoreActionView::InsertEpisode {
        show: s.show,
        name: s.entry.name,
        url: s.entry.url,
        time: s.entry.time,
    }
}

/// The first request for episode `entry` of show `show`: its first guest,
/// or, where it has none, the episode.
pub open spec fn spec_start(entry: EntryView, show: i64) -> (StoreView, StoreActionView) {
    let s = StoreView {
        entry,
        show,
        phase: StorePhase::Guests,
        guest_ids: Seq::empty(),
        episode: 0,
        next_link: 0,
    };
    if entry.participants.len() > 0 {
        (s, StoreActionView::InsertGuest(entry.participants[0]))
    } else {
        (StoreView { phase: StorePhase::Episode, ..s }, episode_action(s))
    }
}

/// One step of the storing: the state and request after event `e`.
pub open spec fn spec_store_step(s: StoreView, e: StoreEvent) -> (StoreView, StoreActionView) {
    match e {
        StoreEvent::GuestId(g) => {
            let t = StoreView { guest_ids: s.guest_ids.push(g), ..s };
            if t.guest_ids.len() < s.entry.participants.len() {
                (t, StoreActionView::InsertGuest(s.entry.participants[t.guest_ids.len() as int]))
            } else {
                (StoreView { phase: StorePhase::Episode, ..t }, episode_action(t))
            }
        },
        StoreEvent::EpisodeId(id) => match id {
            Some(ep) => if s.guest_ids.len() > 0 {
                (
                    StoreView { phase: StorePhase::Links, episode: ep, next_link: 0, ..s },
                    StoreActionView::Link { episode: ep, guest: s.guest_ids[0] },
                )
            } else {
                (StoreView { phase: StorePhase::Done, episode: ep, ..s }, StoreActionView::Done)
            },
            None => (StoreView { phase: StorePhase::Done, ..s }, StoreActionView::Done),
        },
        StoreEvent::Linked => {
            let k = s.next_link + 1;
            if k < s.guest_ids.len() {
                (
                    StoreView { next_link: k, ..s },
                    StoreActionView::Link { episode: s.episode, guest: s.guest_ids[k as int] },
                )
            } else {
                (StoreView { phase: StorePhase::Done, next_link: k, ..s }, StoreActionView::Done)
            }
        },
    }
}

fn clone_person(p: &Person) -> (res: Person)
    ensures
        res@ == p@,
{
    Person {
        name: p.name.clone(),
        title: clone_opt(&p.title),
        party: clone_opt(&p.party),
        biografie: clone_opt(&p.biografie),
        image_url: clone_opt(&p.image_url),
    }
}

impl Entry {
    /// Starts storing this episode as an episode of show `show`: the store
    /// and its first request.
    pub fn write_to_db(self, show: i64) -> (res: (EntryStore, StoreAction))
        ensures
            store_wf(res.0@),
            (res.0@, res.1@) == spec_start(self@, show),
    {
        let s = EntryStore {
            entry: self,
            show,
            phase: StorePhase::Guests,
            guest_ids: Vec::new(),
            episode: 0,
            next_link: 0,
        };
        proof {
            assert(s.guest_ids@ =~= Seq::<i64>::empty());
        }
        if s.entry.participants.len() > 0 {
            let a = StoreAction::InsertGuest(clone_person(&s.entry.participants[0]));
            (s, a)
        } else {
            let mut s = s;
            s.phase = StorePhase::Episode;
            let a = s.episode_action();
            (s, a)
        }
    }
}

impl EntryStore {
    fn episode_action(&self) -> (res: StoreAction)
        ensures
            res@ == episode_action(self@),
    {
        StoreAction::InsertEpisode {
            show: self.show,
            name: self.entry.name.clone(),
            url: self.entry.url.clone(),
            time: self.entry.time,
        }
    }

    /// Whether the storing is over.
    pub fn is_done(&self) -> (res: bool)
        ensures
            res == (self@.phase == StorePhase::Done),
    {
        self.phase == StorePhase::Done
    }

    /// Whether the store can take `e` now.
    pub fn accepts(&self, e: &StoreEvent) -> (res: bool)
        ensures
            res == store_accepts(self@, *e),
    {
        match (self.phase, e) {
            (StorePhase::Guests, StoreEvent::GuestId(_)) => true,
            (StorePhase::Episode, StoreEvent::EpisodeId(_)) => true,
            (StorePhase::Links, StoreEvent::Linked) => true,
            _ => false,
        }
    }

    /// Takes event `e` and gives the next request.
    pub fn step(&mut self, e: StoreEvent) -> (res: StoreAction)
        requires
            store_wf(old(self)@),
            store_accepts(old(self)@, e),
        ensures
            store_wf(final(self)@),
            (final(self)@, res@) == spec_store_step(old(self)@, e),
    {
        match e {
            StoreEvent::GuestId(g) => {
                self.guest_ids.push(g);
                let n = self.entry.participants.len();
                if self.guest_ids.len() < n {
                    let k = self.guest_ids.len();
                    StoreAction::InsertGuest(clone_person(&self.entry.participants[k]))
                } else {
                    self.phase = StorePhase::Episode;
                    self.episode_action()
                }
            },
            StoreEvent::EpisodeId(id) => match id {
                Some(ep) => {
                    self.episode = ep;
                    if self.guest_ids.len() > 0 {
                        self.phase = StorePhase::Links;
                        self.next_link = 0;
                        StoreAction::Link { episode: ep, guest: self.guest_ids[0] }
                    } else {
                        self.phase = StorePhase::Done;
                        StoreAction::Done
                    }
                },
                None => {
                    self.phase = StorePhase::Done;
                    StoreAction::Done
                },
            },
            StoreEvent::Linked => {
                proof {
                    assert(self.next_link < self.guest_ids.len());
                }
                let k = self.next_link + 1;
                self.next_link = k;
                if k < self.guest_ids.len() {
                    StoreAction::Link { episode: self.episode, guest: self.guest_ids[k] }
                } else {
                    self.phase = StorePhase::Done;
                    StoreAction::Done
                }
            },
        }
    }
}


/// The state after `k` links are reported from `s`.
pub open spec fn after_links(s: StoreView, k: nat) -> StoreView
    decreases k,
{
    if k == 0 {
        s
    } else {
        spec_store_step(after_links(s, (k - 1) as nat), StoreEvent::Linked).0
    }
}

proof fn lemma_after_links(s: StoreView, k: nat)
    requires
        store_wf(s),
        s.phase == StorePhase::Links,
        s.next_link == 0,
        k < s.guest_ids.len(),
    ensures
        after_links(s, k) == (StoreView { next_link: k, ..s }),
    decreases k,
{
    if k > 0 {
        lemma_after_links(s, (k - 1) as nat);
    }
}

/// Once all guests are stored with ids `ids` and the episode is stored with
/// id `ep`, the episode is linked to every guest, in the order of the
/// guests, and then the storing is over; where the episode is not stored,
/// nothing is linked.
pub proof fn law_links_follow_guests(s: StoreView, ep: i64)
    requires
        store_wf(s),
        s.phase == StorePhase::Episode,
    ensures
        spec_store_step(s, StoreEvent::EpisodeId(None)).1 == StoreActionView::Done,
        s.guest_ids.len() == 0 ==> spec_store_step(s, StoreEvent::EpisodeId(Some(ep))).1
            == StoreActionView::Done,
        s.guest_ids.len() > 0 ==> ({
            let t = spec_store_step(s, StoreEvent::EpisodeId(Some(ep)));
            let n = s.guest_ids.len();
            &&& t.1 == (StoreActionView::Link { episode: ep, guest: s.guest_ids[0] })
            &&& forall|k: nat|
                1 <= k < n ==> #[trigger] spec_store_step(
                    after_links(t.0, (k - 1) as nat),
                    StoreEvent::Linked,
                ).1 == (StoreActionView::Link { episode: ep, guest: s.guest_ids[k as int] })
            &&& spec_store_step(after_links(t.0, (n - 1) as nat), StoreEvent::Linked).1
                == StoreActionView::Done
        }),
{
    if s.guest_ids.len() > 0 {
        let t = spec_store_step(s, StoreEvent::EpisodeId(Some(ep)));
        let n = s.guest_ids.len();
        assert forall|k: nat|
            1 <= k < n implies #[trigger] spec_store_step(
                after_links(t.0, (k - 1) as nat),
                StoreEvent::Linked,
            ).1 == StoreActionView::Link { episode: ep, guest: s.guest_ids[k as int] } by {
            lemma_after_links(t.0, (k - 1) as nat);
        }
        lemma_after_links(t.0, (n - 1) as nat);
    }
}

/// Each guest is asked for in the order of the episode's guests, and the
/// episode only once every guest has an id.
pub proof fn law_guests_before_episode(s: StoreView, g: i64)
    requires
        store_wf(s),
        s.phase == StorePhase::Guests,
    ensures
        ({
            let t = spec_store_step(s, StoreEvent::GuestId(g));
            &&& t.0.guest_ids == s.guest_ids.push(g)
            &&& t.0.guest_ids.len() < s.entry.participants.len() ==> t.1
                == StoreActionView::InsertGuest(s.entry.participants[t.0.guest_ids.len() as int])
            &&& t.0.guest_ids.len() == s.entry.participants.len() ==> t.1 == episode_action(s)
        }),
{
}

/// The request to store the episode carries exactly the episode's show,
/// title, address and broadcast time: at the start, where the episode has no
/// guests, and at any later step. No step changes the episode or the show
/// being stored.
pub proof fn law_episode_request_carries_entry(entry: EntryView, show: i64, s: StoreView, e: StoreEvent)
    ensures
        spec_start(entry, show).0.entry == entry,
        spec_start(entry, show).0.show == show,
        entry.participants.len() == 0 ==> spec_start(entry, show).1 == (StoreActionView::InsertEpisode {
            show,
            name: entry.name,
            url: entry.url,
            time: entry.time,
        }),
        spec_store_step(s, e).0.entry == s.entry,
        spec_store_step(s, e).0.show == s.show,
        spec_store_step(s, e).1 is InsertEpisode ==> spec_store_step(s, e).1 == (
        StoreActionView::InsertEpisode {
            show: s.show,
            name: s.entry.name,
            url: s.entry.url,
            time: s.entry.time,
        }),
{
}

} // verus!
