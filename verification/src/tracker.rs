//! Which clients hold the objective.
//!
//! A client is tracked from the moment the full definition of the objective
//! is prepared for it until it is no longer connected, or until the sidebar
//! is switched off.

use crate::packet::Mode;
use std::collections::HashSet;
use vstd::prelude::*;
use vstd::std_specs::hash::*;

verus! {

broadcast use vstd::std_specs::hash::group_hash_axioms;

/// The set of clients that hold the objective, by their identifiers.
pub struct ClientTracker {
    initialized: HashSet<u128>,
}

impl View for ClientTracker {
    type V = Set<u128>;

    closed spec fn view(&self) -> Set<u128> {
        self.initialized@
    }
}

/// What happens to a tracker between two questions about one client.
pub enum TrackerEvent {
    /// The mode for a client is asked for, which marks that client.
    ModeFor(u128),
    /// The tracker is brought in line with the clients that are connected.
    Sync(Seq<u128>),
    /// The tracker is emptied.
    Clear,
}

/// The mode to send the objective in to client `id`: `Add` to one that does
/// not hold it yet, `Update` to one that does.
pub open spec fn mode_of(known: Set<u128>, id: u128) -> Mode {
    if known.contains(id) {
        Mode::Update
    } else {
        Mode::Add
    }
}

/// The tracked clients that are among `current`.
pub open spec fn pruned(known: Set<u128>, current: Seq<u128>) -> Set<u128> {
    known.intersect(current.to_set())
}

/// The tracked clients after one event.
pub open spec fn after_event(known: Set<u128>, event: TrackerEvent) -> Set<u128> {
    match event {
        TrackerEvent::ModeFor(id) => known.insert(id),
        TrackerEvent::Sync(current) => pruned(known, current),
        TrackerEvent::Clear => Set::empty(),
    }
}

/// The tracked clients after a run of events, the first event first.
pub open spec fn after_events(known: Set<u128>, events: Seq<TrackerEvent>) -> Set<u128>
    decreases events.len(),
{
    if events.len() == 0 {
        known
    } else {
        after_event(after_events(known, events.drop_last()), events.last())
    }
}

/// Whether an event leaves client `id` known: any question for a mode does,
/// and a sync with clients that `id` is among.
pub open spec fn keeps(event: TrackerEvent, id: u128) -> bool {
    match event {
        TrackerEvent::ModeFor(_) => true,
        TrackerEvent::Sync(current) => current.contains(id),
        TrackerEvent::Clear => false,
    }
}

/// The first `i + 1` clients are the first `i` and the one at index `i`.
pub proof fn lemma_take_one_more(clients: Seq<u128>, i: int)
    requires
        0 <= i < clients.len(),
    ensures
        clients.take(i + 1).to_set() == clients.take(i).to_set().insert(clients[i]),
{
    let seen = clients.take(i);
    let more = clients.take(i + 1);
    assert(more =~= seen.push(clients[i]));
    assert forall|x: u128| more.to_set().contains(x) <==> (seen.to_set().contains(x) || x
        == clients[i]) by {
        if seen.contains(x) {
            let k = choose|k: int| 0 <= k < seen.len() && seen[k] == x;
            assert(more[k] == x);
        }
        if x == clients[i] {
            assert(more[i] == x);
        }
    }
    assert(more.to_set() =~= seen.to_set().insert(clients[i]));
}

impl ClientTracker {
    /// A tracker that tracks no client.
    pub fn new() -> (t: ClientTracker)
        ensures
            t@ == Set::<u128>::empty(),
    {
        ClientTracker { initialized: HashSet::new() }
    }

    /// Tells whether client `id` is known.
    pub fn is_tracked(&self, id: u128) -> (b: bool)
        ensures
            b == self@.contains(id),
    {
        self.initialized.contains(&id)
    }

    /// Tells whether no client is known.
    pub fn is_empty(&self) -> (b: bool)
        ensures
            b == (self@ == Set::<u128>::empty()),
    {
        let b = self.initialized.is_empty();
        assert(self@.is_empty() == (self@ =~= Set::<u128>::empty()));
        b
    }

    /// Forgets every tracked client that is not among `current`.
    pub fn sync(&mut self, current: &[u128])
        ensures
            final(self)@ == pruned(old(self)@, current@),
    {
        let mut next: HashSet<u128> = HashSet::new();
        let mut i: usize = 0;
        while i < current.len()
            invariant
                i <= current.len(),
                next@ == self@.intersect(current@.take(i as int).to_set()),
            decreases current.len() - i,
        {
            let id = current[i];
            proof {
                lemma_take_one_more(current@, i as int);
            }
            if self.initialized.contains(&id) {
                next.insert(id);
            }
            assert(next@ =~= self@.intersect(current@.take(i + 1).to_set()));
            i += 1;
        }
        assert(current@.take(i as int) =~= current@);
        self.initialized = next;
    }

    /// The mode to send the objective in to client `id`, and marks `id` as
    /// known: `Add` for a client that was not known, `Update` otherwise.
    pub fn mode_for(&mut self, id: u128) -> (mode: Mode)
        ensures
            mode == mode_of(old(self)@, id),
            final(self)@ == old(self)@.insert(id),
    {
        if self.initialized.insert(id) {
            Mode::Add
        } else {
            Mode::Update
        }
    }

    /// Forgets every client.
    pub fn clear(&mut self)
        ensures
            final(self)@ == Set::<u128>::empty(),
    {
        self.initialized.clear();
    }
}

/// A client that is not tracked is sent `Add`, and is tracked from then on.
pub proof fn lemma_unseen_client_gets_add(known: Set<u128>, id: u128)
    requires
        !known.contains(id),
    ensures
        mode_of(known, id) == Mode::Add,
        after_event(known, TrackerEvent::ModeFor(id)).contains(id),
{
}

/// A tracked client stays known, and so is sent `Update`, through any run
/// of questions for a mode and of syncs that it is among the clients of.
pub proof fn lemma_tracked_client_gets_update(
    known: Set<u128>,
    id: u128,
    events: Seq<TrackerEvent>,
)
    requires
        known.contains(id),
        forall|k: int| 0 <= k < events.len() ==> keeps(#[trigger] events[k], id),
    ensures
        after_events(known, events).contains(id),
        mode_of(after_events(known, events), id) == Mode::Update,
    decreases events.len(),
{
    if events.len() > 0 {
        lemma_tracked_client_gets_update(known, id, events.drop_last());
        assert(keeps(events[events.len() - 1], id));
    }
}

/// A sync with clients that `id` is not among leaves `id` untracked, so that
/// it is sent `Add` again.
pub proof fn lemma_pruned_client_gets_add(known: Set<u128>, id: u128, current: Seq<u128>)
    requires
        !current.contains(id),
    ensures
        !pruned(known, current).contains(id),
        mode_of(after_event(known, TrackerEvent::Sync(current)), id) == Mode::Add,
{
}

/// The life of one client: unseen, it is sent `Add`; after that it is sent
/// `Update` at every later question, whatever questions and syncs that keep
/// it lie between; once a sync leaves it out, it is sent `Add` again.
pub proof fn lemma_client_lifecycle(
    known: Set<u128>,
    id: u128,
    events: Seq<TrackerEvent>,
    gone: Seq<u128>,
)
    requires
        !known.contains(id),
        forall|k: int| 0 <= k < events.len() ==> keeps(#[trigger] events[k], id),
        !gone.contains(id),
    ensures
        mode_of(known, id) == Mode::Add,
        forall|n: int|
            0 <= n <= events.len() ==> mode_of(
                #[trigger] after_events(known.insert(id), events.take(n)),
                id,
            ) == Mode::Update,
        mode_of(pruned(after_events(known.insert(id), events), gone), id) == Mode::Add,
{
    assert forall|n: int| 0 <= n <= events.len() implies mode_of(
        #[trigger] after_events(known.insert(id), events.take(n)),
        id,
    ) == Mode::Update by {
        lemma_tracked_client_gets_update(known.insert(id), id, events.take(n));
    }
}

} // verus!
