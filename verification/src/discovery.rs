//! The poller: the decisions of the polling loop, and what one tick does to
//! the inventory.
//!
//! The loop itself belongs to the caller. It asks `next_action` what to do,
//! does it, and asks again: for a snapshot it enumerates the resources and
//! hands the outcome to `tick`, for a nap it sleeps for one nap of the
//! schedule, and on exit it leaves the loop.

use vstd::prelude::*;
use crate::alias::{canonical, AliasRule};
use crate::events::{Change, PortEvent, changes_of};
use crate::inventory::{arrived, departed, Delta, Inventory};
use crate::listing::{listing_of, names};
use crate::names::NameSet;
use crate::schedule::Schedule;

verus! {

/// Where the poller stands in its life.
#[derive(Clone, Copy, Debug, PartialEq, Eq, Structural)]
pub enum Phase {
    /// The loop runs.
    Running,
    /// The loop was told to stop and has not seen it yet.
    Stopping,
    /// The loop has seen the signal and is over.
    Stopped,
}

/// What the loop does next.
#[derive(Clone, Copy, Debug, PartialEq, Eq, Structural)]
pub enum Action {
    /// Take a snapshot and hand its outcome to `tick`.
    Snapshot,
    /// Sleep for one nap of the schedule.
    Nap,
    /// Leave the loop.
    Exit,
}

/// The phase after a request to stop.
pub open spec fn after_shutdown(phase: Phase) -> Phase {
    match phase {
        Phase::Running => Phase::Stopping,
        Phase::Stopping => Phase::Stopping,
        Phase::Stopped => Phase::Stopped,
    }
}

/// What a loop in phase `phase`, with `naps_left` naps to go before its next
/// snapshot, does next when the shutdown signal reads `signalled`.
pub open spec fn decided(phase: Phase, naps_left: nat, signalled: bool) -> Action {
    if phase != Phase::Running || signalled {
        Action::Exit
    } else if naps_left == 0 {
        Action::Snapshot
    } else {
        Action::Nap
    }
}

/// The phase after a decision taken in phase `phase` with the shutdown
/// signal reading `signalled`: a loop that goes on runs, one that exits is
/// stopped.
pub open spec fn phase_after(phase: Phase, signalled: bool) -> Phase {
    if phase != Phase::Running || signalled {
        Phase::Stopped
    } else {
        Phase::Running
    }
}

/// The changes that a tick publishes: each arrival in ascending order, then
/// each departure in ascending order.
pub open spec fn changes(added: Seq<Seq<char>>, removed: Seq<Seq<char>>) -> Seq<Change> {
    Seq::new(
        added.len() + removed.len(),
        |i: int|
            if i < added.len() {
                Change::Added(added[i])
            } else {
                Change::Removed(removed[i - added.len()])
            },
    )
}

/// The changes between the names known before a tick and those known after.
pub open spec fn tick_changes(known: Set<Seq<char>>, current: Set<Seq<char>>) -> Seq<Change> {
    changes(listing_of(arrived(known, current)), listing_of(departed(known, current)))
}

/// The events for a difference: one per name, arrivals first.
pub fn events_of(delta: &Delta) -> (events: Vec<PortEvent>)
    ensures
        changes_of(events@) == changes(names(delta.added@), names(delta.removed@)),
{
    let mut events: Vec<PortEvent> = Vec::new();
    let mut i: usize = 0;
    while i < delta.added.len()
        invariant
            i <= delta.added.len(),
            events@.len() == i,
            forall|k: int| 0 <= k < i ==> (#[trigger] events@[k])@ == Change::Added(delta.added@[k]@),
        decreases delta.added.len() - i,
    {
        events.push(PortEvent::Added(delta.added[i].clone()));
        i += 1;
    }
    let mut j: usize = 0;
    while j < delta.removed.len()
        invariant
            i == delta.added.len(),
            j <= delta.removed.len(),
            events@.len() == i + j,
            forall|k: int| 0 <= k < i ==> (#[trigger] events@[k])@ == Change::Added(delta.added@[k]@),
            forall|k: int|
                i <= k < i + j ==> (#[trigger] events@[k])@ == Change::Removed(
                    delta.removed@[k - i]@,
                ),
        decreases delta.removed.len() - j,
    {
        events.push(PortEvent::Removed(delta.removed[j].clone()));
        j += 1;
    }
    events
}

/// The canonical form of the snapshot `raw` under the rule with the given
/// markers, or `raw` itself where there is no rule.
pub open spec fn canonical_under(markers: Option<(Seq<char>, Seq<char>)>, raw: Set<Seq<char>>) -> Set<
    Seq<char>,
> {
    match markers {
        Some((incoming, outgoing)) => canonical(incoming, outgoing, raw),
        None => raw,
    }
}

/// What an enumeration gave: the names it listed, or nothing where it
/// failed.
pub open spec fn observed(outcome: Result<Vec<String>, String>) -> Option<Set<Seq<char>>> {
    match outcome {
        Ok(raw) => Some(names(raw@).to_set()),
        Err(_) => None,
    }
}

/// The names known after a tick that began with `known` and observed `seen`.
pub open spec fn known_after_tick(
    markers: Option<(Seq<char>, Seq<char>)>,
    known: Set<Seq<char>>,
    seen: Option<Set<Seq<char>>>,
) -> Set<Seq<char>> {
    match seen {
        Some(raw) => canonical_under(markers, raw),
        None => known,
    }
}

/// The changes published by a tick that began with `known` and observed
/// `seen`.
pub open spec fn published_by_tick(
    markers: Option<(Seq<char>, Seq<char>)>,
    known: Set<Seq<char>>,
    seen: Option<Set<Seq<char>>>,
) -> Seq<Change> {
    match seen {
        Some(raw) => tick_changes(known, canonical_under(markers, raw)),
        None => Seq::<Change>::empty(),
    }
}

/// The names of which `published` says that they arrived.
pub open spec fn added_names(published: Seq<Change>) -> Set<Seq<char>> {
    Set::new(|n: Seq<char>| published.contains(Change::Added(n)))
}

/// The names of which `published` says that they departed.
pub open spec fn removed_names(published: Seq<Change>) -> Set<Seq<char>> {
    Set::new(|n: Seq<char>| published.contains(Change::Removed(n)))
}

/// The poller of one engine: its phase, its place in the schedule, and the
/// aliasing rule that it applies to each snapshot.
pub struct DiscoveryService {
    phase: Phase,
    naps_left: u32,
    schedule: Schedule,
    rule: Option<AliasRule>,
}

impl DiscoveryService {
    /// Where the poller stands in its life.
    pub closed spec fn phase(&self) -> Phase {
        self.phase
    }

    /// The naps to go before the next snapshot.
    pub closed spec fn naps_left(&self) -> nat {
        self.naps_left as nat
    }

    /// The naps between two snapshots.
    pub closed spec fn naps_per_tick(&self) -> nat {
        self.schedule.naps()
    }

    /// The time between two snapshots, in milliseconds.
    pub closed spec fn interval(&self) -> nat {
        self.schedule.interval()
    }

    /// The markers of the aliasing rule, where there is one.
    pub closed spec fn markers(&self) -> Option<(Seq<char>, Seq<char>)> {
        match self.rule {
            Some(rule) => Some((rule.incoming(), rule.outgoing())),
            None => None,
        }
    }

    /// A poller at its start: it runs, and its first action is a snapshot.
    pub fn spawn(rule: Option<AliasRule>, schedule: Schedule) -> (r: DiscoveryService)
        ensures
            r.phase() == Phase::Running,
            r.naps_left() == 0,
            r.naps_per_tick() == schedule.naps(),
            r.interval() == schedule.interval(),
            r.markers() == match rule {
                Some(given) => Some((given.incoming(), given.outgoing())),
                None => None,
            },
    {
        DiscoveryService { phase: Phase::Running, naps_left: 0, schedule, rule }
    }

    /// Tells the poller to stop. It does not wait for the loop: the loop sees
    /// it at its next decision. Telling it twice is telling it once.
    pub fn shutdown(&mut self)
        ensures
            final(self).phase() == after_shutdown(old(self).phase()),
            final(self).naps_left() == old(self).naps_left(),
            final(self).naps_per_tick() == old(self).naps_per_tick(),
            final(self).interval() == old(self).interval(),
            final(self).markers() == old(self).markers(),
    {
        if self.phase == Phase::Running {
            self.phase = Phase::Stopping;
        }
    }

    /// Where the poller stands in its life.
    pub fn current_phase(&self) -> (r: Phase)
        ensures
            r == self.phase(),
    {
        self.phase
    }

    /// The length of one nap, in milliseconds.
    pub fn nap_millis(&self) -> (r: u64)
        ensures
            self.naps_per_tick() > 0,
            r == self.interval() / self.naps_per_tick(),
    {
        self.schedule.nap_millis()
    }

    /// Decides what the loop does next. `signalled` is what the shutdown
    /// signal reads now.
    ///
    /// A poller that was told to stop, by the signal or by `shutdown`, exits
    /// and is stopped from then on. A running poller takes a snapshot when no
    /// nap is left, and then has all the naps of its schedule before it; else
    /// it takes one nap.
    pub fn next_action(&mut self, signalled: bool) -> (action: Action)
        ensures
            action == decided(old(self).phase(), old(self).naps_left(), signalled),
            final(self).phase() == phase_after(old(self).phase(), signalled),
            final(self).naps_left() == (match action {
                Action::Exit => old(self).naps_left(),
                Action::Snapshot => old(self).naps_per_tick(),
                Action::Nap => (old(self).naps_left() - 1) as nat,
            }),
            final(self).naps_per_tick() == old(self).naps_per_tick(),
            final(self).interval() == old(self).interval(),
            final(self).markers() == old(self).markers(),
    {
        if self.phase != Phase::Running || signalled {
            self.phase = Phase::Stopped;
            Action::Exit
        } else if self.naps_left == 0 {
            self.naps_left = self.schedule.checks();
            Action::Snapshot
        } else {
            self.naps_left = self.naps_left - 1;
            Action::Nap
        }
    }

    /// The canonical form of the snapshot `raw` under the poller's rule.
    pub fn canonicalize(&self, raw: &Vec<String>) -> (r: NameSet)
        ensures
            r@ == canonical_under(self.markers(), names(raw@).to_set()),
    {
        match &self.rule {
            Some(rule) => rule.canonicalize(raw),
            None => NameSet::from_names(raw),
        }
    }

    /// One tick: takes the outcome of a snapshot to the inventory and says
    /// which events to publish.
    ///
    /// A snapshot is brought to canonical form and takes the place of what
    /// was known; the events are the difference, one per name that arrived
    /// or departed. A failed enumeration leaves the inventory as it was and
    /// gives no event.
    pub fn tick(&self, known: &mut Inventory, outcome: Result<Vec<String>, String>) -> (events: Vec<
        PortEvent,
    >)
        ensures
            final(known)@ == known_after_tick(self.markers(), old(known)@, observed(outcome)),
            changes_of(events@) == published_by_tick(
                self.markers(),
                old(known)@,
                observed(outcome),
            ),
            outcome is Err ==> events@.len() == 0,
    {
        match outcome {
            Ok(raw) => {
                let current = self.canonicalize(&raw);
                let delta = known.replace(current);
                events_of(&delta)
            },
            Err(_) => {
                let events: Vec<PortEvent> = Vec::new();
                events
            },
        }
    }
}

} // verus!
