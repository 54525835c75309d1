//! What holds of the engine over many ticks and many calls.

use vstd::prelude::*;
use crate::discovery::{added_names, after_shutdown, canonical_under, changes, decided,
    known_after_tick, phase_after, published_by_tick, removed_names, tick_changes, Action, Phase};
use crate::events::Change;
use crate::inventory::{arrived, departed};
use crate::listing::{lemma_listing_exists, listing_of};

verus! {

/// What arrived, what departed and what stayed have no name in common, and
/// what was known, less what departed, plus what arrived, is what is known
/// now.
pub proof fn lemma_diff_partitions(known: Set<Seq<char>>, current: Set<Seq<char>>)
    ensures
        arrived(known, current).disjoint(departed(known, current)),
        arrived(known, current).disjoint(known.intersect(current)),
        departed(known, current).disjoint(known.intersect(current)),
        known.difference(departed(known, current)).union(arrived(known, current)) == current,
{
}

/// A tick publishes one change for each name that arrived, one for each name
/// that departed, and none for any other name.
pub proof fn lemma_changes_exact(known: Set<Seq<char>>, current: Set<Seq<char>>)
    requires
        known.finite(),
        current.finite(),
    ensures
        added_names(tick_changes(known, current)) == arrived(known, current),
        removed_names(tick_changes(known, current)) == departed(known, current),
        tick_changes(known, current).no_duplicates(),
        tick_changes(known, current).len() == arrived(known, current).len() + departed(
            known,
            current,
        ).len(),
{
    lemma_listing_exists(arrived(known, current));
    lemma_listing_exists(departed(known, current));
    let a = listing_of(arrived(known, current));
    let r = listing_of(departed(known, current));
    let c = changes(a, r);
    assert forall|n: Seq<char>| added_names(c).contains(n) <==> arrived(known, current).contains(
        n,
    ) by {
        if a.to_set().contains(n) {
            let k = choose|k: int| 0 <= k < a.len() && a[k] == n;
            assert(c[k] == Change::Added(n));
        }
    }
    assert forall|n: Seq<char>| removed_names(c).contains(n) <==> departed(known, current).contains(
        n,
    ) by {
        if r.to_set().contains(n) {
            let k = choose|k: int| 0 <= k < r.len() && r[k] == n;
            assert(c[k + a.len()] == Change::Removed(n));
        }
    }
}

/// The names known after the ticks that observed `seen`, one after the
/// other, beginning with `start`.
pub open spec fn known_after(
    markers: Option<(Seq<char>, Seq<char>)>,
    start: Set<Seq<char>>,
    seen: Seq<Option<Set<Seq<char>>>>,
) -> Set<Seq<char>>
    decreases seen.len(),
{
    if seen.len() == 0 {
        start
    } else {
        known_after_tick(markers, known_after(markers, start, seen.drop_last()), seen.last())
    }
}

/// The changes published by tick `i` of the ticks that observed `seen`.
pub open spec fn published_at(
    markers: Option<(Seq<char>, Seq<char>)>,
    start: Set<Seq<char>>,
    seen: Seq<Option<Set<Seq<char>>>>,
    i: int,
) -> Seq<Change> {
    published_by_tick(markers, known_after(markers, start, seen.take(i)), seen[i])
}

/// The canonical form of a finite snapshot is finite.
pub proof fn lemma_canonical_finite(markers: Option<(Seq<char>, Seq<char>)>, raw: Set<Seq<char>>)
    requires
        raw.finite(),
    ensures
        canonical_under(markers, raw).finite(),
        canonical_under(markers, raw).subset_of(raw),
{
}

/// Over any sequence of snapshots: after tick `i` the inventory is the
/// canonical form of snapshot `i`, and tick `i` publishes exactly the
/// difference between the canonical forms of snapshot `i - 1` (for the first
/// tick: what was known at the start) and snapshot `i`, each name once.
pub proof fn lemma_replay(
    markers: Option<(Seq<char>, Seq<char>)>,
    start: Set<Seq<char>>,
    seen: Seq<Option<Set<Seq<char>>>>,
    i: int,
)
    requires
        start.finite(),
        0 <= i < seen.len(),
        forall|k: int| 0 <= k < seen.len() ==> (#[trigger] seen[k]) is Some && seen[k]->0.finite(),
    ensures
        known_after(markers, start, seen.take(i + 1)) == canonical_under(markers, seen[i]->0),
        known_after(markers, start, seen.take(i)) == (if i == 0 {
            start
        } else {
            canonical_under(markers, seen[i - 1]->0)
        }),
        added_names(published_at(markers, start, seen, i)) == arrived(
            known_after(markers, start, seen.take(i)),
            canonical_under(markers, seen[i]->0),
        ),
        removed_names(published_at(markers, start, seen, i)) == departed(
            known_after(markers, start, seen.take(i)),
            canonical_under(markers, seen[i]->0),
        ),
        published_at(markers, start, seen, i).no_duplicates(),
{
    if i > 0 {
        lemma_canonical_finite(markers, seen[i - 1]->0);
    }
    lemma_canonical_finite(markers, seen[i]->0);
    lemma_changes_exact(
        known_after(markers, start, seen.take(i)),
        canonical_under(markers, seen[i]->0),
    );
}

/// A tick whose enumeration failed leaves the inventory as the tick before
/// left it and publishes nothing.
pub proof fn lemma_failed_tick(
    markers: Option<(Seq<char>, Seq<char>)>,
    start: Set<Seq<char>>,
    seen: Seq<Option<Set<Seq<char>>>>,
    k: int,
)
    requires
        0 <= k < seen.len(),
        seen[k] is None,
    ensures
        known_after(markers, start, seen.take(k + 1)) == known_after(markers, start, seen.take(k)),
        published_at(markers, start, seen, k) == Seq::<Change>::empty(),
{
    assert(seen.take(k + 1).drop_last() =~= seen.take(k));
}

/// Every snapshot among `seen` is finite.
pub open spec fn finite_snapshots(seen: Seq<Option<Set<Seq<char>>>>) -> bool {
    forall|k: int| 0 <= k < seen.len() && (#[trigger] seen[k]) is Some ==> seen[k]->0.finite()
}

/// The first `i` of finite snapshots are finite snapshots.
pub proof fn lemma_prefix_finite(seen: Seq<Option<Set<Seq<char>>>>, i: int)
    requires
        finite_snapshots(seen),
        0 <= i <= seen.len(),
    ensures
        finite_snapshots(seen.take(i)),
{
    assert forall|k: int| 0 <= k < seen.take(i).len() && (#[trigger] seen.take(i)[k]) is Some implies seen.take(
        i,
    )[k]->0.finite() by {
        assert(seen.take(i)[k] == seen[k]);
    }
}

/// Whatever the enumerations gave, the inventory stays finite.
pub proof fn lemma_known_after_finite(
    markers: Option<(Seq<char>, Seq<char>)>,
    start: Set<Seq<char>>,
    seen: Seq<Option<Set<Seq<char>>>>,
)
    requires
        start.finite(),
        finite_snapshots(seen),
    ensures
        known_after(markers, start, seen).finite(),
    decreases seen.len(),
{
    if seen.len() > 0 {
        assert(seen.drop_last() =~= seen.take(seen.len() - 1));
        lemma_prefix_finite(seen, seen.len() - 1);
        lemma_known_after_finite(markers, start, seen.drop_last());
        if seen.last() is Some {
            lemma_canonical_finite(markers, seen.last()->0);
        }
    }
}

/// A name that is in the inventory before tick `j` was there at the start
/// or was reported as arrived by an earlier tick.
pub proof fn lemma_known_was_reported(
    markers: Option<(Seq<char>, Seq<char>)>,
    start: Set<Seq<char>>,
    seen: Seq<Option<Set<Seq<char>>>>,
    j: int,
    name: Seq<char>,
)
    requires
        start.finite(),
        0 <= j <= seen.len(),
        finite_snapshots(seen),
        known_after(markers, start, seen.take(j)).contains(name),
    ensures
        start.contains(name) || exists|i: int|
            0 <= i < j && added_names(#[trigger] published_at(markers, start, seen, i)).contains(
                name,
            ),
    decreases j,
{
    if j > 0 {
        let i = j - 1;
        let before = known_after(markers, start, seen.take(i));
        assert(seen.take(j).drop_last() =~= seen.take(i));
        if before.contains(name) {
            lemma_known_was_reported(markers, start, seen, i, name);
        } else {
            let raw = seen[i]->0;
            lemma_prefix_finite(seen, i);
            lemma_known_after_finite(markers, start, seen.take(i));
            lemma_canonical_finite(markers, raw);
            lemma_changes_exact(before, canonical_under(markers, raw));
            assert(added_names(published_at(markers, start, seen, i)).contains(name));
        }
    }
}

/// Events follow the snapshots: a name is reported as departed only after it
/// was known, so unless it was there at the start, an earlier tick reported
/// it as arrived.
pub proof fn lemma_departure_follows_arrival(
    markers: Option<(Seq<char>, Seq<char>)>,
    start: Set<Seq<char>>,
    seen: Seq<Option<Set<Seq<char>>>>,
    j: int,
    name: Seq<char>,
)
    requires
        start.finite(),
        0 <= j < seen.len(),
        finite_snapshots(seen),
        removed_names(published_at(markers, start, seen, j)).contains(name),
    ensures
        start.contains(name) || exists|i: int|
            0 <= i < j && added_names(#[trigger] published_at(markers, start, seen, i)).contains(
                name,
            ),
{
    let before = known_after(markers, start, seen.take(j));
    lemma_prefix_finite(seen, j);
    lemma_known_after_finite(markers, start, seen.take(j));
    if seen[j] is Some {
        let raw = seen[j]->0;
        lemma_canonical_finite(markers, raw);
        lemma_changes_exact(before, canonical_under(markers, raw));
        lemma_known_was_reported(markers, start, seen, j, name);
    }
}

/// A name that is in the inventory before tick `a` and no longer before a
/// later tick `b` was reported as departed by a tick in between.
pub proof fn lemma_left_was_reported(
    markers: Option<(Seq<char>, Seq<char>)>,
    start: Set<Seq<char>>,
    seen: Seq<Option<Set<Seq<char>>>>,
    a: int,
    b: int,
    name: Seq<char>,
)
    requires
        start.finite(),
        0 <= a <= b <= seen.len(),
        finite_snapshots(seen),
        known_after(markers, start, seen.take(a)).contains(name),
        !known_after(markers, start, seen.take(b)).contains(name),
    ensures
        exists|d: int|
            a <= d < b && removed_names(#[trigger] published_at(markers, start, seen, d)).contains(
                name,
            ),
    decreases b - a,
{
    let d = b - 1;
    let before = known_after(markers, start, seen.take(d));
    assert(seen.take(b).drop_last() =~= seen.take(d));
    if before.contains(name) {
        let raw = seen[d]->0;
        lemma_prefix_finite(seen, d);
        lemma_known_after_finite(markers, start, seen.take(d));
        lemma_canonical_finite(markers, raw);
        lemma_changes_exact(before, canonical_under(markers, raw));
        assert(removed_names(published_at(markers, start, seen, d)).contains(name));
    } else {
        lemma_left_was_reported(markers, start, seen, a, d, name);
    }
}

/// A name that tick `i` reports as arrived was not in the inventory before
/// that tick and is in it after.
pub proof fn lemma_arrived_is_news(
    markers: Option<(Seq<char>, Seq<char>)>,
    start: Set<Seq<char>>,
    seen: Seq<Option<Set<Seq<char>>>>,
    i: int,
    name: Seq<char>,
)
    requires
        start.finite(),
        0 <= i < seen.len(),
        finite_snapshots(seen),
        added_names(published_at(markers, start, seen, i)).contains(name),
    ensures
        !known_after(markers, start, seen.take(i)).contains(name),
        known_after(markers, start, seen.take(i + 1)).contains(name),
{
    let before = known_after(markers, start, seen.take(i));
    lemma_prefix_finite(seen, i);
    lemma_known_after_finite(markers, start, seen.take(i));
    if seen[i] is Some {
        let raw = seen[i]->0;
        lemma_canonical_finite(markers, raw);
        lemma_changes_exact(before, canonical_under(markers, raw));
    }
}

/// And the other way round: a name that was reported as arrived is reported
/// as arrived again only after a tick in between reported it as departed.
pub proof fn lemma_arrival_follows_departure(
    markers: Option<(Seq<char>, Seq<char>)>,
    start: Set<Seq<char>>,
    seen: Seq<Option<Set<Seq<char>>>>,
    i: int,
    j: int,
    name: Seq<char>,
)
    requires
        start.finite(),
        0 <= i < j < seen.len(),
        finite_snapshots(seen),
        added_names(published_at(markers, start, seen, i)).contains(name),
        added_names(published_at(markers, start, seen, j)).contains(name),
    ensures
        exists|d: int|
            i < d < j && removed_names(#[trigger] published_at(markers, start, seen, d)).contains(
                name,
            ),
{
    lemma_arrived_is_news(markers, start, seen, i, name);
    lemma_arrived_is_news(markers, start, seen, j, name);
    lemma_left_was_reported(markers, start, seen, i + 1, j, name);
}

/// Telling a poller twice to stop is telling it once: the phase is the
/// same, and so is every decision that follows.
pub proof fn lemma_shutdown_idempotent(phase: Phase, naps_left: nat, signalled: bool)
    ensures
        after_shutdown(after_shutdown(phase)) == after_shutdown(phase),
        decided(after_shutdown(after_shutdown(phase)), naps_left, signalled) == decided(
            after_shutdown(phase),
            naps_left,
            signalled,
        ),
        phase_after(after_shutdown(after_shutdown(phase)), signalled) == phase_after(
            after_shutdown(phase),
            signalled,
        ),
{
}

/// A loop stops once: a stopped poller stays stopped, whatever it is told
/// and whatever the signal reads, and every decision it takes is to exit.
pub proof fn lemma_stopped_for_good(naps_left: nat, signalled: bool)
    ensures
        after_shutdown(Phase::Stopped) == Phase::Stopped,
        phase_after(Phase::Stopped, signalled) == Phase::Stopped,
        decided(Phase::Stopped, naps_left, signalled) == Action::Exit,
{
}

/// A poller that was told to stop exits at its next decision, wherever it
/// stands in its schedule: it takes no further snapshot and begins no
/// further nap, so the loop is over within the nap during which it was told.
pub proof fn lemma_shutdown_exits_at_next_decision(phase: Phase, naps_left: nat, signalled: bool)
    ensures
        decided(after_shutdown(phase), naps_left, signalled) == Action::Exit,
        decided(phase, naps_left, true) == Action::Exit,
        phase_after(after_shutdown(phase), signalled) == Phase::Stopped,
        phase_after(phase, true) == Phase::Stopped,
{
}

} // verus!
