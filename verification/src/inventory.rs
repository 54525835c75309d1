//! The inventory of the names currently believed live, and the difference
//! between it and a new observation.

use vstd::prelude::*;
use crate::listing::{ascending, listing_of, names};
use crate::names::NameSet;

verus! {

/// The names that arrived and the names that departed between two
/// observations, each in ascending order.
pub struct Delta {
    pub added: Vec<String>,
    pub removed: Vec<String>,
}

/// What is in `current` and was not in `known`.
pub open spec fn arrived(known: Set<Seq<char>>, current: Set<Seq<char>>) -> Set<Seq<char>> {
    current.difference(known)
}

/// What was in `known` and is not in `current`.
pub open spec fn departed(known: Set<Seq<char>>, current: Set<Seq<char>>) -> Set<Seq<char>> {
    known.difference(current)
}

/// The difference between the names known so far and those seen now.
pub fn diff(known: &NameSet, current: &NameSet) -> (delta: Delta)
    ensures
        names(delta.added@) == listing_of(arrived(known@, current@)),
        names(delta.removed@) == listing_of(departed(known@, current@)),
        names(delta.added@).to_set() == arrived(known@, current@),
        names(delta.removed@).to_set() == departed(known@, current@),
{
    Delta { added: current.difference(known), removed: known.difference(current) }
}

/// The names currently believed live.
pub struct Inventory {
    known: NameSet,
}

impl View for Inventory {
    type V = Set<Seq<char>>;

    closed spec fn view(&self) -> Set<Seq<char>> {
        self.known@
    }
}

impl Inventory {
    /// An inventory holds finitely many names.
    pub proof fn lemma_finite(&self)
        ensures
            self@.finite(),
    {
        self.known.lemma_finite();
    }

    /// An inventory that knows no name yet.
    pub fn new() -> (r: Inventory)
        ensures
            r@ == Set::<Seq<char>>::empty(),
    {
        Inventory { known: NameSet::new() }
    }

    /// The known names, in ascending order, each once.
    pub fn read(&self) -> (r: Vec<String>)
        ensures
            names(r@) == listing_of(self@),
            names(r@).to_set() == self@,
            ascending(names(r@)),
            names(r@).no_duplicates(),
    {
        self.known.to_vec()
    }

    /// Whether `name` is known.
    pub fn contains(&self, name: &str) -> (r: bool)
        ensures
            r == self@.contains(name@),
    {
        self.known.contains(name)
    }

    /// Puts `current` in the place of what was known, and says what arrived
    /// and what departed by that. Only the poller does this, in its tick.
    pub(crate) fn replace(&mut self, current: NameSet) -> (delta: Delta)
        ensures
            final(self)@ == current@,
            names(delta.added@) == listing_of(arrived(old(self)@, current@)),
            names(delta.removed@) == listing_of(departed(old(self)@, current@)),
            names(delta.added@).to_set() == arrived(old(self)@, current@),
            names(delta.removed@).to_set() == departed(old(self)@, current@),
    {
        let delta = diff(&self.known, &current);
        self.known = current;
        delta
    }
}

} // verus!
