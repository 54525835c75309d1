//! A set of resource names, kept as its listing.

use vstd::prelude::*;
use crate::listing::{ascending, lemma_ascending_no_duplicates, lemma_insert_ascending,
    lemma_insert_to_set, lemma_listing_of, lemma_push_contains, listing_of, names};
use crate::text::{lemma_precedes_irreflexive, lemma_precedes_total, lemma_precedes_transitive,
    name_precedes, precedes, same_name};

verus! {

/// The place of `name` in the ascending listing `items`: the number of its
/// names that come before `name`. Found by halving.
fn place_of(items: &Vec<String>, name: &str) -> (at: usize)
    requires
        ascending(names(items@)),
    ensures
        at <= items.len(),
        forall|j: int| 0 <= j < at ==> precedes(#[trigger] names(items@)[j], name@),
        forall|j: int| at <= j < items.len() ==> !precedes(#[trigger] names(items@)[j], name@),
{
    let ghost l = names(items@);
    let mut lo: usize = 0;
    let mut hi: usize = items.len();
    while lo < hi
        invariant
            lo <= hi <= items.len(),
            l == names(items@),
            ascending(l),
            forall|j: int| 0 <= j < lo ==> precedes(#[trigger] l[j], name@),
            forall|j: int| hi <= j < l.len() ==> !precedes(#[trigger] l[j], name@),
        decreases hi - lo,
    {
        let mid: usize = lo + (hi - lo) / 2;
        if name_precedes(items[mid].as_str(), name) {
            proof {
                assert forall|j: int| 0 <= j < mid + 1 implies precedes(#[trigger] l[j], name@) by {
                    if j < mid {
                        lemma_precedes_transitive(l[j], l[mid as int], name@, 0);
                    }
                }
            }
            lo = mid + 1;
        } else {
            proof {
                assert forall|j: int| mid <= j < l.len() implies !precedes(#[trigger] l[j], name@) by {
                    if j > mid && precedes(l[j], name@) {
                        lemma_precedes_transitive(l[mid as int], l[j], name@, 0);
                    }
                }
            }
            hi = mid;
        }
    }
    lo
}

/// A name that neither precedes the name at its place nor is that name
/// comes before it, and so before all that follow.
proof fn lemma_absent_at_place(l: Seq<Seq<char>>, at: int, x: Seq<char>)
    requires
        ascending(l),
        0 <= at <= l.len(),
        forall|j: int| 0 <= j < at ==> precedes(#[trigger] l[j], x),
        forall|j: int| at <= j < l.len() ==> !precedes(#[trigger] l[j], x),
        at < l.len() ==> l[at] != x,
    ensures
        at < l.len() ==> precedes(x, l[at]),
        !l.to_set().contains(x),
{
    if at < l.len() && !precedes(x, l[at]) {
        assert(x.take(0) =~= l[at].take(0));
        lemma_precedes_total(x, l[at], 0);
    }
    assert forall|j: int| 0 <= j < l.len() implies l[j] != x by {
        if j > at {
            lemma_precedes_transitive(x, l[at], l[j], 0);
        }
        lemma_precedes_irreflexive(x, 0);
    }
}

/// A finite set of names. It lists its names in ascending order, each once.
///
/// The names are kept as a sorted vector and not in a hash set: the listing
/// needs the order, and of a hash set keyed by strings nothing can be
/// proved.
pub struct NameSet {
    items: Vec<String>,
}

impl View for NameSet {
    type V = Set<Seq<char>>;

    /// The names in the set.
    closed spec fn view(&self) -> Set<Seq<char>> {
        names(self.items@).to_set()
    }
}

impl NameSet {
    #[verifier::type_invariant]
    spec fn ordered(&self) -> bool {
        ascending(names(self.items@))
    }

    /// A set of names is finite.
    pub proof fn lemma_finite(&self)
        ensures
            self@.finite(),
    {
        vstd::seq_lib::seq_to_set_is_finite(names(self.items@));
    }

    /// The empty set.
    pub fn new() -> (r: NameSet)
        ensures
            r@ == Set::<Seq<char>>::empty(),
    {
        NameSet { items: Vec::new() }
    }

    /// How many names the set holds.
    pub fn len(&self) -> (n: usize)
        ensures
            n == self@.len(),
            self@.finite(),
    {
        proof {
            use_type_invariant(self);
            lemma_ascending_no_duplicates(names(self.items@));
            names(self.items@).unique_seq_to_set();
        }
        self.items.len()
    }

    /// Whether `name` is in the set.
    pub fn contains(&self, name: &str) -> (r: bool)
        ensures
            r == self@.contains(name@),
    {
        proof {
            use_type_invariant(self);
        }
        let at = place_of(&self.items, name);
        let found = at < self.items.len() && same_name(self.items[at].as_str(), name);
        proof {
            let l = names(self.items@);
            if found {
                assert(l[at as int] == name@);
            } else {
                lemma_absent_at_place(l, at as int, name@);
            }
        }
        found
    }

    /// Adds `name` to the set. Says whether it was new.
    pub fn insert(&mut self, name: String) -> (fresh: bool)
        ensures
            final(self)@ == old(self)@.insert(name@),
            fresh == !old(self)@.contains(name@),
    {
        proof {
            use_type_invariant(&*self);
        }
        let i = place_of(&self.items, name.as_str());
        let ghost l = names(self.items@);
        if i < self.items.len() && same_name(self.items[i].as_str(), name.as_str()) {
            proof {
                assert(l[i as int] == name@);
            }
            return false;
        }
        proof {
            lemma_absent_at_place(l, i as int, name@);
            lemma_insert_ascending(l, i as int, name@);
            lemma_insert_to_set(l, i as int, name@);
        }
        let ghost key = name@;
        let mut items: Vec<String> = Vec::new();
        std::mem::swap(&mut self.items, &mut items);
        items.insert(i, name);
        proof {
            assert(names(items@) =~= l.insert(i as int, key));
        }
        self.items = items;
        true
    }

    /// The names of the set, in ascending order.
    pub fn to_vec(&self) -> (r: Vec<String>)
        ensures
            names(r@) == listing_of(self@),
            names(r@).to_set() == self@,
            ascending(names(r@)),
            names(r@).no_duplicates(),
    {
        proof {
            use_type_invariant(self);
            lemma_listing_of(names(self.items@));
            lemma_ascending_no_duplicates(names(self.items@));
        }
        let mut out: Vec<String> = Vec::new();
        let mut i: usize = 0;
        while i < self.items.len()
            invariant
                i <= self.items.len(),
                out@.len() == i,
                forall|k: int| 0 <= k < i ==> (#[trigger] out@[k])@ == self.items@[k]@,
            decreases self.items.len() - i,
        {
            out.push(self.items[i].clone());
            i += 1;
        }
        proof {
            assert(names(out@) =~= names(self.items@));
        }
        out
    }

    /// The names of this set that `other` does not hold, in ascending order.
    pub fn difference(&self, other: &NameSet) -> (r: Vec<String>)
        ensures
            names(r@) == listing_of(self@.difference(other@)),
            names(r@).to_set() == self@.difference(other@),
            ascending(names(r@)),
    {
        proof {
            use_type_invariant(self);
            use_type_invariant(other);
        }
        let ghost la = names(self.items@);
        let ghost lb = names(other.items@);
        let n: usize = self.items.len();
        let m: usize = other.items.len();
        let mut out: Vec<String> = Vec::new();
        let mut i: usize = 0;
        let mut j: usize = 0;
        while i < n
            invariant
                i <= n,
                j <= m,
                n == self.items.len(),
                m == other.items.len(),
                la == names(self.items@),
                lb == names(other.items@),
                ascending(la),
                ascending(lb),
                ascending(names(out@)),
                forall|k: int, p: int|
                    0 <= k < out@.len() && i <= p < n ==> precedes(
                        #[trigger] names(out@)[k],
                        #[trigger] la[p],
                    ),
                forall|q: int, p: int|
                    0 <= q < j && i <= p < n ==> precedes(#[trigger] lb[q], #[trigger] la[p]),
                forall|k: int|
                    0 <= k < out@.len() ==> la.contains(#[trigger] names(out@)[k]) && !lb.contains(
                        names(out@)[k],
                    ),
                forall|p: int|
                    0 <= p < i && !lb.contains(#[trigger] la[p]) ==> names(out@).contains(la[p]),
            decreases (n - i) + (m - j),
        {
            let ghost x = la[i as int];
            let ghost lo = names(out@);
            let keep: bool = if j == m {
                true
            } else if same_name(self.items[i].as_str(), other.items[j].as_str()) {
                false
            } else {
                name_precedes(self.items[i].as_str(), other.items[j].as_str())
            };
            if keep {
                proof {
                    assert forall|q: int| 0 <= q < m implies lb[q] != x by {
                        if q < j {
                            lemma_precedes_irreflexive(x, 0);
                        } else {
                            if q > j {
                                lemma_precedes_transitive(x, lb[j as int], lb[q], 0);
                            }
                            lemma_precedes_irreflexive(x, 0);
                        }
                    }
                    lemma_push_contains(lo, x);
                }
                out.push(self.items[i].clone());
                proof {
                    assert(names(out@) =~= lo.push(x));
                }
                i += 1;
            } else if same_name(self.items[i].as_str(), other.items[j].as_str()) {
                proof {
                    assert(lb[j as int] == x);
                }
                i += 1;
                j += 1;
            } else {
                proof {
                    let y = lb[j as int];
                    if !precedes(y, x) {
                        assert(y.take(0) =~= x.take(0));
                        lemma_precedes_total(y, x, 0);
                    }
                    assert forall|q: int, p: int| 0 <= q < j + 1 && i <= p < n implies precedes(
                        #[trigger] lb[q],
                        #[trigger] la[p],
                    ) by {
                        if q == j && p > i {
                            lemma_precedes_transitive(y, x, la[p], 0);
                        }
                    }
                }
                j += 1;
            }
        }
        proof {
            let lo = names(out@);
            assert(lo.to_set() =~= la.to_set().difference(lb.to_set()));
            lemma_listing_of(lo);
        }
        out
    }

    /// The set of the names in `raw`, however often and in whatever order
    /// `raw` holds them.
    pub fn from_names(raw: &Vec<String>) -> (r: NameSet)
        ensures
            r@ == names(raw@).to_set(),
    {
        let mut out = NameSet::new();
        let mut i: usize = 0;
        while i < raw.len()
            invariant
                i <= raw.len(),
                out@ == names(raw@).take(i as int).to_set(),
            decreases raw.len() - i,
        {
            proof {
                let l = names(raw@).take(i as int);
                lemma_insert_to_set(l, i as int, raw@[i as int]@);
                assert(names(raw@).take(i + 1) =~= l.insert(i as int, raw@[i as int]@));
            }
            out.insert(raw[i].clone());
            i += 1;
        }
        proof {
            assert(names(raw@).take(raw@.len() as int) =~= names(raw@));
        }
        out
    }
}

} // verus!
