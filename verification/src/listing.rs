//! Listings: names in ascending order, each once. Every finite set of names
//! has exactly one.

use vstd::prelude::*;
use crate::text::{lemma_precedes_asymmetric, lemma_precedes_irreflexive, lemma_precedes_total,
    lemma_precedes_transitive, precedes};

verus! {

/// The names that a sequence of strings holds, one for one.
pub open spec fn names(v: Seq<String>) -> Seq<Seq<char>> {
    Seq::new(v.len(), |i: int| v[i]@)
}

/// Every name comes strictly before the names that follow it.
pub open spec fn ascending(l: Seq<Seq<char>>) -> bool {
    forall|i: int, j: int| 0 <= i < j < l.len() ==> precedes(#[trigger] l[i], #[trigger] l[j])
}

/// A name that comes before another in an ascending listing differs from it,
/// so no name is listed twice.
pub proof fn lemma_ascending_no_duplicates(l: Seq<Seq<char>>)
    requires
        ascending(l),
    ensures
        l.no_duplicates(),
{
    assert forall|i: int, j: int| 0 <= i < l.len() && 0 <= j < l.len() && i != j implies l[i]
        != l[j] by {
        if i < j {
            lemma_precedes_irreflexive(l[i], 0);
        } else {
            lemma_precedes_irreflexive(l[j], 0);
        }
    }
}

/// Putting `x` at position `at` of a listing adds `x` to its names and
/// nothing else.
pub proof fn lemma_insert_to_set(l: Seq<Seq<char>>, at: int, x: Seq<char>)
    requires
        0 <= at <= l.len(),
    ensures
        l.insert(at, x).to_set() == l.to_set().insert(x),
{
    let m = l.insert(at, x);
    assert forall|y: Seq<char>| m.to_set().contains(y) <==> l.to_set().insert(x).contains(
        y,
    ) by {
        if l.to_set().contains(y) {
            let k = choose|k: int| 0 <= k < l.len() && l[k] == y;
            if k < at {
                assert(m[k] == y);
            } else {
                assert(m[k + 1] == y);
            }
        }
        if y == x {
            assert(m[at] == y);
        }
    }
}

/// A name that lies strictly between its neighbours keeps a listing
/// ascending.
pub proof fn lemma_insert_ascending(l: Seq<Seq<char>>, at: int, x: Seq<char>)
    requires
        ascending(l),
        0 <= at <= l.len(),
        forall|j: int| 0 <= j < at ==> precedes(#[trigger] l[j], x),
        at < l.len() ==> precedes(x, l[at]),
    ensures
        ascending(l.insert(at, x)),
        forall|j: int| at <= j < l.len() ==> precedes(x, #[trigger] l[j]),
{
    assert forall|j: int| at <= j < l.len() implies precedes(x, #[trigger] l[j]) by {
        if j > at {
            lemma_precedes_transitive(x, l[at], l[j], 0);
        }
    }
    let m = l.insert(at, x);
    assert forall|i: int, j: int| 0 <= i < j < m.len() implies precedes(
        #[trigger] m[i],
        #[trigger] m[j],
    ) by {
        if j < at {
            assert(precedes(l[i], l[j]));
        } else if j == at {
            assert(precedes(l[i], x));
        } else if i < at {
            assert(precedes(l[i], l[j - 1]));
        } else if i == at {
            assert(precedes(x, l[j - 1]));
        } else {
            assert(precedes(l[i - 1], l[j - 1]));
        }
    }
}

/// A listing with one more name at its end holds what it held, and that name.
pub proof fn lemma_push_contains(l: Seq<Seq<char>>, x: Seq<char>)
    ensures
        l.push(x).contains(x),
        forall|y: Seq<char>| l.contains(y) ==> #[trigger] l.push(x).contains(y),
        forall|y: Seq<char>| #[trigger] l.push(x).contains(y) ==> l.contains(y) || y == x,
{
    let m = l.push(x);
    assert(m[l.len() as int] == x);
    assert forall|y: Seq<char>| l.contains(y) implies #[trigger] m.contains(y) by {
        let k = choose|k: int| 0 <= k < l.len() && l[k] == y;
        assert(m[k] == y);
    }
}

/// An ascending listing without its last name holds the same names but that
/// one.
proof fn lemma_drop_last_to_set(l: Seq<Seq<char>>)
    requires
        ascending(l),
        l.len() > 0,
    ensures
        ascending(l.drop_last()),
        l.drop_last().to_set() == l.to_set().remove(l.last()),
{
    let d = l.drop_last();
    lemma_ascending_no_duplicates(l);
    assert forall|y: Seq<char>| d.to_set().contains(y) <==> l.to_set().remove(l.last()).contains(
        y,
    ) by {
        if l.to_set().contains(y) && y != l.last() {
            let k = choose|k: int| 0 <= k < l.len() && l[k] == y;
            assert(d[k] == y);
        }
    }
}

/// A set of names has one ascending listing: two ascending listings of the
/// same names are the same listing.
pub proof fn lemma_ascending_unique(a: Seq<Seq<char>>, b: Seq<Seq<char>>)
    requires
        ascending(a),
        ascending(b),
        a.to_set() == b.to_set(),
    ensures
        a == b,
    decreases a.len(),
{
    lemma_ascending_no_duplicates(a);
    lemma_ascending_no_duplicates(b);
    a.unique_seq_to_set();
    b.unique_seq_to_set();
    if a.len() > 0 {
        // The last name of each listing is the greatest of the set.
        let x = a.last();
        let y = b.last();
        assert(a.to_set().contains(x));
        assert(b.to_set().contains(y));
        let k = choose|k: int| 0 <= k < b.len() && b[k] == x;
        let h = choose|h: int| 0 <= h < a.len() && a[h] == y;
        if k < b.len() - 1 && h < a.len() - 1 {
            lemma_precedes_asymmetric(x, y, 0);
        }
        lemma_drop_last_to_set(a);
        lemma_drop_last_to_set(b);
        lemma_ascending_unique(a.drop_last(), b.drop_last());
        assert(b =~= b.drop_last().push(y));
    }
}

/// The listing of a finite set of names: its names in ascending order, each
/// once.
pub open spec fn listing_of(s: Set<Seq<char>>) -> Seq<Seq<char>> {
    choose|l: Seq<Seq<char>>| ascending(l) && l.to_set() == s
}

/// An ascending listing is the listing of the names that it holds.
pub proof fn lemma_listing_of(l: Seq<Seq<char>>)
    requires
        ascending(l),
    ensures
        listing_of(l.to_set()) == l,
{
    let c = listing_of(l.to_set());
    lemma_ascending_unique(c, l);
}

/// The ascending listing `l` with the name `x` put in its place, unless `l`
/// holds `x` already.
pub open spec fn inserted(l: Seq<Seq<char>>, x: Seq<char>) -> Seq<Seq<char>>
    decreases l.len(),
{
    if l.len() == 0 {
        seq![x]
    } else if l.last() == x {
        l
    } else if precedes(l.last(), x) {
        l.push(x)
    } else {
        inserted(l.drop_last(), x).push(l.last())
    }
}

/// Putting a name in its place keeps a listing ascending and adds that name
/// to the names it holds.
pub proof fn lemma_inserted(l: Seq<Seq<char>>, x: Seq<char>)
    requires
        ascending(l),
    ensures
        ascending(inserted(l, x)),
        inserted(l, x).to_set() == l.to_set().insert(x),
    decreases l.len(),
{
    if l.len() == 0 {
        lemma_insert_to_set(l, 0, x);
        assert(l.insert(0, x) =~= seq![x]);
    } else if l.last() == x {
        // `l` holds `x` already.
    } else if precedes(l.last(), x) {
        assert forall|j: int| 0 <= j < l.len() implies precedes(#[trigger] l[j], x) by {
            if j < l.len() - 1 {
                lemma_precedes_transitive(l[j], l.last(), x, 0);
            }
        }
        lemma_insert_to_set(l, l.len() as int, x);
    } else {
        let d = l.drop_last();
        let y = l.last();
        lemma_drop_last_to_set(l);
        lemma_inserted(d, x);
        let m = inserted(d, x);
        assert(y.take(0) =~= x.take(0));
        if !precedes(x, y) {
            lemma_precedes_total(x, y, 0);
        }
        assert forall|j: int| 0 <= j < m.len() implies precedes(#[trigger] m[j], y) by {
            assert(d.to_set().insert(x).contains(m[j]));
        }
        lemma_insert_ascending(m, m.len() as int, y);
        lemma_insert_to_set(m, m.len() as int, y);
        assert(m.insert(m.len() as int, y) =~= m.push(y));
    }
}

/// Every finite set of names has its listing: ascending, and holding the
/// names of the set and no others.
pub proof fn lemma_listing_exists(s: Set<Seq<char>>)
    requires
        s.finite(),
    ensures
        ascending(listing_of(s)),
        listing_of(s).to_set() == s,
        listing_of(s).no_duplicates(),
        listing_of(s).len() == s.len(),
    decreases s.len(),
{
    if s.len() == 0 {
        let e = Seq::<Seq<char>>::empty();
        assert(e.to_set() =~= s);
    } else {
        let x = s.choose();
        lemma_listing_exists(s.remove(x));
        let l = listing_of(s.remove(x));
        lemma_inserted(l, x);
    }
    lemma_ascending_no_duplicates(listing_of(s));
    listing_of(s).unique_seq_to_set();
}

} // verus!
