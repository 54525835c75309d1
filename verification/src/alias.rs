//! The aliasing rule: one physical resource may be enumerated under two
//! names, an incoming and an outgoing one. Where a snapshot holds both, the
//! outgoing name stands for the resource and the incoming name is dropped.

use vstd::prelude::*;
use vstd::string::StringExecFns;
use crate::listing::{lemma_insert_to_set, names};
use crate::names::NameSet;
use crate::text::{chars_of, contains, contains_chars, replaced, replace_name};

verus! {

/// `name` is an incoming name whose outgoing form is also among `raw`.
pub open spec fn shadowed(
    incoming: Seq<char>,
    outgoing: Seq<char>,
    raw: Set<Seq<char>>,
    name: Seq<char>,
) -> bool {
    contains(name, incoming) && raw.contains(replaced(name, incoming, outgoing))
}

/// The names of `seen` that no name of `raw` shadows.
pub open spec fn kept(
    incoming: Seq<char>,
    outgoing: Seq<char>,
    raw: Set<Seq<char>>,
    seen: Set<Seq<char>>,
) -> Set<Seq<char>> {
    Set::new(|n: Seq<char>| seen.contains(n) && !shadowed(incoming, outgoing, raw, n))
}

/// A snapshot in canonical form: the names of `raw` but those that `raw`
/// itself shadows.
pub open spec fn canonical(incoming: Seq<char>, outgoing: Seq<char>, raw: Set<Seq<char>>) -> Set<
    Seq<char>,
> {
    kept(incoming, outgoing, raw, raw)
}

/// A pair of markers: a name that holds the incoming marker has an outgoing
/// form, in which each incoming marker is replaced by the outgoing one.
pub struct AliasRule {
    incoming: Vec<char>,
    outgoing: String,
}

impl AliasRule {
    #[verifier::type_invariant]
    spec fn marked(&self) -> bool {
        self.incoming@.len() > 0
    }

    /// The marker of an incoming name.
    pub closed spec fn incoming(&self) -> Seq<char> {
        self.incoming@
    }

    /// The marker that takes its place in the outgoing name.
    pub closed spec fn outgoing(&self) -> Seq<char> {
        self.outgoing@
    }

    /// The canonical form of the snapshot `raw` under this rule.
    pub open spec fn canonical(&self, raw: Set<Seq<char>>) -> Set<Seq<char>> {
        canonical(self.incoming(), self.outgoing(), raw)
    }

    /// The rule with the given markers. There is none with an empty incoming
    /// marker, which would mark every name.
    pub fn new(incoming: &str, outgoing: &str) -> (r: Option<AliasRule>)
        ensures
            r is Some <==> incoming@.len() > 0,
            r matches Some(rule) ==> rule.incoming() == incoming@ && rule.outgoing() == outgoing@,
    {
        let marker = chars_of(incoming);
        if marker.len() == 0 {
            None
        } else {
            Some(AliasRule { incoming: marker, outgoing: String::from_str(outgoing) })
        }
    }

    /// The rule for serial devices on a system that lists each device twice:
    /// as `/dev/tty.*` for incoming and as `/dev/cu.*` for outgoing
    /// connections.
    pub fn serial_devices() -> (r: AliasRule)
        ensures
            r.incoming() == "/dev/tty."@,
            r.outgoing() == "/dev/cu."@,
    {
        proof {
            reveal_strlit("/dev/tty.");
        }
        AliasRule { incoming: chars_of("/dev/tty."), outgoing: String::from_str("/dev/cu.") }
    }

    /// Whether `name` is an incoming name whose outgoing form is in `all`.
    pub fn shadows(&self, all: &NameSet, name: &str) -> (r: bool)
        ensures
            r == shadowed(self.incoming(), self.outgoing(), all@, name@),
    {
        let letters = chars_of(name);
        if contains_chars(&letters, &self.incoming) {
            let alias = replace_name(name, &self.incoming, self.outgoing.as_str());
            all.contains(alias.as_str())
        } else {
            false
        }
    }

    /// The canonical form of the snapshot `raw`.
    pub fn canonicalize(&self, raw: &Vec<String>) -> (r: NameSet)
        ensures
            r@ == self.canonical(names(raw@).to_set()),
    {
        let all = NameSet::from_names(raw);
        let mut out = NameSet::new();
        let mut i: usize = 0;
        while i < raw.len()
            invariant
                i <= raw.len(),
                all@ == names(raw@).to_set(),
                out@ == kept(
                    self.incoming(),
                    self.outgoing(),
                    all@,
                    names(raw@).take(i as int).to_set(),
                ),
            decreases raw.len() - i,
        {
            let ghost seen = names(raw@).take(i as int);
            let ghost x = raw@[i as int]@;
            proof {
                lemma_insert_to_set(seen, i as int, x);
                assert(names(raw@).take(i + 1) =~= seen.insert(i as int, x));
            }
            if !self.shadows(&all, raw[i].as_str()) {
                out.insert(raw[i].clone());
            }
            i += 1;
        }
        proof {
            assert(names(raw@).take(raw@.len() as int) =~= names(raw@));
        }
        out
    }
}

} // verus!
