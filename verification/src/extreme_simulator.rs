//! Attack and capsize scenarios run against a ship's stability model.
use vstd::prelude::*;
use crate::compartments::{law_listing_is_unique, sorted_compartments, strictly_increasing};
use std::collections::HashSet;

verus! {

/// Runs extreme scenarios against the stability model `H` of a ship.
pub struct ExtremeFloodingSimulator<H> {
    hydrostatics: H,
}

impl<H> ExtremeFloodingSimulator<H> {
    /// The stability model the simulator was built with.
    pub closed spec fn hull(&self) -> H {
        self.hydrostatics
    }

    /// A simulator over `hydrostatics`.
    pub fn new(hydrostatics: H) -> (sim: Self)
        ensures
            sim.hull() == hydrostatics,
    {
        ExtremeFloodingSimulator { hydrostatics }
    }

    /// The stability model the simulator was built with.
    pub fn hydrostatics(&self) -> (h: &H)
        ensures
            *h == self.hull(),
    {
        &self.hydrostatics
    }
}

/// Adds a newly breached compartment to the compartments under attack,
/// keeping them in increasing order without repeats.
pub fn add_active_compartment(active: &mut Vec<u8>, compartment_id: u8)
    ensures
        strictly_increasing(final(active)@),
        forall|x: u8| final(active)@.contains(x) <==> (old(active)@.contains(x) || x == compartment_id),
{
    broadcast use vstd::std_specs::hash::group_hash_axioms;

    let mut set: HashSet<u8> = HashSet::new();
    let mut i: usize = 0;
    while i < active.len()
        invariant
            i <= active.len(),
            forall|x: u8| set@.contains(x) <==> exists|k: int| 0 <= k < i && active@[k] == x,
        decreases active.len() - i,
    {
        set.insert(active[i]);
        proof {
            assert forall|x: u8| set@.contains(x) <==> exists|k: int| 0 <= k < i + 1 && active@[k] == x by {
                if x == active@[i as int] {
                    assert(active@[i as int] == x);
                }
            }
        }
        i += 1;
    }
    set.insert(compartment_id);
    let merged = sorted_compartments(&set);
    proof {
        assert forall|x: u8| merged@.contains(x) <==> (active@.contains(x) || x == compartment_id) by {
            if active@.contains(x) {
                let k = choose|k: int| 0 <= k < active.len() && active@[k] == x;
                assert(set@.contains(x));
            }
        }
    }
    *active = merged;
}

/// Breaching a compartment that is already under attack leaves the list as it was.
pub proof fn law_repeated_breach_changes_nothing(active: Seq<u8>, compartment_id: u8, merged: Seq<u8>)
    requires
        strictly_increasing(active),
        active.contains(compartment_id),
        strictly_increasing(merged),
        forall|x: u8| merged.contains(x) <==> (active.contains(x) || x == compartment_id),
    ensures
        merged == active,
{
    law_listing_is_unique(merged, active);
}

/// Breaching two compartments gives the same list in either order.
pub proof fn law_breach_order_is_irrelevant(
    active: Seq<u8>,
    a: u8,
    b: u8,
    after_a: Seq<u8>,
    after_ab: Seq<u8>,
    after_b: Seq<u8>,
    after_ba: Seq<u8>,
)
    requires
        forall|x: u8| after_a.contains(x) <==> (active.contains(x) || x == a),
        forall|x: u8| after_ab.contains(x) <==> (after_a.contains(x) || x == b),
        strictly_increasing(after_ab),
        forall|x: u8| after_b.contains(x) <==> (active.contains(x) || x == b),
        forall|x: u8| after_ba.contains(x) <==> (after_b.contains(x) || x == a),
        strictly_increasing(after_ba),
    ensures
        after_ab == after_ba,
{
    law_listing_is_unique(after_ab, after_ba);
}

} // verus!
