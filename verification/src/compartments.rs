//! Sets of compartment numbers, kept as strictly increasing lists.
use vstd::prelude::*;
use std::collections::HashSet;

verus! {

/// Every element is smaller than the one after it: the list is sorted and
/// holds no number twice.
pub open spec fn strictly_increasing(s: Seq<u8>) -> bool {
    forall|i: int, j: int| 0 <= i < j < s.len() ==> s[i] < s[j]
}

/// Lists, in increasing order, the compartment numbers in `set`.
pub fn sorted_compartments(set: &HashSet<u8>) -> (listed: Vec<u8>)
    ensures
        strictly_increasing(listed@),
        forall|x: u8| listed@.contains(x) <==> set@.contains(x),
{
    broadcast use vstd::std_specs::hash::group_hash_axioms;

    let mut listed: Vec<u8> = Vec::new();
    let mut i: usize = 0;
    while i < 256
        invariant
            i <= 256,
            strictly_increasing(listed@),
            forall|k: int| 0 <= k < listed.len() ==> listed@[k] < i && set@.contains(#[trigger] listed@[k]),
            forall|x: u8| x < i && set@.contains(x) ==> listed@.contains(x),
        decreases 256 - i,
    {
        let c = i as u8;
        if set.contains(&c) {
            let ghost before = listed@;
            listed.push(c);
            proof {
                assert(listed@[before.len() as int] == c);
                assert forall|x: u8| x < i + 1 && set@.contains(x) implies listed@.contains(x) by {
                    if x < i {
                        let k = choose|k: int| 0 <= k < before.len() && before[k] == x;
                        assert(listed@[k] == x);
                    }
                }
            }
        }
        i += 1;
    }
    proof {
        assert forall|x: u8| listed@.contains(x) <==> set@.contains(x) by {
            if listed@.contains(x) {
                let k = choose|k: int| 0 <= k < listed.len() && listed@[k] == x;
            }
        }
    }
    listed
}

/// Whether `compartment` occurs in `list`.
pub fn holds_compartment(list: &Vec<u8>, compartment: u8) -> (found: bool)
    ensures
        found == list@.contains(compartment),
{
    let mut i: usize = 0;
    while i < list.len()
        invariant
            i <= list.len(),
            forall|k: int| 0 <= k < i ==> list@[k] != compartment,
        decreases list.len() - i,
    {
        if list[i] == compartment {
            return true;
        }
        i += 1;
    }
    false
}

/// Two increasing lists without repeats that hold the same compartments are
/// the same list.
pub proof fn law_listing_is_unique(a: Seq<u8>, b: Seq<u8>)
    requires
        strictly_increasing(a),
        strictly_increasing(b),
        forall|x: u8| a.contains(x) <==> b.contains(x),
    ensures
        a == b,
    decreases a.len(),
{
    if a.len() == 0 {
        if b.len() > 0 {
            assert(b.contains(b[0]));
        }
        assert(a =~= b);
    } else {
        assert(a.contains(a[0]));
        assert(b.contains(a[0]));
        assert(b.contains(b[0]));
        assert(a.contains(b[0]));
        let i = choose|i: int| 0 <= i < a.len() && a[i] == b[0];
        let j = choose|j: int| 0 <= j < b.len() && b[j] == a[0];
        if i > 0 {
            assert(a[0] < a[i]);
        }
        if j > 0 {
            assert(b[0] < b[j]);
        }
        assert(a[0] == b[0]);
        let ta = a.drop_first();
        let tb = b.drop_first();
        assert forall|x: u8| ta.contains(x) <==> tb.contains(x) by {
            if ta.contains(x) {
                let k = choose|k: int| 0 <= k < ta.len() && ta[k] == x;
                assert(a[k + 1] == x);
                assert(a[0] < a[k + 1]);
                assert(a.contains(x));
                let m = choose|m: int| 0 <= m < b.len() && b[m] == x;
                assert(m != 0);
                assert(tb[m - 1] == x);
            }
            if tb.contains(x) {
                let k = choose|k: int| 0 <= k < tb.len() && tb[k] == x;
                assert(b[k + 1] == x);
                assert(b[0] < b[k + 1]);
                assert(b.contains(x));
                let m = choose|m: int| 0 <= m < a.len() && a[m] == x;
                assert(m != 0);
                assert(ta[m - 1] == x);
            }
        }
        law_listing_is_unique(ta, tb);
        assert(a =~= b) by {
            assert forall|k: int| 0 <= k < a.len() implies a[k] == b[k] by {
                if k > 0 {
                    assert(a[k] == ta[k - 1]);
                    assert(b[k] == tb[k - 1]);
                }
            }
        }
    }
}

} // verus!
