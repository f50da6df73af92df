//! Watertight doors in the transverse bulkheads, and how flooding spreads
//! through the doors that stand open.
//!
//! Compartments are numbered from 0 at the bow; door `d` sits in the bulkhead
//! between compartments `d` and `d + 1`, so a ship of `n` compartments has
//! `n - 1` doors.
use vstd::prelude::*;
use crate::compartments::{holds_compartment, sorted_compartments, strictly_increasing};
use std::collections::HashSet;
use crate::models::DoorControlRequest;

verus! {

/// State of the door in one bulkhead.
#[derive(Clone, Copy, Debug)]
pub struct BulkheadDoorState {
    pub bulkhead_id: u8,
    pub is_open: bool,
    /// When the door was last set, in milliseconds since the Unix epoch.
    pub last_changed: i64,
}

/// Compartments that water reached from one damaged compartment through open doors.
#[derive(Clone, Debug)]
pub struct SpreadChain {
    pub source_compartment: u8,
    pub spread_to_compartments: Vec<u8>,
    pub via_doors: Vec<u8>,
}

impl View for SpreadChain {
    type V = (u8, Seq<u8>, Seq<u8>);

    open spec fn view(&self) -> (u8, Seq<u8>, Seq<u8>) {
        (self.source_compartment, self.spread_to_compartments@, self.via_doors@)
    }
}

/// How many doors stand open and how many are shut.
#[derive(Clone, Copy, Debug)]
pub struct DoorStatusSummary {
    pub total_doors: u8,
    pub open_doors: u8,
    pub closed_doors: u8,
}

/// What the doors did to a damage scenario: the compartments hit, the
/// compartments flooded in the end, and the chains of spreading.
#[derive(Clone, Debug)]
pub struct DoorSpreadOutcome {
    pub initial_damage: Vec<u8>,
    pub effective_flooded: Vec<u8>,
    pub door_states: Vec<BulkheadDoorState>,
    pub spread_through_doors: bool,
    pub spread_chains: Vec<SpreadChain>,
}

/// Number of bulkhead doors in a ship of `compartment_count` compartments.
pub open spec fn door_count(compartment_count: u8) -> nat {
    if compartment_count == 0 {
        0
    } else {
        (compartment_count - 1) as nat
    }
}

/// Door `i` of the list sits in bulkhead `i`.
pub open spec fn doors_numbered(records: Seq<BulkheadDoorState>) -> bool {
    forall|i: int| 0 <= i < records.len() ==> #[trigger] records[i].bulkhead_id == i
}

/// Door `i`, open or shut as `is_open`, last set at `now_millis`.
pub open spec fn door_record(i: int, is_open: bool, now_millis: i64) -> BulkheadDoorState {
    BulkheadDoorState { bulkhead_id: i as u8, is_open, last_changed: now_millis }
}

/// The open flags of a list of doors.
pub open spec fn open_flags(records: Seq<BulkheadDoorState>) -> Seq<bool> {
    records.map_values(|d: BulkheadDoorState| d.is_open)
}

/// Every door in bulkheads `lo..hi` exists and is open.
pub open spec fn doors_open_in(doors: Seq<bool>, lo: int, hi: int) -> bool {
    hi <= lo || (0 <= lo && hi <= doors.len() && forall|d: int| lo <= d < hi ==> #[trigger] doors[d])
}

/// Every door between compartments `a` and `b` exists and is open.
pub open spec fn doors_open_between(doors: Seq<bool>, a: int, b: int) -> bool {
    if a <= b {
        doors_open_in(doors, a, b)
    } else {
        doors_open_in(doors, b, a)
    }
}

/// Compartment `x` ends up flooded: some damaged compartment reaches it
/// through open doors (a damaged compartment reaches itself).
pub open spec fn floods(doors: Seq<bool>, initial: Seq<u8>, x: int) -> bool {
    exists|i: int|
        0 <= i < initial.len() && #[trigger] doors_open_between(doors, initial[i] as int, x)
}

/// Lowest compartment that water from `s` reaches through open doors while
/// staying inside `flooded`.
pub open spec fn reach_lo(doors: Seq<bool>, flooded: Seq<u8>, s: int) -> int
    decreases s,
{
    if s > 0 && s - 1 < doors.len() && doors[s - 1] && flooded.contains((s - 1) as u8) {
        reach_lo(doors, flooded, s - 1)
    } else {
        s
    }
}

/// Highest compartment that water from `s` reaches through open doors while
/// staying inside `flooded`.
pub open spec fn reach_hi(doors: Seq<bool>, flooded: Seq<u8>, s: int) -> int
    decreases doors.len() - s,
{
    if 0 <= s < doors.len() && doors[s] && flooded.contains((s + 1) as u8) {
        reach_hi(doors, flooded, s + 1)
    } else {
        s
    }
}

/// The compartments in `lo..hi` that were not damaged, in increasing order.
pub open spec fn new_compartments(initial: Seq<u8>, lo: int, hi: int) -> Seq<u8>
    decreases hi - lo,
{
    if hi <= lo {
        Seq::empty()
    } else {
        let before = new_compartments(initial, lo, hi - 1);
        if initial.contains((hi - 1) as u8) {
            before
        } else {
            before.push((hi - 1) as u8)
        }
    }
}

/// The numbers `lo..hi` in increasing order.
pub open spec fn number_span(lo: int, hi: int) -> Seq<u8> {
    Seq::new((hi - lo) as nat, |i: int| (lo + i) as u8)
}

/// The chain that starts at damaged compartment `s`.
pub open spec fn chain_from(doors: Seq<bool>, initial: Seq<u8>, flooded: Seq<u8>, s: int) -> (
    u8,
    Seq<u8>,
    Seq<u8>,
) {
    let lo = reach_lo(doors, flooded, s);
    let hi = reach_hi(doors, flooded, s);
    (s as u8, new_compartments(initial, lo, hi + 1), number_span(lo, hi))
}

/// The chains of the first `n` damaged compartments, leaving out those that
/// reached no undamaged compartment.
pub open spec fn spread_chains_of(
    doors: Seq<bool>,
    initial: Seq<u8>,
    flooded: Seq<u8>,
    n: int,
) -> Seq<(u8, Seq<u8>, Seq<u8>)>
    decreases n,
{
    if n <= 0 {
        Seq::empty()
    } else {
        let before = spread_chains_of(doors, initial, flooded, n - 1);
        let chain = chain_from(doors, initial, flooded, initial[n - 1] as int);
        if chain.1.len() > 0 {
            before.push(chain)
        } else {
            before
        }
    }
}

/// Number of open doors.
pub open spec fn count_open(doors: Seq<bool>) -> nat
    decreases doors.len(),
{
    if doors.len() == 0 {
        0
    } else {
        count_open(doors.drop_last()) + if doors.last() {
            1nat
        } else {
            0nat
        }
    }
}

/// Decimal digit `d` as a character.
pub open spec fn digit_char(d: nat) -> char {
    ((d % 10) + 48) as char
}

/// `n` written in decimal.
pub open spec fn decimal_text(n: nat) -> Seq<char>
    decreases n,
{
    if n < 10 {
        seq![digit_char(n)]
    } else {
        decimal_text(n / 10).push(digit_char(n % 10))
    }
}

/// The error text for a bulkhead number that has no door.
pub open spec fn invalid_bulkhead_text(bulkhead_id: nat, max_id: nat) -> Seq<char> {
    INVALID_BULKHEAD@ + decimal_text(bulkhead_id) + MAX_BULKHEAD@ + decimal_text(max_id)
}

/// The decimal digit `d` as text.
fn digit_text(d: usize) -> (text: &'static str)
    requires
        d < 10,
    ensures
        text@ == seq![digit_char(d as nat)],
{
    proof {
        reveal_strlit("0");
        reveal_strlit("1");
        reveal_strlit("2");
        reveal_strlit("3");
        reveal_strlit("4");
        reveal_strlit("5");
        reveal_strlit("6");
        reveal_strlit("7");
        reveal_strlit("8");
        reveal_strlit("9");
    }
    match d {
        0 => "0",
        1 => "1",
        2 => "2",
        3 => "3",
        4 => "4",
        5 => "5",
        6 => "6",
        7 => "7",
        8 => "8",
        _ => "9",
    }
}

/// Appends `n`, written in decimal, to `text`.
fn append_decimal(text: &mut String, n: usize)
    ensures
        final(text)@ == old(text)@ + decimal_text(n as nat),
    decreases n,
{
    if n < 10 {
        text.append(digit_text(n));
    } else {
        append_decimal(text, n / 10);
        text.append(digit_text(n % 10));
        proof {
            assert(decimal_text(n as nat) == decimal_text((n / 10) as nat).push(digit_char((n % 10) as nat)));
        }
    }
}

/// Start of the error for a bulkhead number that has no door.
pub const INVALID_BULKHEAD: &'static str = "Invalid bulkhead_id: ";

/// Middle of the error for a bulkhead number that has no door.
pub const MAX_BULKHEAD: &'static str = ", max is ";

/// The error for a bulkhead number that has no door.
fn invalid_bulkhead_message(bulkhead_id: u8, max_id: usize) -> (text: String)
    ensures
        text@ == invalid_bulkhead_text(bulkhead_id as nat, max_id as nat),
{
    let mut text = String::from_str(INVALID_BULKHEAD);
    append_decimal(&mut text, bulkhead_id as usize);
    text.append(MAX_BULKHEAD);
    append_decimal(&mut text, max_id);
    proof {
        assert(text@ =~= invalid_bulkhead_text(bulkhead_id as nat, max_id as nat));
    }
    text
}

/// The door state that a control request asks for, stamped with `now_millis`,
/// the time of the request in milliseconds since the Unix epoch.
pub fn door_state_for_request(request: &DoorControlRequest, now_millis: i64) -> (state: BulkheadDoorState)
    ensures
        state.bulkhead_id == request.bulkhead_id,
        state.is_open == request.open,
        state.last_changed == now_millis,
{
    BulkheadDoorState { bulkhead_id: request.bulkhead_id, is_open: request.open, last_changed: now_millis }
}

/// `records` with the door at `idx` replaced by `door`.
fn replace_door(records: &Vec<BulkheadDoorState>, idx: usize, door: BulkheadDoorState) -> (updated: Vec<
    BulkheadDoorState,
>)
    requires
        idx < records.len(),
    ensures
        updated@ == records@.update(idx as int, door),
{
    let mut updated: Vec<BulkheadDoorState> = Vec::new();
    let mut i: usize = 0;
    while i < records.len()
        invariant
            i <= records.len(),
            idx < records.len(),
            updated@ == records@.update(idx as int, door).take(i as int),
        decreases records.len() - i,
    {
        if i == idx {
            updated.push(door);
        } else {
            updated.push(records[i]);
        }
        proof {
            assert(updated@ =~= records@.update(idx as int, door).take(i + 1));
        }
        i += 1;
    }
    proof {
        assert(updated@ =~= records@.update(idx as int, door));
    }
    updated
}

/// The doors of a ship together with the stability model `H` of its hull.
pub struct VRCompartmentSimulator<H> {
    hydrostatics: H,
    compartment_count: u8,
    door_states: Vec<BulkheadDoorState>,
}

impl<H> VRCompartmentSimulator<H> {
    #[verifier::type_invariant]
    spec fn doors_well_formed(self) -> bool {
        &&& self.door_states.len() == door_count(self.compartment_count)
        &&& doors_numbered(self.door_states@)
    }

    /// The stability model the simulator was built with.
    pub closed spec fn hull(&self) -> H {
        self.hydrostatics
    }

    /// Number of compartments of the ship.
    pub closed spec fn compartments(&self) -> u8 {
        self.compartment_count
    }

    /// The doors, bulkhead by bulkhead.
    pub closed spec fn door_records(&self) -> Seq<BulkheadDoorState> {
        self.door_states@
    }

    /// Which doors stand open, bulkhead by bulkhead.
    pub open spec fn doors(&self) -> Seq<bool> {
        open_flags(self.door_records())
    }

    /// A simulator for a ship of `compartment_count` compartments, all doors
    /// shut and stamped with `now_millis`.
    pub fn new(hydrostatics: H, compartment_count: u8, now_millis: i64) -> (sim: Self)
        ensures
            sim.hull() == hydrostatics,
            sim.compartments() == compartment_count,
            sim.door_records().len() == door_count(compartment_count),
            forall|i: int|
                0 <= i < sim.door_records().len() ==> #[trigger] sim.door_records()[i] == door_record(
                    i,
                    false,
                    now_millis,
                ),
            forall|i: int| 0 <= i < sim.doors().len() ==> !#[trigger] sim.doors()[i],
    {
        let n = compartment_count.saturating_sub(1);
        let mut door_states: Vec<BulkheadDoorState> = Vec::new();
        let mut i: u8 = 0;
        while i < n
            invariant
                i <= n,
                n == door_count(compartment_count),
                door_states.len() == i,
                forall|k: int| 0 <= k < i ==> #[trigger] door_states@[k] == door_record(k, false, now_millis),
            decreases n - i,
        {
            door_states.push(BulkheadDoorState { bulkhead_id: i, is_open: false, last_changed: now_millis });
            i += 1;
        }
        VRCompartmentSimulator { hydrostatics, compartment_count, door_states }
    }

    /// The stability model the simulator was built with.
    pub fn hydrostatics(&self) -> (h: &H)
        ensures
            *h == self.hull(),
    {
        &self.hydrostatics
    }

    /// The doors, bulkhead by bulkhead.
    pub fn door_states(&self) -> (doors: &[BulkheadDoorState])
        ensures
            doors@ == self.door_records(),
            doors@.len() == door_count(self.compartments()),
            doors_numbered(doors@),
    {
        proof {
            use_type_invariant(self);
        }
        self.door_states.as_slice()
    }

    /// Sets door `bulkhead_id` open or shut at time `now_millis`; a number
    /// with no door is refused and nothing changes.
    pub fn set_door_state(&mut self, bulkhead_id: u8, is_open: bool, now_millis: i64) -> (result: Result<(), String>)
        ensures
            final(self).hull() == old(self).hull(),
            final(self).compartments() == old(self).compartments(),
            result is Ok <==> (bulkhead_id as int) < old(self).door_records().len(),
            result is Ok ==> final(self).door_records() == old(self).door_records().update(
                bulkhead_id as int,
                door_record(bulkhead_id as int, is_open, now_millis),
            ),
            result is Ok ==> final(self).doors() == old(self).doors().update(bulkhead_id as int, is_open),
            result is Err ==> final(self).door_records() == old(self).door_records(),
            result matches Err(text) ==> text@ == invalid_bulkhead_text(
                bulkhead_id as nat,
                if old(self).door_records().len() == 0 {
                    0nat
                } else {
                    (old(self).door_records().len() - 1) as nat
                },
            ),
    {
        proof {
            use_type_invariant(&*self);
        }
        let idx = bulkhead_id as usize;
        if idx >= self.door_states.len() {
            return Err(invalid_bulkhead_message(bulkhead_id, self.door_states.len().saturating_sub(1)));
        }
        let ghost before = self.door_states@;
        let door = BulkheadDoorState { bulkhead_id, is_open, last_changed: now_millis };
        let updated = replace_door(&self.door_states, idx, door);
        self.door_states = updated;
        proof {
            assert(open_flags(self.door_states@) =~= open_flags(before).update(idx as int, is_open));
        }
        Ok(())
    }

    /// Opens door `bulkhead_id` at time `now_millis`.
    pub fn open_door(&mut self, bulkhead_id: u8, now_millis: i64) -> (result: Result<(), String>)
        ensures
            final(self).hull() == old(self).hull(),
            final(self).compartments() == old(self).compartments(),
            result is Ok <==> (bulkhead_id as int) < old(self).door_records().len(),
            result is Ok ==> final(self).door_records() == old(self).door_records().update(
                bulkhead_id as int,
                door_record(bulkhead_id as int, true, now_millis),
            ),
            result is Ok ==> final(self).doors() == old(self).doors().update(bulkhead_id as int, true),
            result is Err ==> final(self).door_records() == old(self).door_records(),
            result matches Err(text) ==> text@ == invalid_bulkhead_text(
                bulkhead_id as nat,
                if old(self).door_records().len() == 0 {
                    0nat
                } else {
                    (old(self).door_records().len() - 1) as nat
                },
            ),
    {
        self.set_door_state(bulkhead_id, true, now_millis)
    }

    /// Shuts door `bulkhead_id` at time `now_millis`.
    pub fn close_door(&mut self, bulkhead_id: u8, now_millis: i64) -> (result: Result<(), String>)
        ensures
            final(self).hull() == old(self).hull(),
            final(self).compartments() == old(self).compartments(),
            result is Ok <==> (bulkhead_id as int) < old(self).door_records().len(),
            result is Ok ==> final(self).door_records() == old(self).door_records().update(
                bulkhead_id as int,
                door_record(bulkhead_id as int, false, now_millis),
            ),
            result is Ok ==> final(self).doors() == old(self).doors().update(bulkhead_id as int, false),
            result is Err ==> final(self).door_records() == old(self).door_records(),
            result matches Err(text) ==> text@ == invalid_bulkhead_text(
                bulkhead_id as nat,
                if old(self).door_records().len() == 0 {
                    0nat
                } else {
                    (old(self).door_records().len() - 1) as nat
                },
            ),
    {
        self.set_door_state(bulkhead_id, false, now_millis)
    }

    /// Sets every door to `is_open` at time `now_millis`.
    fn set_all_doors(&mut self, is_open: bool, now_millis: i64)
        ensures
            final(self).hull() == old(self).hull(),
            final(self).compartments() == old(self).compartments(),
            final(self).door_records().len() == old(self).door_records().len(),
            forall|i: int|
                0 <= i < final(self).door_records().len() ==> #[trigger] final(self).door_records()[i]
                    == door_record(i, is_open, now_millis),
            forall|i: int| 0 <= i < final(self).doors().len() ==> #[trigger] final(self).doors()[i] == is_open,
    {
        proof {
            use_type_invariant(&*self);
        }
        let n = self.door_states.len();
        let mut updated: Vec<BulkheadDoorState> = Vec::new();
        let mut i: usize = 0;
        while i < n
            invariant
                i <= n,
                n == self.door_states.len(),
                updated.len() == i,
                doors_numbered(self.door_states@),
                forall|k: int| 0 <= k < i ==> #[trigger] updated@[k] == door_record(k, is_open, now_millis),
            decreases n - i,
        {
            let id = self.door_states[i].bulkhead_id;
            updated.push(BulkheadDoorState { bulkhead_id: id, is_open, last_changed: now_millis });
            i += 1;
        }
        self.door_states = updated;
    }

    /// Shuts every door at time `now_millis`.
    pub fn close_all_doors(&mut self, now_millis: i64)
        ensures
            final(self).hull() == old(self).hull(),
            final(self).compartments() == old(self).compartments(),
            final(self).door_records().len() == old(self).door_records().len(),
            forall|i: int|
                0 <= i < final(self).door_records().len() ==> #[trigger] final(self).door_records()[i]
                    == door_record(i, false, now_millis),
            forall|i: int| 0 <= i < final(self).doors().len() ==> !#[trigger] final(self).doors()[i],
    {
        self.set_all_doors(false, now_millis);
    }

    /// Opens every door at time `now_millis`.
    pub fn open_all_doors(&mut self, now_millis: i64)
        ensures
            final(self).hull() == old(self).hull(),
            final(self).compartments() == old(self).compartments(),
            final(self).door_records().len() == old(self).door_records().len(),
            forall|i: int|
                0 <= i < final(self).door_records().len() ==> #[trigger] final(self).door_records()[i]
                    == door_record(i, true, now_millis),
            forall|i: int| 0 <= i < final(self).doors().len() ==> #[trigger] final(self).doors()[i],
    {
        self.set_all_doors(true, now_millis);
    }

    /// Counts the doors that stand open and those that are shut.
    pub fn get_door_status_summary(&self) -> (summary: DoorStatusSummary)
        ensures
            summary.total_doors == self.doors().len(),
            summary.open_doors == count_open(self.doors()),
            summary.closed_doors == self.doors().len() - count_open(self.doors()),
            summary.open_doors == self.doors().filter(|b: bool| b).len(),
            summary.open_doors + summary.closed_doors == self.doors().len(),
    {
        proof {
            use_type_invariant(self);
            law_count_open_counts_open_doors(self.doors());
            law_count_open(self.doors());
        }
        let ghost doors = self.doors();
        let total = self.door_states.len();
        let mut open: usize = 0;
        let mut i: usize = 0;
        while i < total
            invariant
                i <= total,
                total == self.door_states.len(),
                total <= 254,
                doors == open_flags(self.door_states@),
                open == count_open(doors.take(i as int)),
                open <= i,
            decreases total - i,
        {
            proof {
                assert(doors.take(i + 1).drop_last() =~= doors.take(i as int));
            }
            if self.door_states[i].is_open {
                open += 1;
            }
            i += 1;
        }
        proof {
            assert(doors.take(total as int) =~= doors);
        }
        DoorStatusSummary {
            total_doors: total as u8,
            open_doors: open as u8,
            closed_doors: (total - open) as u8,
        }
    }

    /// The compartments that water from `initial` reaches through the open doors.
    fn flooded_set(&self, initial: &Vec<u8>) -> (flooded: HashSet<u8>)
        ensures
            forall|x: u8| flooded@.contains(x) <==> floods(self.doors(), initial@, x as int),
    {
        broadcast use vstd::std_specs::hash::group_hash_axioms;

        proof {
            use_type_invariant(self);
        }
        let ghost doors = self.doors();
        let n = self.door_states.len();
        assert(doors.len() == n);
        let mut flooded: HashSet<u8> = HashSet::new();
        let mut k: usize = 0;
        while k < initial.len()
            invariant
                k <= initial.len(),
                n == self.door_states.len(),
                n <= 254,
                doors == open_flags(self.door_states@),
                doors == self.doors(),
                doors.len() == n,
                forall|x: u8|
                    flooded@.contains(x) <==> exists|i: int|
                        0 <= i < k && #[trigger] doors_open_between(doors, initial@[i] as int, x as int),
            decreases initial.len() - k,
        {
            let c = initial[k];
            let mut lo: usize = c as usize;
            while lo > 0 && lo - 1 < n && self.door_states[lo - 1].is_open
                invariant
                    lo <= c,
                    n == self.door_states.len(),
                    doors == open_flags(self.door_states@),
                    doors.len() == n,
                    doors_open_between(doors, lo as int, c as int),
                decreases lo,
            {
                proof {
                    assert(doors[lo - 1]);
                }
                lo -= 1;
            }
            let mut hi: usize = c as usize;
            while hi < n && self.door_states[hi].is_open
                invariant
                    c <= hi <= 255,
                    n <= 254,
                    n == self.door_states.len(),
                    doors == open_flags(self.door_states@),
                    doors.len() == n,
                    doors_open_between(doors, c as int, hi as int),
                decreases 256 - hi,
            {
                proof {
                    assert(doors[hi as int]);
                }
                hi += 1;
            }
            let ghost before = flooded@;
            let mut y: usize = lo;
            while y <= hi
                invariant
                    lo <= y <= hi + 1,
                    hi <= 255,
                    forall|x: u8|
                        #![trigger flooded@.contains(x)]
                        #![trigger before.contains(x)]
                        flooded@.contains(x) <==> (before.contains(x) || lo <= x < y),
                decreases hi + 1 - y,
            {
                let ghost prev = flooded@;
                flooded.insert(y as u8);
                proof {
                    assert(flooded@ == prev.insert(y as u8));
                    assert forall|x: u8|
                        #![trigger flooded@.contains(x)]
                        #![trigger before.contains(x)]
                        flooded@.contains(x) <==> (before.contains(x) || lo <= x < y + 1) by {
                        assert(prev.contains(x) <==> (before.contains(x) || lo <= x < y));
                        if x == y as u8 {
                            assert(x as int == y);
                            assert(flooded@.contains(x));
                        } else {
                            assert(x as int != y);
                            assert(flooded@.contains(x) == prev.contains(x));
                        }
                    }
                }
                y += 1;
            }
            proof {
                if lo > 0 && lo - 1 < n {
                    assert(doors[lo - 1] == self.door_states@[lo - 1].is_open);
                }
                if hi < n {
                    assert(doors[hi as int] == self.door_states@[hi as int].is_open);
                }
                assert forall|x: u8| (lo <= x <= hi <==> #[trigger] doors_open_between(
                    doors,
                    c as int,
                    x as int,
                )) by {
                    if lo <= x <= hi {
                        if x <= c {
                            assert forall|d: int| x <= d < c implies #[trigger] doors[d] by {
                                assert(lo <= d < c);
                            }
                        } else {
                            assert forall|d: int| c <= d < x implies #[trigger] doors[d] by {
                                assert(c <= d < hi);
                            }
                        }
                    }
                }
                assert forall|x: u8| #![trigger flooded@.contains(x)] (flooded@.contains(x) <==> exists|i: int|
                    0 <= i < k + 1 && #[trigger] doors_open_between(doors, initial@[i] as int, x as int)) by {
                    assert(flooded@.contains(x) <==> (before.contains(x) || lo <= x <= hi));
                    assert(before.contains(x) <==> exists|i: int|
                        0 <= i < k && #[trigger] doors_open_between(doors, initial@[i] as int, x as int));
                    assert(lo <= x <= hi <==> doors_open_between(doors, c as int, x as int));
                    if flooded@.contains(x) {
                        if before.contains(x) {
                            let i = choose|i: int|
                                0 <= i < k && #[trigger] doors_open_between(doors, initial@[i] as int, x as int);
                            assert(0 <= i < k + 1 && doors_open_between(doors, initial@[i] as int, x as int));
                        } else {
                            assert(lo <= x <= hi);
                            assert(doors_open_between(doors, initial@[k as int] as int, x as int));
                        }
                    }
                    if exists|i: int| 0 <= i < k + 1 && #[trigger] doors_open_between(doors, initial@[i] as int, x as int) {
                        let i = choose|i: int|
                            0 <= i < k + 1 && #[trigger] doors_open_between(doors, initial@[i] as int, x as int);
                        if i < k {
                            assert(before.contains(x));
                        } else {
                            assert(initial@[i] == c);
                            assert(lo <= x <= hi);
                        }
                    }
                }
            }
            k += 1;
        }
        flooded
    }

    /// The chains of spreading: for each damaged compartment (in the order given)
    /// the undamaged compartments of `final_flooded` that water from it reached
    /// through open doors, and the doors it passed; a damaged compartment that
    /// reached none gives no chain.
    fn calculate_spread_chains(&self, initial: &Vec<u8>, final_flooded: &Vec<u8>) -> (chains: Vec<
        SpreadChain,
    >)
        requires
            forall|i: int| 0 <= i < initial.len() ==> initial@[i] < 255,
        ensures
            chains.len() == spread_chains_of(self.doors(), initial@, final_flooded@, initial.len() as int).len(),
            forall|j: int|
                0 <= j < chains.len() ==> #[trigger] chains@[j]@ == spread_chains_of(
                    self.doors(),
                    initial@,
                    final_flooded@,
                    initial.len() as int,
                )[j],
    {
        proof {
            use_type_invariant(self);
        }
        let ghost doors = self.doors();
        let ghost flooded = final_flooded@;
        let n = self.door_states.len();
        assert(doors.len() == n);
        let mut chains: Vec<SpreadChain> = Vec::new();
        let mut k: usize = 0;
        while k < initial.len()
            invariant
                k <= initial.len(),
                n == self.door_states.len(),
                n <= 254,
                doors == open_flags(self.door_states@),
                doors == self.doors(),
                doors.len() == n,
                flooded == final_flooded@,
                forall|i: int| 0 <= i < initial.len() ==> initial@[i] < 255,
                chains.len() == spread_chains_of(doors, initial@, flooded, k as int).len(),
                forall|j: int|
                    0 <= j < chains.len() ==> #[trigger] chains@[j]@ == spread_chains_of(
                        doors,
                        initial@,
                        flooded,
                        k as int,
                    )[j],
            decreases initial.len() - k,
        {
            let s = initial[k];
            let mut lo: usize = s as usize;
            loop
                invariant
                    lo <= s,
                    n == self.door_states.len(),
                    doors == open_flags(self.door_states@),
                    doors.len() == n,
                    flooded == final_flooded@,
                    reach_lo(doors, flooded, lo as int) == reach_lo(doors, flooded, s as int),
                ensures
                    lo <= s,
                    reach_lo(doors, flooded, lo as int) == reach_lo(doors, flooded, s as int),
                    reach_lo(doors, flooded, lo as int) == lo,
                decreases lo,
            {
                if lo == 0 || lo - 1 >= n {
                    break;
                }
                proof {
                    assert(doors[lo - 1] == self.door_states@[lo - 1].is_open);
                }
                if !self.door_states[lo - 1].is_open {
                    break;
                }
                if !holds_compartment(final_flooded, (lo - 1) as u8) {
                    break;
                }
                lo -= 1;
            }
            let mut hi: usize = s as usize;
            loop
                invariant
                    s <= hi <= 255,
                    n == self.door_states.len(),
                    n <= 254,
                    doors == open_flags(self.door_states@),
                    doors.len() == n,
                    flooded == final_flooded@,
                    reach_hi(doors, flooded, hi as int) == reach_hi(doors, flooded, s as int),
                ensures
                    s <= hi <= 255,
                    reach_hi(doors, flooded, hi as int) == reach_hi(doors, flooded, s as int),
                    reach_hi(doors, flooded, hi as int) == hi,
                decreases 256 - hi,
            {
                if hi >= n {
                    break;
                }
                proof {
                    assert(doors[hi as int] == self.door_states@[hi as int].is_open);
                }
                if !self.door_states[hi].is_open {
                    break;
                }
                if !holds_compartment(final_flooded, (hi + 1) as u8) {
                    break;
                }
                hi += 1;
            }
            let ghost chain = chain_from(doors, initial@, flooded, s as int);
            let mut spread_to: Vec<u8> = Vec::new();
            let mut y: usize = lo;
            while y <= hi
                invariant
                    lo <= y <= hi + 1,
                    hi <= 255,
                    spread_to@ == new_compartments(initial@, lo as int, y as int),
                decreases hi + 1 - y,
            {
                if !holds_compartment(initial, y as u8) {
                    spread_to.push(y as u8);
                }
                y += 1;
            }
            let mut via_doors: Vec<u8> = Vec::new();
            let mut d: usize = lo;
            while d < hi
                invariant
                    lo <= d <= hi,
                    hi <= 255,
                    via_doors@ == number_span(lo as int, d as int),
                decreases hi - d,
            {
                via_doors.push(d as u8);
                proof {
                    assert(via_doors@ =~= number_span(lo as int, d + 1));
                }
                d += 1;
            }
            proof {
                assert(spread_to@ == chain.1);
                assert(via_doors@ == chain.2);
            }
            let ghost before = chains@;
            if spread_to.len() > 0 {
                chains.push(
                    SpreadChain { source_compartment: s, spread_to_compartments: spread_to, via_doors },
                );
            }
            proof {
                assert forall|j: int|
                    0 <= j < chains.len() implies #[trigger] chains@[j]@ == spread_chains_of(
                        doors,
                        initial@,
                        flooded,
                        k + 1,
                    )[j] by {
                    if j < before.len() {
                        assert(chains@[j] == before[j]);
                    }
                }
            }
            k += 1;
        }
        chains
    }

    /// Spreads the damage through the open doors: the flooded compartments in
    /// the end, in increasing order, whether the doors let water spread, and
    /// the chains of spreading.
    pub fn simulate_with_door_states(&self, flooded_compartments: &Vec<u8>) -> (outcome: DoorSpreadOutcome)
        requires
            forall|i: int| 0 <= i < flooded_compartments.len() ==> flooded_compartments@[i] < 255,
        ensures
            outcome.initial_damage@ == flooded_compartments@,
            strictly_increasing(outcome.effective_flooded@),
            forall|x: u8|
                outcome.effective_flooded@.contains(x) <==> floods(
                    self.doors(),
                    flooded_compartments@,
                    x as int,
                ),
            outcome.door_states@ == self.door_records(),
            outcome.spread_through_doors == (outcome.effective_flooded.len()
                > flooded_compartments.len()),
            outcome.spread_chains.len() == spread_chains_of(
                self.doors(),
                flooded_compartments@,
                outcome.effective_flooded@,
                flooded_compartments.len() as int,
            ).len(),
            forall|j: int|
                0 <= j < outcome.spread_chains.len() ==> #[trigger] outcome.spread_chains@[j]@
                    == spread_chains_of(
                    self.doors(),
                    flooded_compartments@,
                    outcome.effective_flooded@,
                    flooded_compartments.len() as int,
                )[j],
    {
        let flooded = self.flooded_set(flooded_compartments);
        let effective_flooded = sorted_compartments(&flooded);
        let spread_chains = self.calculate_spread_chains(flooded_compartments, &effective_flooded);
        let initial_damage = flooded_compartments.clone();
        let door_states = self.door_states.clone();
        proof {
            assert(initial_damage@ =~= flooded_compartments@);
            assert(door_states@ =~= self.door_states@);
        }
        let spread_through_doors = effective_flooded.len() > flooded_compartments.len();
        DoorSpreadOutcome {
            initial_damage,
            effective_flooded,
            door_states,
            spread_through_doors,
            spread_chains,
        }
    }
}

/// Doors open all the way from `a` to `b` and from `b` to `c` are open all
/// the way from `a` to `c`.
pub proof fn lemma_doors_open_transitive(doors: Seq<bool>, a: int, b: int, c: int)
    requires
        doors_open_between(doors, a, b),
        doors_open_between(doors, b, c),
    ensures
        doors_open_between(doors, a, c),
{
    let lo = if a <= c { a } else { c };
    let hi = if a <= c { c } else { a };
    assert forall|d: int| lo <= d < hi implies #[trigger] doors[d] by {
        if (a <= d < b) || (b <= d < a) {
            assert(doors[d]);
        } else {
            assert((b <= d < c) || (c <= d < b));
            assert(doors[d]);
        }
    }
    if lo < hi {
        assert(0 <= lo && hi <= doors.len());
    }
}

/// Every damaged compartment is flooded, whatever the doors.
pub proof fn law_damage_floods(doors: Seq<bool>, initial: Seq<u8>, i: int)
    requires
        0 <= i < initial.len(),
    ensures
        floods(doors, initial, initial[i] as int),
{
    assert(doors_open_between(doors, initial[i] as int, initial[i] as int));
}

/// With every door shut, water stays in the damaged compartments.
pub proof fn law_shut_doors_contain_damage(doors: Seq<bool>, initial: Seq<u8>)
    requires
        forall|d: int| 0 <= d < doors.len() ==> !#[trigger] doors[d],
    ensures
        forall|x: u8| floods(doors, initial, x as int) <==> initial.contains(x),
{
    assert forall|x: u8| floods(doors, initial, x as int) <==> initial.contains(x) by {
        if floods(doors, initial, x as int) {
            let i = choose|i: int|
                0 <= i < initial.len() && #[trigger] doors_open_between(doors, initial[i] as int, x as int);
            if initial[i] < x {
                assert(!doors[initial[i] as int]);
            } else if initial[i] > x {
                assert(!doors[x as int]);
            }
            assert(initial[i] == x);
        }
        if initial.contains(x) {
            let i = choose|i: int| 0 <= i < initial.len() && initial[i] == x;
            law_damage_floods(doors, initial, i);
        }
    }
}

/// Water passes every open door: a flooded compartment floods its neighbour
/// on the other side of an open door, in either direction.
pub proof fn law_open_door_passes_water(doors: Seq<bool>, initial: Seq<u8>, d: int)
    requires
        0 <= d < doors.len(),
        doors[d],
    ensures
        floods(doors, initial, d) <==> floods(doors, initial, d + 1),
{
    assert(doors_open_between(doors, d, d + 1));
    assert(doors_open_between(doors, d + 1, d));
    if floods(doors, initial, d) {
        let i = choose|i: int| 0 <= i < initial.len() && #[trigger] doors_open_between(doors, initial[i] as int, d);
        lemma_doors_open_transitive(doors, initial[i] as int, d, d + 1);
    }
    if floods(doors, initial, d + 1) {
        let i = choose|i: int|
            0 <= i < initial.len() && #[trigger] doors_open_between(doors, initial[i] as int, d + 1);
        lemma_doors_open_transitive(doors, initial[i] as int, d + 1, d);
    }
}

/// Spreading the flooded compartments once more floods nothing new.
pub proof fn law_spread_is_idempotent(doors: Seq<bool>, initial: Seq<u8>, flooded: Seq<u8>)
    requires
        forall|x: u8| flooded.contains(x) <==> floods(doors, initial, x as int),
    ensures
        forall|x: u8| floods(doors, flooded, x as int) <==> floods(doors, initial, x as int),
{
    assert forall|x: u8| floods(doors, flooded, x as int) <==> floods(doors, initial, x as int) by {
        if floods(doors, flooded, x as int) {
            let j = choose|j: int|
                0 <= j < flooded.len() && #[trigger] doors_open_between(doors, flooded[j] as int, x as int);
            let y = flooded[j];
            assert(flooded.contains(y));
            assert(floods(doors, initial, y as int));
            let i = choose|i: int|
                0 <= i < initial.len() && #[trigger] doors_open_between(doors, initial[i] as int, y as int);
            lemma_doors_open_transitive(doors, initial[i] as int, y as int, x as int);
        }
        if floods(doors, initial, x as int) {
            assert(flooded.contains(x));
            let j = choose|j: int| 0 <= j < flooded.len() && flooded[j] == x;
            assert(doors_open_between(doors, flooded[j] as int, x as int));
        }
    }
}

/// Opening more doors, or damaging more compartments, never leaves a
/// compartment dry that was flooded before.
pub proof fn law_flooding_is_monotone(
    doors: Seq<bool>,
    more_doors: Seq<bool>,
    initial: Seq<u8>,
    more_initial: Seq<u8>,
)
    requires
        doors.len() == more_doors.len(),
        forall|d: int| 0 <= d < doors.len() && #[trigger] doors[d] ==> more_doors[d],
        forall|x: u8| initial.contains(x) ==> more_initial.contains(x),
    ensures
        forall|x: int| floods(doors, initial, x) ==> floods(more_doors, more_initial, x),
{
    assert forall|x: int| floods(doors, initial, x) implies floods(more_doors, more_initial, x) by {
        let i = choose|i: int| 0 <= i < initial.len() && #[trigger] doors_open_between(doors, initial[i] as int, x);
        let s = initial[i];
        assert(initial.contains(s));
        let k = choose|k: int| 0 <= k < more_initial.len() && more_initial[k] == s;
        let lo = if s <= x { s as int } else { x };
        let hi = if s <= x { x } else { s as int };
        assert forall|d: int| lo <= d < hi implies #[trigger] more_doors[d] by {
            assert(doors[d]);
        }
        assert(doors_open_between(more_doors, more_initial[k] as int, x));
    }
}

/// A list without repeats, all of whose elements occur in `t`, is no longer than `t`.
proof fn lemma_listing_no_longer(s: Seq<u8>, t: Seq<u8>)
    requires
        strictly_increasing(s),
        forall|x: u8| s.contains(x) ==> t.contains(x),
    ensures
        s.len() <= t.len(),
{
    broadcast use vstd::seq_lib::seq_to_set_is_finite;

    assert(s.no_duplicates()) by {
        assert forall|i: int, j: int| 0 <= i < s.len() && 0 <= j < s.len() && i != j implies s[i] != s[j] by {
            if i < j {
                assert(s[i] < s[j]);
            } else {
                assert(s[j] < s[i]);
            }
        }
    }
    s.unique_seq_to_set();
    t.lemma_cardinality_of_set();
    assert(s.to_set().subset_of(t.to_set())) by {
        assert forall|x: u8| s.to_set().contains(x) implies t.to_set().contains(x) by {
            assert(s.contains(x));
        }
    }
    vstd::set_lib::lemma_len_subset(s.to_set(), t.to_set());
}

/// Water from `s` reaches downward at least to `x` when every door between
/// is open and every compartment between lies in `flooded`.
proof fn lemma_reach_lo_below(doors: Seq<bool>, flooded: Seq<u8>, s: int, x: int)
    requires
        0 <= x <= s < 256,
        doors_open_between(doors, x, s),
        forall|c: u8| x <= c < s ==> #[trigger] flooded.contains(c),
    ensures
        reach_lo(doors, flooded, s) <= x,
    decreases s - x,
{
    if x < s {
        assert(doors[s - 1]);
        assert(flooded.contains((s - 1) as u8));
        assert(doors_open_between(doors, x, s - 1));
        lemma_reach_lo_below(doors, flooded, s - 1, x);
    } else {
        lemma_reach_bounds(doors, flooded, s);
    }
}

/// Water from `s` reaches upward at least to `x` when every door between
/// is open and every compartment between lies in `flooded`.
proof fn lemma_reach_hi_above(doors: Seq<bool>, flooded: Seq<u8>, s: int, x: int)
    requires
        0 <= s <= x < 256,
        doors_open_between(doors, s, x),
        forall|c: u8| s < c <= x ==> #[trigger] flooded.contains(c),
    ensures
        reach_hi(doors, flooded, s) >= x,
    decreases x - s,
{
    if s < x {
        assert(doors[s]);
        assert(flooded.contains((s + 1) as u8));
        assert(doors_open_between(doors, s + 1, x));
        lemma_reach_hi_above(doors, flooded, s + 1, x);
    } else {
        lemma_reach_hi_at_least(doors, flooded, s);
    }
}

/// The lowest compartment that water from `s` reaches lies at or below `s`,
/// and the highest at or above it.
proof fn lemma_reach_bounds(doors: Seq<bool>, flooded: Seq<u8>, s: int)
    requires
        0 <= s,
    ensures
        0 <= reach_lo(doors, flooded, s) <= s <= reach_hi(doors, flooded, s),
    decreases s,
{
    if s > 0 && s - 1 < doors.len() && doors[s - 1] && flooded.contains((s - 1) as u8) {
        lemma_reach_bounds(doors, flooded, s - 1);
    }
    lemma_reach_hi_at_least(doors, flooded, s);
}

/// The highest compartment that water from `s` reaches is not below `s`.
proof fn lemma_reach_hi_at_least(doors: Seq<bool>, flooded: Seq<u8>, s: int)
    ensures
        s <= reach_hi(doors, flooded, s),
    decreases doors.len() - s,
{
    if 0 <= s < doors.len() && doors[s] && flooded.contains((s + 1) as u8) {
        lemma_reach_hi_at_least(doors, flooded, s + 1);
    }
}

/// Water from `s` goes no higher than the last door allows.
proof fn lemma_reach_hi_at_most(doors: Seq<bool>, flooded: Seq<u8>, s: int)
    ensures
        reach_hi(doors, flooded, s) <= if s <= doors.len() { doors.len() as int } else { s },
    decreases doors.len() - s,
{
    if 0 <= s < doors.len() && doors[s] && flooded.contains((s + 1) as u8) {
        lemma_reach_hi_at_most(doors, flooded, s + 1);
    }
}

/// Every compartment of `lo..hi` that was not damaged occurs in the list of new compartments.
proof fn lemma_new_compartments_has(initial: Seq<u8>, lo: int, hi: int, x: int)
    requires
        lo <= x < hi,
        0 <= x < 256,
        !initial.contains(x as u8),
    ensures
        new_compartments(initial, lo, hi).contains(x as u8),
    decreases hi - lo,
{
    let before = new_compartments(initial, lo, hi - 1);
    if x == hi - 1 {
        assert(new_compartments(initial, lo, hi) == before.push(x as u8));
        assert(before.push(x as u8)[before.len() as int] == x as u8);
    } else {
        lemma_new_compartments_has(initial, lo, hi - 1, x);
        let k = choose|k: int| 0 <= k < before.len() && before[k] == x as u8;
        if !initial.contains((hi - 1) as u8) {
            assert(before.push((hi - 1) as u8)[k] == x as u8);
        }
    }
}

/// Once some damaged compartment among the first `n` gives a chain, the list
/// of chains of the first `m >= n` is not empty.
proof fn lemma_chains_not_empty(doors: Seq<bool>, initial: Seq<u8>, flooded: Seq<u8>, i: int, m: int)
    requires
        0 <= i < m <= initial.len(),
        chain_from(doors, initial, flooded, initial[i] as int).1.len() > 0,
    ensures
        spread_chains_of(doors, initial, flooded, m).len() > 0,
    decreases m,
{
    if i < m - 1 {
        lemma_chains_not_empty(doors, initial, flooded, i, m - 1);
    }
}

/// When the doors let water into more compartments than were damaged, at
/// least one chain of spreading is reported.
pub proof fn law_spread_has_a_chain(doors: Seq<bool>, initial: Seq<u8>, flooded: Seq<u8>)
    requires
        strictly_increasing(flooded),
        forall|x: u8| flooded.contains(x) <==> floods(doors, initial, x as int),
        flooded.len() > initial.len(),
    ensures
        spread_chains_of(doors, initial, flooded, initial.len() as int).len() > 0,
{
    if forall|x: u8| flooded.contains(x) ==> initial.contains(x) {
        lemma_listing_no_longer(flooded, initial);
    }
    let x = choose|x: u8| flooded.contains(x) && !initial.contains(x);
    assert(floods(doors, initial, x as int));
    let i = choose|i: int|
        0 <= i < initial.len() && #[trigger] doors_open_between(doors, initial[i] as int, x as int);
    let s = initial[i] as int;
    let xi = x as int;
    assert(s != xi);
    if xi < s {
        assert forall|c: u8| xi <= c < s implies #[trigger] flooded.contains(c) by {
            assert(doors_open_between(doors, s, c as int)) by {
                assert forall|d: int| c <= d < s implies #[trigger] doors[d] by {
                    assert(xi <= d < s);
                }
            }
            assert(floods(doors, initial, c as int));
        }
        lemma_reach_lo_below(doors, flooded, s, xi);
    } else {
        assert forall|c: u8| s < c <= xi implies #[trigger] flooded.contains(c) by {
            assert(doors_open_between(doors, s, c as int)) by {
                assert forall|d: int| s <= d < c implies #[trigger] doors[d] by {
                    assert(s <= d < xi);
                }
            }
            assert(floods(doors, initial, c as int));
        }
        lemma_reach_hi_above(doors, flooded, s, xi);
    }
    lemma_reach_bounds(doors, flooded, s);
    let lo = reach_lo(doors, flooded, s);
    let hi = reach_hi(doors, flooded, s);
    lemma_new_compartments_has(initial, lo, hi + 1, xi);
    lemma_chains_not_empty(doors, initial, flooded, i, initial.len() as int);
}

/// Every compartment that water from `s` reaches, other than `s` itself, lies in `flooded`.
proof fn lemma_reached_are_flooded(doors: Seq<bool>, flooded: Seq<u8>, s: int, c: int)
    requires
        0 <= s,
        reach_lo(doors, flooded, s) <= c <= reach_hi(doors, flooded, s),
        c != s,
    ensures
        flooded.contains(c as u8),
    decreases if c < s { s } else { doors.len() - s },
{
    lemma_reach_bounds(doors, flooded, s);
    if c < s {
        assert(s > 0 && s - 1 < doors.len() && doors[s - 1] && flooded.contains((s - 1) as u8));
        if c < s - 1 {
            lemma_reached_are_flooded(doors, flooded, s - 1, c);
        }
    } else {
        assert(0 <= s < doors.len() && doors[s] && flooded.contains((s + 1) as u8));
        if c > s + 1 {
            lemma_reach_hi_at_least(doors, flooded, s + 1);
            lemma_reached_are_flooded(doors, flooded, s + 1, c);
        }
    }
}

/// The new compartments of `lo..hi` lie in `lo..hi` and were not damaged.
proof fn lemma_new_compartments_in(initial: Seq<u8>, lo: int, hi: int, k: int)
    requires
        0 <= lo,
        hi <= 256,
        0 <= k < new_compartments(initial, lo, hi).len(),
    ensures
        lo <= new_compartments(initial, lo, hi)[k] < hi,
        !initial.contains(new_compartments(initial, lo, hi)[k]),
    decreases hi - lo,
{
    if lo < hi {
        let before = new_compartments(initial, lo, hi - 1);
        if k < before.len() {
            lemma_new_compartments_in(initial, lo, hi - 1, k);
            if !initial.contains((hi - 1) as u8) {
                assert(before.push((hi - 1) as u8)[k] == before[k]);
            }
        } else {
            assert(!initial.contains((hi - 1) as u8));
            assert(before.push((hi - 1) as u8)[k] == (hi - 1) as u8);
        }
    }
}

/// The compartments a chain reports water spreading to were flooded in the
/// end and were not damaged at the start.
pub proof fn law_chains_report_dry_compartments(
    doors: Seq<bool>,
    initial: Seq<u8>,
    flooded: Seq<u8>,
    n: int,
    j: int,
    k: int,
)
    requires
        doors.len() < 256,
        0 <= n <= initial.len(),
        0 <= j < spread_chains_of(doors, initial, flooded, n).len(),
        0 <= k < spread_chains_of(doors, initial, flooded, n)[j].1.len(),
    ensures
        flooded.contains(spread_chains_of(doors, initial, flooded, n)[j].1[k]),
        !initial.contains(spread_chains_of(doors, initial, flooded, n)[j].1[k]),
    decreases n,
{
    let before = spread_chains_of(doors, initial, flooded, n - 1);
    if j < before.len() {
        law_chains_report_dry_compartments(doors, initial, flooded, n - 1, j, k);
    } else {
        let s = initial[n - 1] as int;
        let lo = reach_lo(doors, flooded, s);
        let hi = reach_hi(doors, flooded, s);
        lemma_reach_bounds(doors, flooded, s);
        lemma_reach_hi_at_most(doors, flooded, s);
        lemma_new_compartments_in(initial, lo, hi + 1, k);
        let y = new_compartments(initial, lo, hi + 1)[k];
        assert(initial.contains(initial[n - 1]));
        lemma_reached_are_flooded(doors, flooded, s, y as int);
    }
}

/// Shut doors count as none open; open doors all count; and no more doors
/// are open than there are doors.
pub proof fn law_count_open(doors: Seq<bool>)
    ensures
        count_open(doors) <= doors.len(),
        (forall|d: int| 0 <= d < doors.len() ==> !#[trigger] doors[d]) ==> count_open(doors) == 0,
        (forall|d: int| 0 <= d < doors.len() ==> #[trigger] doors[d]) ==> count_open(doors) == doors.len(),
    decreases doors.len(),
{
    if doors.len() > 0 {
        law_count_open(doors.drop_last());
        if forall|d: int| 0 <= d < doors.len() ==> !#[trigger] doors[d] {
            assert forall|d: int| 0 <= d < doors.drop_last().len() implies !#[trigger] doors.drop_last()[d] by {
                assert(!doors[d]);
            }
            assert(!doors[doors.len() - 1]);
        }
        if forall|d: int| 0 <= d < doors.len() ==> #[trigger] doors[d] {
            assert forall|d: int| 0 <= d < doors.drop_last().len() implies #[trigger] doors.drop_last()[d] by {
                assert(doors[d]);
            }
            assert(doors[doors.len() - 1]);
        }
    }
}

/// The doors counted as open are exactly those that stand open, wherever
/// they are: as many as remain when the shut ones are taken out.
pub proof fn law_count_open_counts_open_doors(doors: Seq<bool>)
    ensures
        count_open(doors) == doors.filter(|b: bool| b).len(),
    decreases doors.len(),
{
    reveal(Seq::filter);
    if doors.len() > 0 {
        law_count_open_counts_open_doors(doors.drop_last());
    }
}

/// Setting one door changes the count of open doors by that door alone:
/// opening a shut door, wherever it is, adds one; shutting an open door
/// takes one away; setting a door as it already stands changes nothing.
pub proof fn law_setting_a_door_counts_once(doors: Seq<bool>, d: int, is_open: bool)
    requires
        0 <= d < doors.len(),
    ensures
        count_open(doors.update(d, is_open)) + (if doors[d] { 1int } else { 0int }) == count_open(doors)
            + (if is_open { 1int } else { 0int }),
        !doors[d] && is_open ==> count_open(doors.update(d, is_open)) == count_open(doors) + 1,
        doors[d] && !is_open ==> count_open(doors.update(d, is_open)) + 1 == count_open(doors),
        doors[d] == is_open ==> count_open(doors.update(d, is_open)) == count_open(doors),
    decreases doors.len(),
{
    let updated = doors.update(d, is_open);
    if d == doors.len() - 1 {
        assert(updated.drop_last() =~= doors.drop_last());
    } else {
        assert(updated.drop_last() =~= doors.drop_last().update(d, is_open));
        law_setting_a_door_counts_once(doors.drop_last(), d, is_open);
    }
}

/// Shutting a door that was just opened gives back the doors as they were,
/// when that door had been shut.
pub proof fn law_close_undoes_open(doors: Seq<bool>, d: int)
    requires
        0 <= d < doors.len(),
        !doors[d],
    ensures
        doors.update(d, true).update(d, false) == doors,
{
    assert(doors.update(d, true).update(d, false) =~= doors);
}

} // verus!
