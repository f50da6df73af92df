//! Looking ships up in the catalogue of built-in designs by their ids.
use vstd::prelude::*;

verus! {

/// The ids of a catalogue, as text.
pub open spec fn id_texts(ids: Seq<String>) -> Seq<Seq<char>> {
    ids.map_values(|id: String| id@)
}

/// The first position of `ship_id` in the catalogue, if it is there.
pub open spec fn is_first_match(ids: Seq<Seq<char>>, ship_id: Seq<char>, found: Option<usize>) -> bool {
    match found {
        Some(i) => i < ids.len() && ids[i as int] == ship_id && forall|j: int|
            0 <= j < i ==> ids[j] != ship_id,
        None => forall|j: int| 0 <= j < ids.len() ==> ids[j] != ship_id,
    }
}

/// The first position of `key` in `list`, if it is there.
pub fn first_position(list: &Vec<String>, key: &String) -> (found: Option<usize>)
    ensures
        is_first_match(id_texts(list@), key@, found),
{
    let ghost texts = id_texts(list@);
    let mut i: usize = 0;
    while i < list.len()
        invariant
            i <= list.len(),
            texts == id_texts(list@),
            forall|j: int| 0 <= j < i ==> texts[j] != key@,
        decreases list.len() - i,
    {
        if list[i] == *key {
            return Some(i);
        }
        i += 1;
    }
    None
}

/// Finds the first ship of the catalogue whose id is `ship_id`.
pub fn find_ship(catalogue_ids: &Vec<String>, ship_id: &String) -> (found: Option<usize>)
    ensures
        is_first_match(id_texts(catalogue_ids@), ship_id@, found),
{
    first_position(catalogue_ids, ship_id)
}

/// Whether `ship_id` is among `requested`.
fn is_requested(requested: &Vec<String>, ship_id: &String) -> (found: bool)
    ensures
        found == id_texts(requested@).contains(ship_id@),
{
    let ghost ids = id_texts(requested@);
    let mut i: usize = 0;
    while i < requested.len()
        invariant
            i <= requested.len(),
            ids == id_texts(requested@),
            forall|j: int| 0 <= j < i ==> ids[j] != ship_id@,
        decreases requested.len() - i,
    {
        if requested[i] == *ship_id {
            assert(ids[i as int] == ship_id@);
            return true;
        }
        i += 1;
    }
    false
}

/// The positions, in catalogue order, of the ships whose id is among
/// `requested`; each ship is taken once, however often it is asked for.
pub fn select_ships(catalogue_ids: &Vec<String>, requested: &Vec<String>) -> (positions: Vec<usize>)
    ensures
        forall|a: int, b: int| 0 <= a < b < positions.len() ==> positions@[a] < positions@[b],
        forall|k: int| 0 <= k < positions.len() ==> positions@[k] < catalogue_ids.len(),
        forall|i: int|
            0 <= i < catalogue_ids.len() ==> (positions@.contains(i as usize) <==> id_texts(
                requested@,
            ).contains(catalogue_ids@[i]@)),
{
    let mut positions: Vec<usize> = Vec::new();
    let mut i: usize = 0;
    while i < catalogue_ids.len()
        invariant
            i <= catalogue_ids.len(),
            forall|a: int, b: int| 0 <= a < b < positions.len() ==> positions@[a] < positions@[b],
            forall|k: int| 0 <= k < positions.len() ==> positions@[k] < i,
            forall|m: int|
                0 <= m < i ==> (positions@.contains(m as usize) <==> id_texts(requested@).contains(
                    catalogue_ids@[m]@,
                )),
        decreases catalogue_ids.len() - i,
    {
        let ghost before = positions@;
        if is_requested(requested, &catalogue_ids[i]) {
            positions.push(i);
            proof {
                assert forall|m: int|
                    0 <= m < i + 1 implies (positions@.contains(m as usize) <==> id_texts(
                        requested@,
                    ).contains(catalogue_ids@[m]@)) by {
                    if m < i {
                        if before.contains(m as usize) {
                            let k = choose|k: int| 0 <= k < before.len() && before[k] == m as usize;
                            assert(positions@[k] == m as usize);
                        }
                        if positions@.contains(m as usize) {
                            let k = choose|k: int| 0 <= k < positions.len() && positions@[k] == m as usize;
                            assert(k < before.len());
                            assert(before[k] == m as usize);
                        }
                    } else {
                        assert(positions@[before.len() as int] == i);
                    }
                }
            }
        } else {
            proof {
                assert forall|m: int|
                    0 <= m < i + 1 implies (positions@.contains(m as usize) <==> id_texts(
                        requested@,
                    ).contains(catalogue_ids@[m]@)) by {
                    if m == i && positions@.contains(m as usize) {
                        let k = choose|k: int| 0 <= k < positions.len() && positions@[k] == m as usize;
                    }
                }
            }
        }
        i += 1;
    }
    positions
}

/// Id of a design whose description gives none.
pub const UNKNOWN_ID: &'static str = "unknown";

/// Name of a design whose description gives none.
pub const UNKNOWN_NAME: &'static str = "未知船舶";

/// Description of a design whose description gives none.
pub const DEFAULT_DESCRIPTION: &'static str = "中国古代水密隔舱海船";

/// Number of compartments of a design whose description gives none.
pub const DEFAULT_COMPARTMENT_COUNT: u8 = 13;

/// The text fields of a ship description, each as far as the description gives it.
#[derive(Clone, Debug)]
pub struct ShipDescriptionText {
    pub ship_id: Option<String>,
    pub ship_name: Option<String>,
    pub ship_type: Option<String>,
    pub dynasty: Option<String>,
    pub historical_description: Option<String>,
    pub compartment_count: Option<u64>,
    pub compartment_names: Option<Vec<String>>,
}

/// The text fields of a ship, with defaults where the description is silent.
#[derive(Clone, Debug)]
pub struct ShipIdentity {
    pub ship_id: String,
    pub ship_name: String,
    pub ship_type: String,
    pub dynasty: String,
    pub historical_description: String,
    pub compartment_count: u8,
    pub compartment_names: Vec<String>,
}

/// The text given, or the default.
pub open spec fn text_or(given: Option<String>, default: Seq<char>) -> Seq<char> {
    match given {
        Some(t) => t@,
        None => default,
    }
}

fn string_or(given: Option<String>, default: &str) -> (text: String)
    ensures
        text@ == text_or(given, default@),
{
    match given {
        Some(t) => t,
        None => String::from_str(default),
    }
}

/// Fills in what a ship description leaves out: the id, name and
/// description get fixed defaults, the type and dynasty those of the
/// catalogue entry, the compartment count 13, and the compartment names none.
/// A count is kept to its low eight bits.
pub fn resolve_ship_identity(given: ShipDescriptionText, ship_type: &str, dynasty: &str) -> (identity:
    ShipIdentity)
    ensures
        identity.ship_id@ == text_or(given.ship_id, UNKNOWN_ID@),
        identity.ship_name@ == text_or(given.ship_name, UNKNOWN_NAME@),
        identity.ship_type@ == text_or(given.ship_type, ship_type@),
        identity.dynasty@ == text_or(given.dynasty, dynasty@),
        identity.historical_description@ == text_or(given.historical_description, DEFAULT_DESCRIPTION@),
        identity.compartment_count == match given.compartment_count {
            Some(n) => n as u8,
            None => DEFAULT_COMPARTMENT_COUNT,
        },
        identity.compartment_names@ == match given.compartment_names {
            Some(names) => names@,
            None => Seq::<String>::empty(),
        },
{
    let compartment_count = match given.compartment_count {
        Some(n) => {
            #[verifier::truncate]
            (n as u8)
        },
        None => DEFAULT_COMPARTMENT_COUNT,
    };
    let compartment_names = match given.compartment_names {
        Some(names) => names,
        None => Vec::new(),
    };
    ShipIdentity {
        ship_id: string_or(given.ship_id, UNKNOWN_ID),
        ship_name: string_or(given.ship_name, UNKNOWN_NAME),
        ship_type: string_or(given.ship_type, ship_type),
        dynasty: string_or(given.dynasty, dynasty),
        historical_description: string_or(given.historical_description, DEFAULT_DESCRIPTION),
        compartment_count,
        compartment_names,
    }
}

} // verus!
