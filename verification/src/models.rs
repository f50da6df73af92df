//! Requests and records of the flooding service that hold no measurement.
use vstd::prelude::*;

verus! {

/// What an alarm is about.
#[derive(Clone, Copy, Debug, PartialEq, Eq)]
pub enum AlarmType {
    StabilityLoss,
    FloodingSpread,
    DraftExceeded,
    HeelExcessive,
}

/// How urgent an alarm is.
#[derive(Clone, Copy, Debug, PartialEq, Eq)]
pub enum AlarmLevel {
    Info,
    Warning,
    Critical,
}

/// A request to search for a better subdivision of a ship's hull.
#[derive(Clone, Debug)]
pub struct OptimizationRequest {
    pub ship_id: String,
    pub min_compartments: u8,
    pub max_compartments: u8,
    pub population_size: usize,
    pub generations: usize,
}

/// Descriptive features of a ship design.
#[derive(Clone, Debug)]
pub struct ShipCharacteristics {
    pub hull_form: String,
    pub primary_use: String,
    pub notable_feature: String,
    pub max_safe_flooded: u8,
    pub double_bottom: bool,
    pub double_side: bool,
    pub solas_compliant: bool,
}

impl Default for ShipCharacteristics {
    /// Characteristics with every text empty, no safe flooding and no modern feature.
    fn default() -> (c: Self)
        ensures
            c.hull_form@ == Seq::<char>::empty(),
            c.primary_use@ == Seq::<char>::empty(),
            c.notable_feature@ == Seq::<char>::empty(),
            c.max_safe_flooded == 0,
            !c.double_bottom,
            !c.double_side,
            !c.solas_compliant,
    {
        ShipCharacteristics {
            hull_form: String::new(),
            primary_use: String::new(),
            notable_feature: String::new(),
            max_safe_flooded: 0,
            double_bottom: false,
            double_side: false,
            solas_compliant: false,
        }
    }
}

/// Hull form assumed for a design that describes none.
pub const TRADITIONAL_HULL_FORM: &'static str = "传统福船型";

/// Use assumed for a design that describes none.
pub const OCEAN_VOYAGES: &'static str = "远洋航行";

/// Feature assumed for a design that describes none.
pub const WATERTIGHT_COMPARTMENTS: &'static str = "水密隔舱";

/// The characteristics assumed for an ancient design whose description gives
/// none: a traditional Fu-ship hull for ocean voyages that stays safe with
/// three compartments flooded.
pub fn fallback_characteristics() -> (c: ShipCharacteristics)
    ensures
        c.hull_form@ == TRADITIONAL_HULL_FORM@,
        c.primary_use@ == OCEAN_VOYAGES@,
        c.notable_feature@ == WATERTIGHT_COMPARTMENTS@,
        c.max_safe_flooded == 3,
        !c.double_bottom,
        !c.double_side,
        !c.solas_compliant,
{
    ShipCharacteristics {
        hull_form: String::from_str(TRADITIONAL_HULL_FORM),
        primary_use: String::from_str(OCEAN_VOYAGES),
        notable_feature: String::from_str(WATERTIGHT_COMPARTMENTS),
        max_safe_flooded: 3,
        double_bottom: false,
        double_side: false,
        solas_compliant: false,
    }
}

/// A request to compare several built-in ships.
#[derive(Clone, Debug)]
pub struct ShipComparisonRequest {
    pub ship_ids: Vec<String>,
}

/// A request to compare an ancient ship with a modern one.
#[derive(Clone, Debug)]
pub struct EraComparisonRequest {
    pub ancient_ship_id: String,
    pub modern_ship_id: String,
}

/// A request to open or shut one bulkhead door.
#[derive(Clone, Debug)]
pub struct DoorControlRequest {
    pub ship_id: String,
    pub bulkhead_id: u8,
    pub open: bool,
}

} // verus!
