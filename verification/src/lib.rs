pub mod compartments;
pub mod compute_pool;
pub mod design_comparator;
pub mod era_comparator;
pub mod extreme_simulator;
pub mod models;
pub mod queries;
pub mod ship_configs;
pub mod vr_compartment;
