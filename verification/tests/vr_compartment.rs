use backend::models::DoorControlRequest;
use backend::vr_compartment::{door_state_for_request, VRCompartmentSimulator};

/// A fixed time of day for the door stamps, in milliseconds since the Unix epoch.
const NOW: i64 = 1_700_000_000_000;

struct TestHull {
    ship_id: String,
}

fn test_simulator() -> VRCompartmentSimulator<TestHull> {
    VRCompartmentSimulator::new(TestHull { ship_id: "test_vr".to_string() }, 6, NOW)
}

#[test]
fn test_vr_simulator_new() {
    let sim = test_simulator();
    assert_eq!(sim.door_states().len(), 5);
    assert!(sim.door_states().iter().all(|d| !d.is_open));
}

#[test]
fn test_set_door_state_valid() {
    let mut sim = test_simulator();
    assert!(sim.open_door(2, NOW).is_ok());
    assert!(sim.door_states()[2].is_open);
    assert!(sim.close_door(2, NOW).is_ok());
    assert!(!sim.door_states()[2].is_open);
}

#[test]
fn test_set_door_state_invalid() {
    let mut sim = test_simulator();
    assert!(sim.open_door(10, NOW).is_err());
}

#[test]
fn test_close_all_doors() {
    let mut sim = test_simulator();
    sim.open_all_doors(NOW);
    assert_eq!(sim.door_states().iter().filter(|d| d.is_open).count(), 5);
    sim.close_all_doors(NOW);
    assert_eq!(sim.door_states().iter().filter(|d| d.is_open).count(), 0);
}

#[test]
fn test_simulate_closed_doors_no_spread() {
    let sim = test_simulator();
    let result = sim.simulate_with_door_states(&vec![2]);
    assert!(!result.spread_through_doors);
    assert_eq!(result.effective_flooded, vec![2]);
}

#[test]
fn test_simulate_open_doors_spreads() {
    let mut sim = test_simulator();
    sim.open_door(2, NOW).unwrap();
    sim.open_door(3, NOW).unwrap();

    let result = sim.simulate_with_door_states(&vec![2]);
    assert!(result.spread_through_doors);
    assert!(result.effective_flooded.len() > 1);
    assert!(result.spread_chains.len() > 0);
}

#[test]
fn test_door_status_summary() {
    let mut sim = test_simulator();
    let summary = sim.get_door_status_summary();
    assert_eq!(summary.total_doors, 5);
    assert_eq!(summary.open_doors, 0);
    assert_eq!(summary.closed_doors, 5);
    // The library counts the doors; the two ratios are floating point and are
    // worked out by the service, so here they are recomputed from the counts.
    let watertight_integrity = summary.closed_doors as f64 / summary.total_doors as f64;
    assert_eq!(watertight_integrity, 1.0);

    sim.open_door(1, NOW).unwrap();
    sim.open_door(3, NOW).unwrap();
    let summary2 = sim.get_door_status_summary();
    assert_eq!(summary2.open_doors, 2);
    assert_eq!(summary2.closed_doors, 3);
    let open_ratio = summary2.open_doors as f64 / summary2.total_doors as f64;
    assert!((open_ratio - 0.4).abs() < 0.01);
}

#[test]
fn test_spread_chains_correct() {
    let mut sim = test_simulator();
    sim.open_door(1, NOW).unwrap();
    sim.open_door(2, NOW).unwrap();

    let result = sim.simulate_with_door_states(&vec![1]);

    if result.spread_through_doors {
        assert!(!result.spread_chains.is_empty());
        let chain = &result.spread_chains[0];
        assert_eq!(chain.source_compartment, 1);
        assert!(chain.spread_to_compartments.len() >= 1);
    }
}

#[test]
fn spread_through_two_open_doors_reaches_both_sides() {
    let mut sim = test_simulator();
    sim.open_door(1, NOW).unwrap();
    sim.open_door(2, NOW).unwrap();
    let result = sim.simulate_with_door_states(&vec![2]);
    assert_eq!(result.effective_flooded, vec![1, 2, 3]);
    assert_eq!(result.initial_damage, vec![2]);
    assert!(result.spread_through_doors);
    assert_eq!(result.spread_chains.len(), 1);
    assert_eq!(result.spread_chains[0].source_compartment, 2);
    assert_eq!(result.spread_chains[0].spread_to_compartments, vec![1, 3]);
    assert_eq!(result.spread_chains[0].via_doors, vec![1, 2]);
    assert_eq!(result.door_states.len(), 5);
}

#[test]
fn spread_result_is_sorted_without_repeats() {
    let mut sim = test_simulator();
    sim.open_door(0, NOW).unwrap();
    sim.open_door(4, NOW).unwrap();
    let result = sim.simulate_with_door_states(&vec![5, 1, 5]);
    assert_eq!(result.effective_flooded, vec![0, 1, 4, 5]);
    assert!(result.spread_through_doors);
    assert_eq!(result.spread_chains.len(), 3);
    assert_eq!(result.spread_chains[0].source_compartment, 5);
    assert_eq!(result.spread_chains[0].spread_to_compartments, vec![4]);
    assert_eq!(result.spread_chains[0].via_doors, vec![4]);
    assert_eq!(result.spread_chains[1].source_compartment, 1);
    assert_eq!(result.spread_chains[1].spread_to_compartments, vec![0]);
    assert_eq!(result.spread_chains[1].via_doors, vec![0]);
    assert_eq!(result.spread_chains[2].source_compartment, 5);
}

#[test]
fn repeated_damage_hides_spread_flag() {
    let mut sim = test_simulator();
    sim.open_door(2, NOW).unwrap();
    let result = sim.simulate_with_door_states(&vec![2, 2]);
    assert_eq!(result.effective_flooded, vec![2, 3]);
    assert!(!result.spread_through_doors);
    assert_eq!(result.spread_chains.len(), 2);
}

#[test]
fn damage_outside_the_hull_stays_put() {
    let mut sim = test_simulator();
    sim.open_all_doors(NOW);
    let result = sim.simulate_with_door_states(&vec![9]);
    assert_eq!(result.effective_flooded, vec![9]);
    assert!(result.spread_chains.is_empty());
}

#[test]
fn all_doors_open_floods_whole_ship() {
    let mut sim = test_simulator();
    sim.open_all_doors(NOW);
    let result = sim.simulate_with_door_states(&vec![0]);
    assert_eq!(result.effective_flooded, vec![0, 1, 2, 3, 4, 5]);
    assert_eq!(result.spread_chains[0].via_doors, vec![0, 1, 2, 3, 4]);
}

#[test]
fn invalid_bulkhead_error_text() {
    let mut sim = test_simulator();
    let err = sim.open_door(10, NOW).unwrap_err();
    assert_eq!(err, "Invalid bulkhead_id: 10, max is 4");
    assert!(sim.door_states().iter().all(|d| !d.is_open));
}

#[test]
fn ship_without_compartments_has_no_doors() {
    let mut sim = VRCompartmentSimulator::new(TestHull { ship_id: "empty".to_string() }, 0, NOW);
    assert!(sim.door_states().is_empty());
    assert_eq!(sim.set_door_state(0, true, NOW).unwrap_err(), "Invalid bulkhead_id: 0, max is 0");
    let summary = sim.get_door_status_summary();
    assert_eq!(summary.total_doors, 0);
    assert_eq!(summary.closed_doors, 0);
}

#[test]
fn doors_are_numbered_by_bulkhead() {
    let mut sim = test_simulator();
    sim.set_door_state(4, true, NOW).unwrap();
    for (i, d) in sim.door_states().iter().enumerate() {
        assert_eq!(d.bulkhead_id as usize, i);
        assert_eq!(d.last_changed, NOW);
    }
    assert!(sim.door_states()[4].is_open);
    assert_eq!(sim.hydrostatics().ship_id, "test_vr");
}

#[test]
fn door_control_request_sets_requested_state() {
    let request = DoorControlRequest { ship_id: "test".to_string(), bulkhead_id: 5, open: true };
    let state = door_state_for_request(&request, NOW);
    assert_eq!(state.bulkhead_id, 5);
    assert!(state.is_open);
    assert_eq!(state.last_changed, NOW);
}

#[test]
fn spreading_again_floods_nothing_new() {
    let mut sim = test_simulator();
    sim.open_door(0, NOW).unwrap();
    sim.open_door(3, NOW).unwrap();
    let first = sim.simulate_with_door_states(&vec![1, 4]);
    let second = sim.simulate_with_door_states(&first.effective_flooded);
    assert_eq!(first.effective_flooded, vec![0, 1, 3, 4]);
    assert_eq!(second.effective_flooded, first.effective_flooded);
    assert!(!second.spread_through_doors);
}

#[test]
fn opening_a_door_never_dries_a_compartment() {
    let mut sim = test_simulator();
    sim.open_door(1, NOW).unwrap();
    let before = sim.simulate_with_door_states(&vec![2]);
    sim.open_door(4, NOW).unwrap();
    let after = sim.simulate_with_door_states(&vec![2]);
    for c in &before.effective_flooded {
        assert!(after.effective_flooded.contains(c));
    }
}

#[test]
fn closing_an_opened_door_restores_the_doors() {
    let mut sim = test_simulator();
    let before: Vec<bool> = sim.door_states().iter().map(|d| d.is_open).collect();
    sim.open_door(3, NOW).unwrap();
    sim.close_door(3, NOW).unwrap();
    let after: Vec<bool> = sim.door_states().iter().map(|d| d.is_open).collect();
    assert_eq!(before, after);
}

#[test]
fn invalid_bulkhead_error_with_three_digits() {
    let mut sim = test_simulator();
    assert_eq!(sim.set_door_state(200, true, NOW).unwrap_err(), "Invalid bulkhead_id: 200, max is 4");
}

#[test]
fn door_changes_carry_their_time() {
    let mut sim = test_simulator();
    sim.open_door(2, NOW + 5).unwrap();
    assert_eq!(sim.door_states()[2].last_changed, NOW + 5);
    assert_eq!(sim.door_states()[1].last_changed, NOW);
    sim.close_all_doors(NOW + 9);
    assert!(sim.door_states().iter().all(|d| d.last_changed == NOW + 9 && !d.is_open));
}
