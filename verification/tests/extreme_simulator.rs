use backend::extreme_simulator::{add_active_compartment, ExtremeFloodingSimulator};

struct TestHull {
    ship_id: String,
}

fn test_simulator() -> ExtremeFloodingSimulator<TestHull> {
    ExtremeFloodingSimulator::new(TestHull { ship_id: "test_ship".to_string() })
}

#[test]
fn test_extreme_simulator_new() {
    let sim = test_simulator();
    assert_eq!(sim.hydrostatics().ship_id, "test_ship");
}

#[test]
fn breached_compartments_stay_sorted() {
    let mut active: Vec<u8> = Vec::new();
    add_active_compartment(&mut active, 4);
    add_active_compartment(&mut active, 2);
    add_active_compartment(&mut active, 9);
    assert_eq!(active, vec![2, 4, 9]);
}

#[test]
fn repeated_breach_is_recorded_once() {
    let mut active = vec![2, 4];
    add_active_compartment(&mut active, 4);
    assert_eq!(active, vec![2, 4]);
}

#[test]
fn breach_order_does_not_matter() {
    let mut first = vec![3];
    add_active_compartment(&mut first, 1);
    add_active_compartment(&mut first, 7);
    let mut second = vec![3];
    add_active_compartment(&mut second, 7);
    add_active_compartment(&mut second, 1);
    assert_eq!(first, second);
    assert_eq!(first, vec![1, 3, 7]);
}

#[test]
fn unsorted_list_is_put_in_order() {
    let mut active = vec![8, 8, 0, 255];
    add_active_compartment(&mut active, 5);
    assert_eq!(active, vec![0, 5, 8, 255]);
}
