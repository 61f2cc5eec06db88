use alice_energy::load_flow::{non_slack_bus_indices, pq_bus_indices, AcBusType, BusType};

#[test]
fn bus_classification() {
    let types = [AcBusType::Slack, AcBusType::PQ, AcBusType::PV, AcBusType::PQ];
    assert_eq!(pq_bus_indices(&types), vec![1, 3]);
    assert_eq!(non_slack_bus_indices(&types), vec![1, 2, 3]);
}

#[test]
fn slack_only_system_has_no_unknowns() {
    let types = [AcBusType::Slack];
    assert!(pq_bus_indices(&types).is_empty());
    assert!(non_slack_bus_indices(&types).is_empty());
}

#[test]
fn dc_bus_types_compare() {
    assert_eq!(BusType::Slack, BusType::Slack);
    assert_ne!(BusType::Load, BusType::Generator);
}
