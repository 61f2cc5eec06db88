use alice_energy::battery::{BatteryChemistry, BatteryId};
use alice_energy::node::{first_position, indices_of_kind, NodeId, NodeKind};
use alice_energy::renewable::WindRegion;

#[test]
fn first_position_finds_earliest() {
    assert_eq!(first_position(&[3, 4, 3], 3), Some(0));
    assert_eq!(first_position(&[3, 4, 3], 4), Some(1));
    assert_eq!(first_position(&[3, 4, 3], 5), None);
    assert_eq!(first_position(&[], 5), None);
}

#[test]
fn identifier_types_compare_by_value() {
    assert_eq!(NodeId(1), NodeId(1));
    assert_ne!(NodeId(1), NodeId(2));
    assert_eq!(BatteryId(7), BatteryId(7));
    assert_ne!(NodeKind::Generator, NodeKind::Consumer);
    assert_ne!(BatteryChemistry::LithiumIon, BatteryChemistry::SodiumIon);
    assert_ne!(WindRegion::Partial, WindRegion::Rated);
}

#[test]
fn indices_of_kind_selects_generators_and_consumers() {
    let kinds = [NodeKind::Generator, NodeKind::Consumer, NodeKind::Storage, NodeKind::Generator];
    assert_eq!(indices_of_kind(&kinds, NodeKind::Generator), vec![0, 3]);
    assert_eq!(indices_of_kind(&kinds, NodeKind::Consumer), vec![1]);
    assert!(indices_of_kind(&kinds, NodeKind::Relay).is_empty());
}

#[test]
fn storage_node_is_neither_generator_nor_consumer() {
    let kinds = [NodeKind::Storage];
    assert!(indices_of_kind(&kinds, NodeKind::Generator).is_empty());
    assert!(indices_of_kind(&kinds, NodeKind::Consumer).is_empty());
    assert_eq!(indices_of_kind(&kinds, NodeKind::Storage), vec![0]);
}
