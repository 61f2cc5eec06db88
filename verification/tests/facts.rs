use alice_energy::facts::FactsType;

#[test]
fn facts_type_display() {
    assert_eq!(FactsType::Statcom.to_string(), "STATCOM");
    assert_eq!(FactsType::Svc.to_string(), "SVC");
    assert_eq!(FactsType::Upfc.to_string(), "UPFC");
}

#[test]
fn facts_type_eq() {
    assert_eq!(FactsType::Statcom, FactsType::Statcom);
    assert_ne!(FactsType::Statcom, FactsType::Svc);
}
