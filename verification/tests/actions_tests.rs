use flocker::actions::{LedgerAction, RunningContainerAction};

#[test]
fn test_running_container_action_variants() {
    let variants = RunningContainerAction::variants();
    assert_eq!(variants.len(), 6);
    assert!(variants.contains(&"Stop Container"));
}

#[test]
fn test_running_container_action_from_index() {
    assert!(matches!(
        RunningContainerAction::from_index(3),
        Some(RunningContainerAction::Stop)
    ));
    assert!(RunningContainerAction::from_index(10).is_none());
}

#[test]
fn test_ledger_action_variants() {
    let variants = LedgerAction::variants();
    assert_eq!(variants.len(), 3);
    assert!(variants.contains(&"See More Details"));
}

#[test]
fn test_ledger_action_from_index() {
    assert!(matches!(
        LedgerAction::from_index(0),
        Some(LedgerAction::ViewDetails)
    ));
    assert!(LedgerAction::from_index(10).is_none());
}
