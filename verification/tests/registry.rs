use chat_cleaner::registry::StatusRegistry;
use chat_cleaner::status::{ChatCleaningStatus, StateError};

fn sorted(mut entries: Vec<(i64, ChatCleaningStatus)>) -> Vec<(i64, ChatCleaningStatus)> {
    entries.sort_by_key(|entry| entry.0);
    entries
}

#[test]
fn new_registry_is_empty() {
    let registry = StatusRegistry::new();
    assert!(registry.snapshot().is_empty());
    assert_eq!(registry.get(1), None);
    assert!(!registry.contains(1));
}

#[test]
fn ensure_inserts_idle_once() {
    let mut registry = StatusRegistry::new();
    registry.ensure(7);
    assert_eq!(registry.get(7), Some(ChatCleaningStatus::Idle));
    assert_eq!(registry.set(7, ChatCleaningStatus::Queued), Ok(()));
    registry.ensure(7);
    assert_eq!(registry.get(7), Some(ChatCleaningStatus::Queued));
    assert_eq!(registry.snapshot().len(), 1);
}

#[test]
fn get_reports_unknown_group() {
    let mut registry = StatusRegistry::new();
    registry.ensure(-100);
    assert_eq!(registry.get(-100), Some(ChatCleaningStatus::Idle));
    assert_eq!(registry.get(100), None);
}

#[test]
fn set_overwrites_known_group() {
    let mut registry = StatusRegistry::new();
    registry.ensure(1);
    registry.ensure(2);
    assert_eq!(registry.set(1, ChatCleaningStatus::Error("boom".to_string())), Ok(()));
    assert_eq!(registry.get(1), Some(ChatCleaningStatus::Error("boom".to_string())));
    assert_eq!(registry.get(2), Some(ChatCleaningStatus::Idle));
}

#[test]
fn set_fails_for_unknown_group() {
    let mut registry = StatusRegistry::new();
    registry.ensure(1);
    assert_eq!(registry.set(2, ChatCleaningStatus::InProgress), Err(StateError::ChatNotFound));
    assert_eq!(registry.get(2), None);
    assert_eq!(registry.get(1), Some(ChatCleaningStatus::Idle));
}

#[test]
fn remove_deletes_entry_and_returns_status() {
    let mut registry = StatusRegistry::new();
    registry.ensure(1);
    registry.ensure(2);
    assert_eq!(registry.set(1, ChatCleaningStatus::InProgress), Ok(()));
    assert_eq!(registry.remove(1), Some(ChatCleaningStatus::InProgress));
    assert_eq!(registry.get(1), None);
    assert_eq!(registry.get(2), Some(ChatCleaningStatus::Idle));
    assert_eq!(registry.remove(1), None);
}

#[test]
fn migrate_moves_error_status_to_new_id() {
    let mut registry = StatusRegistry::new();
    registry.ensure(100);
    assert_eq!(registry.set(100, ChatCleaningStatus::Error("x".to_string())), Ok(()));
    assert_eq!(registry.migrate(100, 200), Ok(()));
    assert_eq!(
        sorted(registry.snapshot()),
        vec![(200, ChatCleaningStatus::Error("x".to_string()))]
    );
    assert_eq!(registry.get(100), None);
    assert_eq!(registry.migrate(100, 200), Err(StateError::MigrationSourceMissing));
    assert_eq!(
        sorted(registry.snapshot()),
        vec![(200, ChatCleaningStatus::Error("x".to_string()))]
    );
}

#[test]
fn migrate_overwrites_existing_target() {
    let mut registry = StatusRegistry::new();
    registry.ensure(1);
    registry.ensure(2);
    assert_eq!(registry.set(1, ChatCleaningStatus::Queued), Ok(()));
    assert_eq!(registry.migrate(1, 2), Ok(()));
    assert_eq!(sorted(registry.snapshot()), vec![(2, ChatCleaningStatus::Queued)]);
}

#[test]
fn migrate_to_same_id_keeps_entry() {
    let mut registry = StatusRegistry::new();
    registry.ensure(5);
    assert_eq!(registry.set(5, ChatCleaningStatus::InProgress), Ok(()));
    assert_eq!(registry.migrate(5, 5), Ok(()));
    assert_eq!(sorted(registry.snapshot()), vec![(5, ChatCleaningStatus::InProgress)]);
}

#[test]
fn claim_takes_idle_and_error_groups() {
    let mut registry = StatusRegistry::new();
    registry.ensure(1);
    registry.ensure(2);
    assert_eq!(registry.set(2, ChatCleaningStatus::Error("old".to_string())), Ok(()));
    assert_eq!(registry.claim(1), Ok(true));
    assert_eq!(registry.claim(2), Ok(true));
    assert_eq!(registry.get(1), Some(ChatCleaningStatus::Queued));
    assert_eq!(registry.get(2), Some(ChatCleaningStatus::Queued));
}

#[test]
fn claim_skips_busy_groups() {
    let mut registry = StatusRegistry::new();
    registry.ensure(1);
    registry.ensure(2);
    assert_eq!(registry.set(1, ChatCleaningStatus::Queued), Ok(()));
    assert_eq!(registry.set(2, ChatCleaningStatus::InProgress), Ok(()));
    assert_eq!(registry.claim(1), Ok(false));
    assert_eq!(registry.claim(2), Ok(false));
    assert_eq!(registry.get(1), Some(ChatCleaningStatus::Queued));
    assert_eq!(registry.get(2), Some(ChatCleaningStatus::InProgress));
}

#[test]
fn claim_fails_for_unknown_group() {
    let mut registry = StatusRegistry::new();
    assert_eq!(registry.claim(9), Err(StateError::ChatNotFound));
    assert!(registry.snapshot().is_empty());
}

#[test]
fn snapshot_copies_every_entry() {
    let mut registry = StatusRegistry::new();
    for group in [3_i64, 1, 2] {
        registry.ensure(group);
    }
    assert_eq!(registry.set(2, ChatCleaningStatus::Error("e".to_string())), Ok(()));
    let copy = sorted(registry.snapshot());
    assert_eq!(
        copy,
        vec![
            (1, ChatCleaningStatus::Idle),
            (2, ChatCleaningStatus::Error("e".to_string())),
            (3, ChatCleaningStatus::Idle),
        ]
    );
    assert_eq!(registry.set(1, ChatCleaningStatus::Queued), Ok(()));
    assert_eq!(copy[0], (1, ChatCleaningStatus::Idle));
}

#[test]
fn status_predicates_and_equality() {
    assert!(ChatCleaningStatus::Idle.is_claimable());
    assert!(ChatCleaningStatus::Error("r".to_string()).is_claimable());
    assert!(ChatCleaningStatus::Queued.is_busy());
    assert!(ChatCleaningStatus::InProgress.is_busy());
    assert!(!ChatCleaningStatus::Idle.is_busy());
    assert!(!ChatCleaningStatus::InProgress.is_claimable());
    assert_eq!(ChatCleaningStatus::Error("r".to_string()).error_reason(), Some("r".to_string()));
    assert_eq!(ChatCleaningStatus::Queued.error_reason(), None);
    assert_ne!(ChatCleaningStatus::Error("a".to_string()), ChatCleaningStatus::Error("b".to_string()));
    assert_ne!(ChatCleaningStatus::Idle, ChatCleaningStatus::Queued);
    assert_eq!(ChatCleaningStatus::Error("a".to_string()).clone(), ChatCleaningStatus::Error("a".to_string()));
}

#[test]
fn errors_carry_their_message() {
    assert_eq!(StateError::ChatNotFound.message(), "Chat not found");
    assert_eq!(
        StateError::MigrationSourceMissing.message(),
        "Tried to migrate from an unexisting status"
    );
}
