use chat_cleaner::directory::{Chat, DirectoryWrite};
use chat_cleaner::state::AppState;
use chat_cleaner::status::{ChatCleaningStatus, StateError};
use std::collections::BTreeSet;

fn chat(id: i64, name: &str) -> Chat {
    Chat { id, name: name.to_string() }
}

fn known(state: &AppState) -> BTreeSet<i64> {
    state.chats_status.snapshot().into_iter().map(|entry| entry.0).collect()
}

fn apply(groups: &mut BTreeSet<i64>, write: &DirectoryWrite) {
    match write {
        DirectoryWrite::UpsertGroup { id, .. } => {
            groups.insert(*id);
        }
        DirectoryWrite::DeleteGroup { id } => {
            groups.remove(id);
        }
        DirectoryWrite::MoveGroup { from, to } => {
            if groups.remove(from) {
                groups.insert(*to);
            }
        }
    }
}

fn state_with(statuses: Vec<(i64, ChatCleaningStatus)>) -> AppState {
    let mut state = AppState::new();
    for (id, status) in statuses {
        state.chats_status.ensure(id);
        assert_eq!(state.set_chat_status(id, status), Ok(()));
    }
    state
}

#[test]
fn fill_status_list_gives_each_group_idle() {
    let mut state = AppState::new();
    state.fill_status_list(&vec![chat(1, "a"), chat(2, "b"), chat(1, "a again")]);
    assert_eq!(known(&state), BTreeSet::from([1, 2]));
    assert_eq!(state.chats_status.get(1), Some(ChatCleaningStatus::Idle));
    assert_eq!(state.chats_status.get(2), Some(ChatCleaningStatus::Idle));
}

#[test]
fn fill_status_list_keeps_existing_status() {
    let mut state = state_with(vec![(1, ChatCleaningStatus::InProgress)]);
    state.fill_status_list(&vec![chat(1, "a"), chat(3, "c")]);
    assert_eq!(state.chats_status.get(1), Some(ChatCleaningStatus::InProgress));
    assert_eq!(state.chats_status.get(3), Some(ChatCleaningStatus::Idle));
}

#[test]
fn set_chat_status_needs_an_entry() {
    let mut state = AppState::new();
    assert_eq!(
        state.set_chat_status(4, ChatCleaningStatus::Queued),
        Err(StateError::ChatNotFound)
    );
    state.fill_status_list(&vec![chat(4, "d")]);
    assert_eq!(state.set_chat_status(4, ChatCleaningStatus::Queued), Ok(()));
    assert_eq!(state.chats_status.get(4), Some(ChatCleaningStatus::Queued));
}

#[test]
fn new_chat_hands_out_the_upsert() {
    let mut state = AppState::new();
    let write = state.new_chat(chat(-5, "crew"));
    match &write {
        DirectoryWrite::UpsertGroup { id, name } => {
            assert_eq!(*id, -5);
            assert_eq!(name, "crew");
        }
        other => panic!("unexpected write {:?}", other),
    }
    assert_eq!(state.chats_status.get(-5), None);
    state.apply(&write);
    assert_eq!(state.chats_status.get(-5), Some(ChatCleaningStatus::Idle));
}

#[test]
fn new_chat_keeps_status_of_known_group() {
    let mut state = state_with(vec![(8, ChatCleaningStatus::Error("x".to_string()))]);
    let write = state.new_chat(chat(8, "renamed"));
    assert!(matches!(write, DirectoryWrite::UpsertGroup { id: 8, .. }));
    state.apply(&write);
    assert_eq!(state.chats_status.get(8), Some(ChatCleaningStatus::Error("x".to_string())));
}

#[test]
fn refused_upsert_leaves_no_entry() {
    let state = AppState::new();
    let groups: BTreeSet<i64> = BTreeSet::new();
    let write = state.new_chat(chat(3, "c"));
    assert!(matches!(write, DirectoryWrite::UpsertGroup { id: 3, .. }));
    // The directory refuses the write: it is not applied to either side.
    assert_eq!(state.chats_status.get(3), None);
    assert_eq!(known(&state), groups);
}

#[test]
fn delete_chat_removes_the_entry() {
    let mut state = state_with(vec![(1, ChatCleaningStatus::Idle), (2, ChatCleaningStatus::Queued)]);
    let write = state.delete_chat(2);
    assert!(matches!(write, DirectoryWrite::DeleteGroup { id: 2 }));
    assert_eq!(state.chats_status.get(2), Some(ChatCleaningStatus::Queued));
    state.apply(&write);
    assert_eq!(known(&state), BTreeSet::from([1]));
    state.apply(&write);
    assert_eq!(known(&state), BTreeSet::from([1]));
}

#[test]
fn refused_deletion_keeps_entry_and_status() {
    let state = state_with(vec![(4, ChatCleaningStatus::Error("e".to_string()))]);
    let groups: BTreeSet<i64> = BTreeSet::from([4]);
    let write = state.delete_chat(4);
    assert!(matches!(write, DirectoryWrite::DeleteGroup { id: 4 }));
    // The directory refuses the write: it is not applied to either side.
    assert_eq!(state.chats_status.get(4), Some(ChatCleaningStatus::Error("e".to_string())));
    assert_eq!(known(&state), groups);
}

#[test]
fn migrate_chat_moves_status_and_names_the_move() {
    let mut state = state_with(vec![(100, ChatCleaningStatus::Error("x".to_string()))]);
    let write = state.migrate_chat(100, 200).unwrap();
    match &write {
        DirectoryWrite::MoveGroup { from, to } => {
            assert_eq!(*from, 100);
            assert_eq!(*to, 200);
        }
        other => panic!("unexpected write {:?}", other),
    }
    assert_eq!(state.chats_status.get(100), Some(ChatCleaningStatus::Error("x".to_string())));
    state.apply(&write);
    assert_eq!(state.chats_status.get(100), None);
    assert_eq!(state.chats_status.get(200), Some(ChatCleaningStatus::Error("x".to_string())));
    assert!(matches!(state.migrate_chat(100, 200), Err(StateError::MigrationSourceMissing)));
    assert_eq!(known(&state), BTreeSet::from([200]));
}

#[test]
fn applying_a_move_of_an_unknown_group_changes_nothing() {
    let mut state = state_with(vec![(1, ChatCleaningStatus::Queued)]);
    state.apply(&DirectoryWrite::MoveGroup { from: 7, to: 1 });
    assert_eq!(state.chats_status.snapshot(), vec![(1, ChatCleaningStatus::Queued)]);
}

#[test]
fn registry_and_directory_stay_in_step() {
    let mut state = AppState::new();
    let mut groups: BTreeSet<i64> = BTreeSet::from([1, 2, 3]);
    state.fill_status_list(&vec![chat(1, "a"), chat(2, "b"), chat(3, "c")]);
    assert_eq!(known(&state), groups);

    let mut writes = vec![
        state.new_chat(chat(4, "d")),
        state.new_chat(chat(2, "b2")),
        state.delete_chat(1),
    ];
    writes.push(state.migrate_chat(3, 30).unwrap());
    for (position, write) in writes.iter().enumerate() {
        // Every other write is refused by the directory the first time.
        if position % 2 == 1 {
            assert_eq!(known(&state), groups);
        }
        apply(&mut groups, write);
        state.apply(write);
        assert_eq!(known(&state), groups);
    }

    assert!(state.migrate_chat(3, 31).is_err());
    assert_eq!(known(&state), groups);

    assert_eq!(state.set_chat_status(2, ChatCleaningStatus::Error("e".to_string())), Ok(()));
    assert_eq!(known(&state), groups);

    assert_eq!(state.clear_chats(&vec![2, 4, 30]), Ok(vec![2, 4, 30]));
    assert_eq!(known(&state), groups);
    assert_eq!(state.clear_chats(&vec![2, 99]), Err(StateError::ChatNotFound));
    assert_eq!(known(&state), groups);
    assert_eq!(groups, BTreeSet::from([2, 4, 30]));
}

#[test]
fn clear_chats_claims_idle_and_error_groups() {
    let mut state = state_with(vec![
        (1, ChatCleaningStatus::Idle),
        (2, ChatCleaningStatus::Error("x".to_string())),
        (3, ChatCleaningStatus::Queued),
        (4, ChatCleaningStatus::InProgress),
        (5, ChatCleaningStatus::Idle),
    ]);
    assert_eq!(state.clear_chats(&vec![4, 2, 3, 1]), Ok(vec![2, 1]));
    assert_eq!(state.chats_status.get(1), Some(ChatCleaningStatus::Queued));
    assert_eq!(state.chats_status.get(2), Some(ChatCleaningStatus::Queued));
    assert_eq!(state.chats_status.get(3), Some(ChatCleaningStatus::Queued));
    assert_eq!(state.chats_status.get(4), Some(ChatCleaningStatus::InProgress));
    assert_eq!(state.chats_status.get(5), Some(ChatCleaningStatus::Idle));
}

#[test]
fn clear_chats_takes_a_repeated_group_once() {
    let mut state = state_with(vec![(1, ChatCleaningStatus::Idle), (2, ChatCleaningStatus::Idle)]);
    assert_eq!(state.clear_chats(&vec![1, 2, 1, 1, 2]), Ok(vec![1, 2]));
}

#[test]
fn clear_chats_of_nothing_claims_nothing() {
    let mut state = state_with(vec![(1, ChatCleaningStatus::Idle)]);
    assert_eq!(state.clear_chats(&vec![]), Ok(vec![]));
    assert_eq!(state.chats_status.get(1), Some(ChatCleaningStatus::Idle));
}

#[test]
fn overlapping_clear_requests_claim_each_group_once() {
    let mut state = state_with(vec![
        (1, ChatCleaningStatus::Idle),
        (2, ChatCleaningStatus::Idle),
        (3, ChatCleaningStatus::Idle),
    ]);
    assert_eq!(state.clear_chats(&vec![1, 2]), Ok(vec![1, 2]));
    assert_eq!(state.clear_chats(&vec![2, 3, 1]), Ok(vec![3]));

    let (_, _) = state.delete_all_members(1).unwrap();
    assert_eq!(state.chats_status.get(1), Some(ChatCleaningStatus::InProgress));
    assert_eq!(state.clear_chats(&vec![1, 2, 3]), Ok(vec![]));
}

#[test]
fn clear_chats_with_unknown_group_claims_nothing() {
    let mut state = state_with(vec![(1, ChatCleaningStatus::Idle)]);
    assert_eq!(state.clear_chats(&vec![1, 9]), Err(StateError::ChatNotFound));
    assert_eq!(state.chats_status.snapshot(), vec![(1, ChatCleaningStatus::Idle)]);
    assert_eq!(state.clear_chats(&vec![9, 1]), Err(StateError::ChatNotFound));
    assert_eq!(state.chats_status.snapshot(), vec![(1, ChatCleaningStatus::Idle)]);
    assert_eq!(state.clear_chats(&vec![1]), Ok(vec![1]));
    assert_eq!(state.chats_status.get(1), Some(ChatCleaningStatus::Queued));
}

#[test]
fn failed_clear_does_not_block_a_later_one() {
    let mut state = state_with(vec![
        (1, ChatCleaningStatus::Idle),
        (3, ChatCleaningStatus::Error("x".to_string())),
    ]);
    assert_eq!(state.clear_chats(&vec![1, 2, 3]), Err(StateError::ChatNotFound));
    assert_eq!(state.chats_status.get(1), Some(ChatCleaningStatus::Idle));
    assert_eq!(state.chats_status.get(2), None);
    assert_eq!(state.chats_status.get(3), Some(ChatCleaningStatus::Error("x".to_string())));
    assert_eq!(state.clear_chats(&vec![3, 1]), Ok(vec![3, 1]));
}
