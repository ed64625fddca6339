use chat_cleaner::directory::{Chat, DirectoryWrite, User};
use chat_cleaner::reaper::{Probe, REAPER_PERIOD_SECS};
use chat_cleaner::state::AppState;
use chat_cleaner::status::ChatCleaningStatus;

fn state_with_groups(ids: &[i64]) -> AppState {
    let mut state = AppState::new();
    let chats: Vec<Chat> = ids.iter().map(|id| Chat { id: *id, name: String::new() }).collect();
    state.fill_status_list(&chats);
    state
}

fn deleted(writes: &Vec<DirectoryWrite>) -> Vec<i64> {
    writes
        .iter()
        .map(|write| match write {
            DirectoryWrite::DeleteGroup { id } => *id,
            other => panic!("the reaper only deletes: {:?}", other),
        })
        .collect()
}

/// Lets the directory, here its member records, and the registry take the
/// writes of a pass.
fn take(state: &mut AppState, members: &mut Vec<User>, writes: &Vec<DirectoryWrite>) {
    for write in writes {
        if let DirectoryWrite::DeleteGroup { id } = write {
            members.retain(|member| member.chat_id != *id);
        }
        state.apply(write);
    }
}

fn member(id: i64, chat_id: i64) -> User {
    User { id, chat_id, username: None, name: "m".to_string() }
}

#[test]
fn reaper_deletes_group_the_bot_was_removed_from() {
    let mut state = state_with_groups(&[5, 6]);
    let mut members = vec![member(1, 5), member(2, 5), member(1, 6)];
    let writes = state.cleanup_deprecated_chats_loop(&vec![(5, Probe::BotKickedFromSupergroup)]);
    assert_eq!(deleted(&writes), vec![5]);
    assert_eq!(state.chats_status.get(5), Some(ChatCleaningStatus::Idle));
    take(&mut state, &mut members, &writes);
    assert_eq!(members.len(), 1);
    assert_eq!(members[0].chat_id, 6);
    assert_eq!(state.chats_status.get(5), None);
    assert_eq!(state.chats_status.snapshot(), vec![(6, ChatCleaningStatus::Idle)]);
}

#[test]
fn reaper_keeps_group_on_unrelated_error() {
    let mut state = state_with_groups(&[1, 2, 3]);
    let mut members = vec![member(1, 1)];
    let writes = state.cleanup_deprecated_chats_loop(&vec![
        (1, Probe::Failed),
        (2, Probe::OtherApi("Too Many Requests: retry later".to_string())),
        (3, Probe::Present),
    ]);
    assert!(writes.is_empty());
    take(&mut state, &mut members, &writes);
    assert_eq!(members.len(), 1);
    assert_eq!(state.chats_status.snapshot().len(), 3);
    assert_eq!(state.chats_status.get(1), Some(ChatCleaningStatus::Idle));
}

#[test]
fn reaper_deletes_on_each_signal_of_removal() {
    let mut state = state_with_groups(&[1, 2, 3, 4, 5, 6]);
    assert_eq!(state.set_chat_status(2, ChatCleaningStatus::InProgress), Ok(()));
    let writes = state.cleanup_deprecated_chats_loop(&vec![
        (1, Probe::ChatNotFound),
        (2, Probe::BotKicked),
        (3, Probe::Present),
        (4, Probe::BotKickedFromSupergroup),
        (
            5,
            Probe::OtherApi(
                "Unknown error: \"Forbidden: bot was kicked from the group chat\"".to_string(),
            ),
        ),
        (6, Probe::OtherApi("Forbidden: bot was kicked from the group chat".to_string())),
    ]);
    assert_eq!(deleted(&writes), vec![1, 2, 4, 5]);
    take(&mut state, &mut Vec::new(), &writes);
    let mut left: Vec<i64> =
        state.chats_status.snapshot().into_iter().map(|entry| entry.0).collect();
    left.sort();
    assert_eq!(left, vec![3, 6]);
}

#[test]
fn refused_deletion_of_a_gone_group_keeps_its_entry() {
    let mut state = state_with_groups(&[1, 2]);
    let writes = state
        .cleanup_deprecated_chats_loop(&vec![(1, Probe::BotKicked), (2, Probe::ChatNotFound)]);
    assert_eq!(deleted(&writes), vec![1, 2]);
    // The directory takes the second write and refuses the first.
    state.apply(&writes[1]);
    assert_eq!(state.chats_status.snapshot(), vec![(1, ChatCleaningStatus::Idle)]);
}

#[test]
fn probes_are_classified() {
    assert!(Probe::ChatNotFound.bot_is_gone());
    assert!(Probe::BotKicked.bot_is_gone());
    assert!(Probe::BotKickedFromSupergroup.bot_is_gone());
    assert!(!Probe::Present.bot_is_gone());
    assert!(!Probe::Failed.bot_is_gone());
    assert!(!Probe::OtherApi(String::new()).bot_is_gone());
    assert!(Probe::OtherApi(
        "Unknown error: \"Forbidden: bot was kicked from the group chat\"".to_string()
    )
    .bot_is_gone());
    assert!(!Probe::OtherApi(
        "Unknown error: \"Forbidden: bot was kicked from the group chat\" ".to_string()
    )
    .bot_is_gone());
}

#[test]
fn reaper_pass_over_nothing_changes_nothing() {
    let state = state_with_groups(&[1]);
    assert!(state.cleanup_deprecated_chats_loop(&vec![]).is_empty());
    assert_eq!(state.chats_status.get(1), Some(ChatCleaningStatus::Idle));
}

#[test]
fn reaper_names_an_unknown_group_that_is_gone() {
    let mut state = state_with_groups(&[1]);
    let writes = state.cleanup_deprecated_chats_loop(&vec![
        (9, Probe::ChatNotFound),
        (9, Probe::ChatNotFound),
    ]);
    assert_eq!(deleted(&writes), vec![9, 9]);
    take(&mut state, &mut Vec::new(), &writes);
    assert_eq!(state.chats_status.snapshot(), vec![(1, ChatCleaningStatus::Idle)]);
}

#[test]
fn reaper_runs_every_five_minutes() {
    assert_eq!(REAPER_PERIOD_SECS, 300);
}
