use chat_cleaner::directory::User;
use chat_cleaner::inbound::{handle_message, Admission, Incoming, MessageKind, Reaction};
use chat_cleaner::platform::MemberRole;
use chat_cleaner::state::AppState;

fn message(kind: MessageKind) -> Incoming {
    Incoming {
        chat_id: -10,
        private: false,
        kind,
        migrated_from: None,
        sender_chat: None,
        has_sender: true,
        joined: 0,
    }
}

#[test]
fn ordinary_message_records_group_and_sender() {
    assert_eq!(
        handle_message(&message(MessageKind::Common)),
        vec![Reaction::RecordChat, Reaction::AdmitSender]
    );
    let mut anonymous = message(MessageKind::Common);
    anonymous.has_sender = false;
    anonymous.sender_chat = Some(-10);
    assert_eq!(handle_message(&anonymous), vec![Reaction::RecordChat]);
}

#[test]
fn private_message_is_passed_over() {
    let mut incoming = message(MessageKind::Common);
    incoming.private = true;
    assert_eq!(handle_message(&incoming), vec![]);
    incoming.kind = MessageKind::NewChatMembers;
    incoming.joined = 2;
    assert_eq!(handle_message(&incoming), vec![]);
}

#[test]
fn migration_with_new_chat_only_migrates() {
    let mut incoming = message(MessageKind::Common);
    incoming.migrated_from = Some(-10);
    incoming.sender_chat = Some(-1000);
    assert_eq!(
        handle_message(&incoming),
        vec![Reaction::Migrate { old_id: -10, new_id: -1000 }]
    );
    incoming.private = true;
    assert_eq!(
        handle_message(&incoming),
        vec![Reaction::Migrate { old_id: -10, new_id: -1000 }]
    );
}

#[test]
fn migration_without_new_chat_is_an_ordinary_message() {
    let mut incoming = message(MessageKind::Common);
    incoming.migrated_from = Some(-10);
    assert_eq!(handle_message(&incoming), vec![Reaction::RecordChat, Reaction::AdmitSender]);
}

#[test]
fn join_notice_admits_each_member_and_is_deleted() {
    let mut incoming = message(MessageKind::NewChatMembers);
    incoming.joined = 3;
    assert_eq!(
        handle_message(&incoming),
        vec![
            Reaction::RecordChat,
            Reaction::AdmitSender,
            Reaction::AdmitJoined { position: 0 },
            Reaction::AdmitJoined { position: 1 },
            Reaction::AdmitJoined { position: 2 },
            Reaction::DeleteMessage,
        ]
    );
    incoming.joined = 0;
    assert_eq!(
        handle_message(&incoming),
        vec![Reaction::RecordChat, Reaction::AdmitSender, Reaction::DeleteMessage]
    );
}

#[test]
fn leave_notice_drops_the_record_and_is_deleted() {
    assert_eq!(
        handle_message(&message(MessageKind::LeftChatMember)),
        vec![
            Reaction::RecordChat,
            Reaction::AdmitSender,
            Reaction::DropLeft,
            Reaction::DeleteMessage,
        ]
    );
}

#[test]
fn creation_notice_records_the_group_again() {
    assert_eq!(
        handle_message(&message(MessageKind::GroupChatCreated)),
        vec![Reaction::RecordChat, Reaction::AdmitSender, Reaction::RecordChat]
    );
    assert_eq!(
        handle_message(&message(MessageKind::Other)),
        vec![Reaction::RecordChat, Reaction::AdmitSender]
    );
}

#[test]
fn admission_leaves_out_the_bot_and_the_privileged() {
    let state = AppState::new();
    let member = User { id: 42, chat_id: -10, username: Some("u".to_string()), name: "U".to_string() };
    assert!(state.is_own_account(42, 42));
    assert!(!state.is_own_account(42, 43));
    assert_eq!(state.new_chat_member(&member, 42, MemberRole::Member), Admission::OwnAccount);
    assert_eq!(state.new_chat_member(&member, 42, MemberRole::Owner), Admission::OwnAccount);
    assert_eq!(state.new_chat_member(&member, 1, MemberRole::Owner), Admission::Privileged);
    assert_eq!(state.new_chat_member(&member, 1, MemberRole::Administrator), Admission::Privileged);
    assert_eq!(state.new_chat_member(&member, 1, MemberRole::Member), Admission::Recorded);
    assert_eq!(state.new_chat_member(&member, 1, MemberRole::Restricted), Admission::Recorded);
    assert_eq!(state.new_chat_member(&member, 1, MemberRole::Left), Admission::Recorded);
    assert_eq!(state.new_chat_member(&member, 1, MemberRole::Banned), Admission::Recorded);
}
