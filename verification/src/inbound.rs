//! What the service does on a message from the platform.

use crate::directory::User;
use crate::platform::MemberRole;
use crate::state::AppState;
use vstd::prelude::*;

verus! {

/// The kind of a message, as far as the service tells kinds apart.
#[derive(Debug, Clone, Copy, PartialEq, Eq, Structural)]
pub enum MessageKind {
    /// An ordinary message.
    Common,
    /// The notice that members have joined.
    NewChatMembers,
    /// The notice that a member has left.
    LeftChatMember,
    /// The notice that the group was created.
    GroupChatCreated,
    /// Any other notice.
    Other,
}

/// What the service reads of a message.
#[derive(Debug, Clone, Copy, PartialEq, Eq, Structural)]
pub struct Incoming {
    /// The chat that the message was sent in.
    pub chat_id: i64,
    /// Whether that chat is a conversation with a single user.
    pub private: bool,
    pub kind: MessageKind,
    /// Where the message says that the group has migrated: the identifier
    /// that the group had before.
    pub migrated_from: Option<i64>,
    /// The chat on whose behalf the message was sent, if any.
    pub sender_chat: Option<i64>,
    /// Whether the message names the user who sent it.
    pub has_sender: bool,
    /// The number of members that a notice of joining lists.
    pub joined: usize,
}

/// One thing to do on a message. The things are done in order, and the first
/// that fails ends the handling of the message.
#[derive(Debug, Clone, Copy, PartialEq, Eq, Structural)]
pub enum Reaction {
    /// Move the group from its old identifier to the new one.
    Migrate { old_id: i64, new_id: i64 },
    /// Record the chat of the message as a group.
    RecordChat,
    /// Admit the sender of the message as a member of the group.
    AdmitSender,
    /// Admit the member at this position of the notice of joining.
    AdmitJoined { position: usize },
    /// Delete the record of the member who left.
    DropLeft,
    /// Delete the message from the group.
    DeleteMessage,
}

/// What follows from the kind of a message.
pub open spec fn reactions_to_kind(kind: MessageKind, joined: nat) -> Seq<Reaction> {
    match kind {
        MessageKind::NewChatMembers => Seq::new(
            joined,
            |position: int| Reaction::AdmitJoined { position: position as usize },
        ).push(Reaction::DeleteMessage),
        MessageKind::LeftChatMember => seq![Reaction::DropLeft, Reaction::DeleteMessage],
        MessageKind::GroupChatCreated => seq![Reaction::RecordChat],
        _ => Seq::empty(),
    }
}

/// What is done on a message.
///
/// A notice of migration that names the new chat moves the group and does
/// nothing else. Apart from that, a message in a private chat is passed
/// over. For every other message the group is recorded and the sender, if
/// named, admitted; then follows what the kind asks for.
pub open spec fn reactions_to(incoming: Incoming) -> Seq<Reaction> {
    if incoming.migrated_from.is_some() && incoming.sender_chat.is_some() {
        seq![
            Reaction::Migrate {
                old_id: incoming.migrated_from.unwrap(),
                new_id: incoming.sender_chat.unwrap(),
            },
        ]
    } else if incoming.private {
        Seq::empty()
    } else {
        seq![Reaction::RecordChat] + (if incoming.has_sender {
            seq![Reaction::AdmitSender]
        } else {
            Seq::empty()
        }) + reactions_to_kind(incoming.kind, incoming.joined as nat)
    }
}

/// What is done on the message `incoming`, in order.
pub fn handle_message(incoming: &Incoming) -> (reactions: Vec<Reaction>)
    ensures
        reactions@ == reactions_to(*incoming),
{
    let mut reactions: Vec<Reaction> = Vec::new();
    if let Some(old_id) = incoming.migrated_from {
        if let Some(new_id) = incoming.sender_chat {
            reactions.push(Reaction::Migrate { old_id, new_id });
            assert(reactions@ =~= reactions_to(*incoming));
            return reactions;
        }
    }
    if incoming.private {
        return reactions;
    }
    reactions.push(Reaction::RecordChat);
    if incoming.has_sender {
        reactions.push(Reaction::AdmitSender);
    }
    let ghost common = reactions@;
    match incoming.kind {
        MessageKind::NewChatMembers => {
            let mut position: usize = 0;
            while position < incoming.joined
                invariant
                    position <= incoming.joined,
                    reactions@ == common + Seq::new(
                        position as nat,
                        |position: int| Reaction::AdmitJoined { position: position as usize },
                    ),
                decreases incoming.joined - position,
            {
                reactions.push(Reaction::AdmitJoined { position });
                position = position + 1;
            }
            reactions.push(Reaction::DeleteMessage);
        },
        MessageKind::LeftChatMember => {
            reactions.push(Reaction::DropLeft);
            reactions.push(Reaction::DeleteMessage);
        },
        MessageKind::GroupChatCreated => {
            reactions.push(Reaction::RecordChat);
        },
        _ => {},
    }
    assert(reactions@ =~= reactions_to(*incoming));
    reactions
}

/// What becomes of somebody seen in a group.
#[derive(Debug, Clone, Copy, PartialEq, Eq, Structural)]
pub enum Admission {
    /// It is the bot itself: nothing is recorded.
    OwnAccount,
    /// An owner or administrator: nothing is recorded.
    Privileged,
    /// Anybody else: the member is recorded.
    Recorded,
}

/// What becomes of the member `member_id`, whose live role is `role`, where
/// the bot's own account is `own_id`.
pub open spec fn admission_of(member_id: i64, own_id: i64, role: MemberRole) -> Admission {
    if member_id == own_id {
        Admission::OwnAccount
    } else if role.privileged() {
        Admission::Privileged
    } else {
        Admission::Recorded
    }
}

impl AppState {
    /// Whether `member_id` is the bot's own account, which is never
    /// recorded as a member.
    pub fn is_own_account(&self, member_id: i64, own_id: i64) -> (own: bool)
        ensures
            own == (member_id == own_id),
    {
        member_id == own_id
    }

    /// Decides whether the member of `member`, seen in a group with the live
    /// role `role`, is recorded: the bot itself and the privileged accounts
    /// are not, everybody else is.
    pub fn new_chat_member(&self, member: &User, own_id: i64, role: MemberRole) -> (admission:
        Admission)
        ensures
            admission == admission_of(member.id, own_id, role),
    {
        if self.is_own_account(member.id, own_id) {
            Admission::OwnAccount
        } else if role.is_privileged() {
            Admission::Privileged
        } else {
            Admission::Recorded
        }
    }
}

} // verus!
