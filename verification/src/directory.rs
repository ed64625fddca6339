//! Records of the group and member directory, and the writes that keep the
//! directory in step with the status registry.

use vstd::prelude::*;

verus! {

/// A group known to the directory.
#[derive(Debug)]
pub struct Chat {
    pub id: i64,
    pub name: String,
}

/// A tracked, non-privileged member of one group.
#[derive(Debug)]
pub struct User {
    pub id: i64,
    pub chat_id: i64,
    pub username: Option<String>,
    pub name: String,
}

/// The group ids of a list of groups, in the order of the list.
pub open spec fn chat_ids(chats: Seq<Chat>) -> Seq<i64> {
    chats.map_values(|chat: Chat| chat.id)
}

/// The member ids of a list of members, in the order of the list.
pub open spec fn member_ids(users: Seq<User>) -> Seq<i64> {
    users.map_values(|user: User| user.id)
}

/// A write to the group directory. Each operation that adds, removes or moves
/// an entry of the status registry hands out the write that does the same to
/// the directory, so that the two stay in step.
#[derive(Debug)]
pub enum DirectoryWrite {
    /// Insert the group, or update its name if it is already there.
    UpsertGroup { id: i64, name: String },
    /// Delete the group and its member records.
    DeleteGroup { id: i64 },
    /// Give the group `from` the identifier `to`.
    MoveGroup { from: i64, to: i64 },
}

/// Mathematical value of a [`DirectoryWrite`].
pub enum WriteView {
    UpsertGroup { id: i64, name: Seq<char> },
    DeleteGroup { id: i64 },
    MoveGroup { from: i64, to: i64 },
}

impl View for DirectoryWrite {
    type V = WriteView;

    open spec fn view(&self) -> WriteView {
        match self {
            DirectoryWrite::UpsertGroup { id, name } => WriteView::UpsertGroup {
                id: *id,
                name: name@,
            },
            DirectoryWrite::DeleteGroup { id } => WriteView::DeleteGroup { id: *id },
            DirectoryWrite::MoveGroup { from, to } => WriteView::MoveGroup { from: *from, to: *to },
        }
    }
}

/// The groups that the directory holds after `write`, if it held `groups`
/// before. Moving a group that is not there changes nothing.
pub open spec fn groups_after(groups: Set<i64>, write: WriteView) -> Set<i64> {
    match write {
        WriteView::UpsertGroup { id, .. } => groups.insert(id),
        WriteView::DeleteGroup { id } => groups.remove(id),
        WriteView::MoveGroup { from, to } => if groups.contains(from) {
            groups.remove(from).insert(to)
        } else {
            groups
        },
    }
}

/// The member records that the directory holds after `write`, if it held
/// `members` before, each record as the pair of its group and its member.
/// The deletion of a group deletes the member records of that group; no
/// other write touches a member record.
pub open spec fn members_after(members: Set<(i64, i64)>, write: WriteView) -> Set<(i64, i64)> {
    match write {
        WriteView::DeleteGroup { id } => members.filter(|record: (i64, i64)| record.0 != id),
        _ => members,
    }
}

/// The member records that the directory holds after `writes`, taken in
/// order.
pub open spec fn members_after_all(members: Set<(i64, i64)>, writes: Seq<WriteView>) -> Set<
    (i64, i64),
>
    decreases writes.len(),
{
    if writes.len() == 0 {
        members
    } else {
        members_after(members_after_all(members, writes.drop_last()), writes.last())
    }
}

/// The groups that the directory holds after `writes`, taken in order.
pub open spec fn groups_after_all(groups: Set<i64>, writes: Seq<WriteView>) -> Set<i64>
    decreases writes.len(),
{
    if writes.len() == 0 {
        groups
    } else {
        groups_after(groups_after_all(groups, writes.drop_last()), writes.last())
    }
}

} // verus!
