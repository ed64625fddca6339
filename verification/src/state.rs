//! The orchestration state: the status registry and the operations that keep
//! it in step with the group directory.

use crate::directory::{
    chat_ids, groups_after, groups_after_all, Chat, DirectoryWrite, WriteView,
};
use crate::registry::{claim_one, migrated, StatusRegistry};
use crate::seq_facts::{lemma_last_contains, lemma_prefix_contains};
use crate::status::{ChatCleaningStatus, StateError, StatusView};
use vstd::prelude::*;
use vstd::seq_lib::lemma_seq_contains_after_push;

verus! {

/// The statuses after `Idle` has been inserted for each of `groups` that had
/// no entry.
pub open spec fn filled(statuses: Map<i64, StatusView>, groups: Seq<i64>) -> Map<i64, StatusView> {
    Map::new(
        |group: i64| statuses.contains_key(group) || groups.contains(group),
        |group: i64|
            if statuses.contains_key(group) {
                statuses[group]
            } else {
                StatusView::Idle
            },
    )
}

/// The statuses after the registry has followed `write`: an upsert inserts
/// `Idle` for a new group and keeps the status of a known one, a deletion
/// removes the entry, and a move carries the status over to the new id.
pub open spec fn registry_after(statuses: Map<i64, StatusView>, write: WriteView) -> Map<
    i64,
    StatusView,
> {
    match write {
        WriteView::UpsertGroup { id, .. } => filled(statuses, seq![id]),
        WriteView::DeleteGroup { id } => statuses.remove(id),
        WriteView::MoveGroup { from, to } => if statuses.contains_key(from) {
            migrated(statuses, from, to)
        } else {
            statuses
        },
    }
}

/// The statuses after the registry has followed `writes`, one after the
/// other.
pub open spec fn registry_after_all(statuses: Map<i64, StatusView>, writes: Seq<WriteView>) -> Map<
    i64,
    StatusView,
>
    decreases writes.len(),
{
    if writes.len() == 0 {
        statuses
    } else {
        registry_after(registry_after_all(statuses, writes.drop_last()), writes.last())
    }
}

/// The statuses after a claim on each of `groups`: every known group among
/// them that was `Idle` or in `Error` is `Queued`, and nothing else changes.
pub open spec fn after_claims(statuses: Map<i64, StatusView>, groups: Seq<i64>) -> Map<
    i64,
    StatusView,
> {
    Map::new(
        |group: i64| statuses.contains_key(group),
        |group: i64|
            if groups.contains(group) && statuses[group].claimable() {
                StatusView::Queued
            } else {
                statuses[group]
            },
    )
}

/// The groups that a claim on each of `groups`, in this order, takes: those
/// that are known and `Idle` or in `Error`, each at its first occurrence.
pub open spec fn claimed_of(statuses: Map<i64, StatusView>, groups: Seq<i64>) -> Seq<i64>
    decreases groups.len(),
{
    if groups.len() == 0 {
        Seq::empty()
    } else {
        let earlier = groups.drop_last();
        let group = groups.last();
        if statuses.contains_key(group) && statuses[group].claimable() && !earlier.contains(
            group,
        ) {
            claimed_of(statuses, earlier).push(group)
        } else {
            claimed_of(statuses, earlier)
        }
    }
}

/// Every one of `groups` has an entry.
pub open spec fn all_known(statuses: Map<i64, StatusView>, groups: Seq<i64>) -> bool {
    forall|i: int| 0 <= i < groups.len() ==> statuses.contains_key(#[trigger] groups[i])
}

/// The groups that a bulk clear of `chats` takes for a sweep: none if one of
/// `chats` has no entry, else those that are `Idle` or in `Error`, each once.
pub open spec fn taken(statuses: Map<i64, StatusView>, chats: Seq<i64>) -> Seq<i64> {
    if all_known(statuses, chats) {
        claimed_of(statuses, chats)
    } else {
        Seq::empty()
    }
}

/// The statuses after a bulk clear of `chats`: unchanged if one of `chats`
/// has no entry, else with every group taken `Queued`.
pub open spec fn cleared(statuses: Map<i64, StatusView>, chats: Seq<i64>) -> Map<i64, StatusView> {
    if all_known(statuses, chats) {
        after_claims(statuses, chats)
    } else {
        statuses
    }
}

/// The state that the parts of the service share.
pub struct AppState {
    pub chats_status: StatusRegistry,
}

impl View for AppState {
    type V = Map<i64, StatusView>;

    open spec fn view(&self) -> Map<i64, StatusView> {
        self.chats_status@
    }
}

impl AppState {
    /// A state that knows no group.
    pub fn new() -> (state: Self)
        ensures
            state@ == crate::registry::no_entries(),
    {
        AppState { chats_status: StatusRegistry::new() }
    }

    /// Gives every group of `chats` that has no entry the status `Idle`.
    /// Called with the groups of the directory on an empty state, it leaves
    /// an entry for each of them and for nothing else.
    pub fn fill_status_list(&mut self, chats: &Vec<Chat>)
        ensures
            final(self)@ == filled(old(self)@, chat_ids(chats@)),
    {
        let mut i: usize = 0;
        while i < chats.len()
            invariant
                i <= chats.len(),
                self@ == filled(old(self)@, chat_ids(chats@).take(i as int)),
            decreases chats.len() - i,
        {
            self.chats_status.ensure(chats[i].id);
            proof {
                let ids = chat_ids(chats@);
                lemma_prefix_contains(ids, i as int);
                assert(ids[i as int] == chats@[i as int].id);
                assert(self@ =~= filled(old(self)@, ids.take(i + 1)));
            }
            i = i + 1;
        }
        proof {
            assert(chat_ids(chats@).take(chats.len() as int) =~= chat_ids(chats@));
        }
    }

    /// Overwrites the status of `chat_id`; fails, changing nothing, if the
    /// group has no entry.
    pub fn set_chat_status(&mut self, chat_id: i64, status: ChatCleaningStatus) -> (outcome: Result<
        (),
        StateError,
    >)
        ensures
            match outcome {
                Ok(_) => old(self)@.contains_key(chat_id) && final(self)@ == old(self)@.insert(
                    chat_id,
                    status@,
                ),
                Err(error) => error == StateError::ChatNotFound && !old(self)@.contains_key(
                    chat_id,
                ) && final(self)@ == old(self)@,
            },
    {
        self.chats_status.set(chat_id, status)
    }

    /// The write that records a sighting of the group `chat` in the
    /// directory. The registry follows by [`AppState::apply`] once the
    /// directory has taken the write; until then nothing has changed.
    pub fn new_chat(&self, chat: Chat) -> (write: DirectoryWrite)
        ensures
            write@ == (WriteView::UpsertGroup { id: chat.id, name: chat.name@ }),
    {
        DirectoryWrite::UpsertGroup { id: chat.id, name: chat.name }
    }

    /// The write that deletes the group `chat_id`, with its member records,
    /// from the directory. The registry follows by [`AppState::apply`] once
    /// the directory has taken the write; until then the entry and its
    /// status stay.
    pub fn delete_chat(&self, chat_id: i64) -> (write: DirectoryWrite)
        ensures
            write@ == (WriteView::DeleteGroup { id: chat_id }),
    {
        DirectoryWrite::DeleteGroup { id: chat_id }
    }

    /// The write that follows the platform's change of a group's identifier
    /// from `old_id` to `new_id`. Fails if `old_id` has no entry. The
    /// registry follows by [`AppState::apply`] once the directory has taken
    /// the write.
    pub fn migrate_chat(&self, old_id: i64, new_id: i64) -> (outcome: Result<
        DirectoryWrite,
        StateError,
    >)
        ensures
            match outcome {
                Ok(write) => self@.contains_key(old_id) && write@ == (WriteView::MoveGroup {
                    from: old_id,
                    to: new_id,
                }),
                Err(error) => error == StateError::MigrationSourceMissing && !self@.contains_key(
                    old_id,
                ),
            },
    {
        if self.chats_status.contains(old_id) {
            Ok(DirectoryWrite::MoveGroup { from: old_id, to: new_id })
        } else {
            Err(StateError::MigrationSourceMissing)
        }
    }

    /// Lets the registry follow a write that the directory has taken: an
    /// upsert gives a new group the status `Idle` and keeps the status of a
    /// known one, a deletion removes the entry, and a move carries the
    /// status of the old identifier over to the new one. A write that the
    /// directory has refused is not applied, so that the two stay in step.
    pub fn apply(&mut self, write: &DirectoryWrite)
        ensures
            final(self)@ == registry_after(old(self)@, write@),
    {
        match write {
            DirectoryWrite::UpsertGroup { id, name: _ } => {
                self.chats_status.ensure(*id);
                proof {
                    assert(seq![*id][0] == *id);
                    assert(self@ =~= filled(old(self)@, seq![*id]));
                }
            },
            DirectoryWrite::DeleteGroup { id } => {
                let _ = self.chats_status.remove(*id);
            },
            DirectoryWrite::MoveGroup { from, to } => {
                let _ = self.chats_status.migrate(*from, *to);
            },
        }
    }

    /// The claim step of a bulk clear. Each of `chats`, in order, is taken
    /// for a sweep if it is `Idle` or in `Error`, and skipped if it is
    /// `Queued` or `InProgress`. The result lists the groups taken, which
    /// are now `Queued` and are to be swept one after the other.
    ///
    /// If one of `chats` has no entry the step fails and takes no group:
    /// no group is `Queued` without a sweep to follow.
    pub fn clear_chats(&mut self, chats: &Vec<i64>) -> (outcome: Result<Vec<i64>, StateError>)
        ensures
            final(self)@ == cleared(old(self)@, chats@),
            match outcome {
                Ok(claimed) => all_known(old(self)@, chats@) && claimed@ == taken(
                    old(self)@,
                    chats@,
                ),
                Err(error) => error == StateError::ChatNotFound && !all_known(old(self)@, chats@),
            },
    {
        let mut checked: usize = 0;
        while checked < chats.len()
            invariant
                checked <= chats.len(),
                self@ == old(self)@,
                forall|j: int| 0 <= j < checked ==> self@.contains_key(#[trigger] chats@[j]),
            decreases chats.len() - checked,
        {
            if !self.chats_status.contains(chats[checked]) {
                return Err(StateError::ChatNotFound);
            }
            checked = checked + 1;
        }
        let mut claimed: Vec<i64> = Vec::new();
        let mut i: usize = 0;
        proof {
            assert(self@ =~= after_claims(old(self)@, chats@.take(0)));
        }
        while i < chats.len()
            invariant
                i <= chats.len(),
                all_known(old(self)@, chats@),
                self@ == after_claims(old(self)@, chats@.take(i as int)),
                claimed@ == claimed_of(old(self)@, chats@.take(i as int)),
            decreases chats.len() - i,
        {
            let group = chats[i];
            proof {
                lemma_prefix_contains(chats@, i as int);
                assert(old(self)@.contains_key(chats@[i as int]));
            }
            match self.chats_status.claim(group) {
                Ok(taken) => {
                    if taken {
                        claimed.push(group);
                    }
                },
                Err(_) => {},
            }
            proof {
                assert(self@ =~= after_claims(old(self)@, chats@.take(i + 1)));
            }
            i = i + 1;
        }
        proof {
            assert(chats@.take(chats.len() as int) =~= chats@);
        }
        Ok(claimed)
    }
}

/// A group is taken by a claim step exactly if it is named, known, and
/// `Idle` or in `Error` before the step.
pub proof fn lemma_claimed_iff_claimable(
    statuses: Map<i64, StatusView>,
    groups: Seq<i64>,
    group: i64,
)
    ensures
        claimed_of(statuses, groups).contains(group) <==> groups.contains(group)
            && statuses.contains_key(group) && statuses[group].claimable(),
    decreases groups.len(),
{
    if groups.len() > 0 {
        let earlier = groups.drop_last();
        lemma_claimed_iff_claimable(statuses, earlier, group);
        lemma_last_contains(groups, group);
        lemma_seq_contains_after_push(claimed_of(statuses, earlier), groups.last(), group);
    }
}

/// A claim step takes no group twice, however often the group is named.
pub proof fn lemma_claimed_once(statuses: Map<i64, StatusView>, groups: Seq<i64>)
    ensures
        claimed_of(statuses, groups).no_duplicates(),
    decreases groups.len(),
{
    if groups.len() > 0 {
        let earlier = groups.drop_last();
        lemma_claimed_once(statuses, earlier);
        lemma_claimed_iff_claimable(statuses, earlier, groups.last());
    }
}

/// A bulk clear leaves every group that it takes `Queued`, and every other
/// group as it was. It takes no group twice.
pub proof fn lemma_taken_are_queued(statuses: Map<i64, StatusView>, chats: Seq<i64>, group: i64)
    ensures
        taken(statuses, chats).no_duplicates(),
        taken(statuses, chats).contains(group) ==> statuses.contains_key(group)
            && statuses[group].claimable() && cleared(statuses, chats)[group]
            == StatusView::Queued,
        !taken(statuses, chats).contains(group) && statuses.contains_key(group) ==> cleared(
            statuses,
            chats,
        )[group] == statuses[group],
        cleared(statuses, chats).dom() == statuses.dom(),
{
    lemma_claimed_once(statuses, chats);
    lemma_claimed_iff_claimable(statuses, chats, group);
    assert(cleared(statuses, chats).dom() =~= statuses.dom());
}

/// One active sweep per group, for any two bulk clears: as long as the groups
/// that the first took are `Queued` or `InProgress`, the second takes none of
/// them, whatever the two lists name and whatever else has changed in
/// between.
pub proof fn lemma_overlapping_clears_are_exclusive(
    statuses: Map<i64, StatusView>,
    first: Seq<i64>,
    later: Map<i64, StatusView>,
    second: Seq<i64>,
)
    requires
        forall|group: i64|
            #![trigger taken(statuses, first).contains(group)]
            taken(statuses, first).contains(group) ==> later.contains_key(group)
                && later[group].busy(),
    ensures
        forall|group: i64|
            #![trigger taken(statuses, first).contains(group)]
            taken(statuses, first).contains(group) ==> !taken(later, second).contains(group),
{
    assert forall|group: i64| taken(statuses, first).contains(group) implies !taken(
        later,
        second,
    ).contains(group) by {
        lemma_claimed_iff_claimable(later, second, group);
    }
}

/// Two bulk clears in direct succession: the second takes no group that the
/// first took.
pub proof fn lemma_second_clear_skips_first(
    statuses: Map<i64, StatusView>,
    first: Seq<i64>,
    second: Seq<i64>,
)
    ensures
        forall|group: i64|
            #![trigger taken(statuses, first).contains(group)]
            taken(statuses, first).contains(group) ==> !taken(
                cleared(statuses, first),
                second,
            ).contains(group),
{
    assert forall|group: i64|
        #![trigger taken(statuses, first).contains(group)]
        taken(statuses, first).contains(group) implies cleared(statuses, first).contains_key(
            group,
        ) && cleared(statuses, first)[group].busy() by {
        lemma_taken_are_queued(statuses, first, group);
    }
    lemma_overlapping_clears_are_exclusive(statuses, first, cleared(statuses, first), second);
}

/// A bulk clear that names a group without an entry takes nothing and
/// changes nothing.
pub proof fn lemma_failed_clear_changes_nothing(statuses: Map<i64, StatusView>, chats: Seq<i64>)
    requires
        !all_known(statuses, chats),
    ensures
        cleared(statuses, chats) == statuses,
        taken(statuses, chats) == Seq::<i64>::empty(),
{
}

/// Lockstep of registry and directory: if the registry has an entry for
/// exactly the groups of the directory, then after the registry has followed
/// a write and the directory has taken it, this is so again.
pub proof fn lemma_lockstep(statuses: Map<i64, StatusView>, groups: Set<i64>, write: WriteView)
    requires
        statuses.dom() == groups,
    ensures
        registry_after(statuses, write).dom() == groups_after(groups, write),
{
    match write {
        WriteView::UpsertGroup { id, .. } => {
            assert(seq![id][0] == id);
            assert(registry_after(statuses, write).dom() =~= groups.insert(id));
        },
        WriteView::DeleteGroup { id } => {
            assert(registry_after(statuses, write).dom() =~= groups.remove(id));
        },
        WriteView::MoveGroup { from, to } => {
            assert(registry_after(statuses, write).dom() =~= groups_after(groups, write));
        },
    }
}

/// Lockstep over a run of writes: what holds of one write holds of any number
/// of them, taken in order.
pub proof fn lemma_lockstep_all(
    statuses: Map<i64, StatusView>,
    groups: Set<i64>,
    writes: Seq<WriteView>,
)
    requires
        statuses.dom() == groups,
    ensures
        registry_after_all(statuses, writes).dom() == groups_after_all(groups, writes),
    decreases writes.len(),
{
    if writes.len() > 0 {
        lemma_lockstep_all(statuses, groups, writes.drop_last());
        lemma_lockstep(
            registry_after_all(statuses, writes.drop_last()),
            groups_after_all(groups, writes.drop_last()),
            writes.last(),
        );
    }
}

/// Filling the registry from the groups of the directory brings the two in
/// step: if the registry had no entry for a group outside the directory, as
/// an empty registry has, it has an entry for exactly the groups of the
/// directory afterwards. The new entries are `Idle` and the others are as
/// they were.
pub proof fn lemma_fill_from_directory(statuses: Map<i64, StatusView>, groups: Seq<i64>)
    requires
        statuses.dom().subset_of(groups.to_set()),
    ensures
        filled(statuses, groups).dom() == groups.to_set(),
        forall|group: i64|
            #![trigger filled(statuses, groups)[group]]
            groups.contains(group) ==> filled(statuses, groups)[group] == if statuses.contains_key(
                group,
            ) {
                statuses[group]
            } else {
                StatusView::Idle
            },
{
    assert(filled(statuses, groups).dom() =~= groups.to_set());
}

/// A change of status adds no group and removes none: neither a claim, nor a
/// claim step, nor the overwriting of a known group's status.
pub proof fn lemma_status_changes_keep_groups(
    statuses: Map<i64, StatusView>,
    groups: Seq<i64>,
    group: i64,
    status: StatusView,
)
    ensures
        claim_one(statuses, group).dom() == statuses.dom(),
        after_claims(statuses, groups).dom() == statuses.dom(),
        statuses.contains_key(group) ==> statuses.insert(group, status).dom() == statuses.dom(),
{
    assert(claim_one(statuses, group).dom() =~= statuses.dom());
    assert(after_claims(statuses, groups).dom() =~= statuses.dom());
    if statuses.contains_key(group) {
        assert(statuses.insert(group, status).dom() =~= statuses.dom());
    }
}

} // verus!
