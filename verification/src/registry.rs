//! The status registry: one cleaning state for every known group.
//!
//! The registry keeps its entries in a `DashMap`. Every operation that changes
//! an entry takes the registry by exclusive reference, so each of them, the
//! claim included, is one indivisible transition: nothing can come between
//! its reading and its writing. Callers that share a registry between tasks
//! hold it behind a lock.

use crate::status::{ChatCleaningStatus, StateError, StatusView};
use dashmap::DashMap;
use vstd::prelude::*;
use vstd::seq_lib::seq_to_set_is_finite;

verus! {

/// `dashmap::DashMap`, whose inside the proofs do not look into.
#[verifier::external_type_specification]
#[verifier::external_body]
#[verifier::reject_recursive_types(K)]
#[verifier::reject_recursive_types(V)]
#[verifier::reject_recursive_types(S)]
pub struct ExDashMap<K, V, S>(DashMap<K, V, S>);

/// The entries that a status map holds: for each group id, the view of its
/// status.
pub uninterp spec fn status_entries(map: DashMap<i64, ChatCleaningStatus>) -> Map<
    i64,
    StatusView,
>;

/// The status map of a registry that knows no group.
pub open spec fn no_entries() -> Map<i64, StatusView> {
    Map::empty()
}

/// `DashMap::new`: the new map holds no entry.
#[verifier::external_body]
fn status_map_new() -> (created: DashMap<i64, ChatCleaningStatus>)
    ensures
        status_entries(created) == no_entries(),
{
    DashMap::new()
}

/// `DashMap::get`, with the value copied out of the guard: the status under
/// `key`, or `None` where the map has no such key.
#[verifier::external_body]
fn status_map_get(map: &DashMap<i64, ChatCleaningStatus>, key: i64) -> (found: Option<
    ChatCleaningStatus,
>)
    ensures
        match found {
            Some(status) => status_entries(*map).contains_key(key) && status_entries(*map)[key]
                == status@,
            None => !status_entries(*map).contains_key(key),
        },
{
    map.get(&key).map(|entry| entry.value().clone())
}

/// `DashMap::insert`: afterwards `key` maps to `value` and every other entry
/// is as before; the result is the status that `key` had, if any.
#[verifier::external_body]
fn status_map_insert(
    map: &mut DashMap<i64, ChatCleaningStatus>,
    key: i64,
    value: ChatCleaningStatus,
) -> (previous: Option<ChatCleaningStatus>)
    ensures
        status_entries(*final(map)) == status_entries(*old(map)).insert(key, value@),
        match previous {
            Some(status) => status_entries(*old(map)).contains_key(key) && status_entries(
                *old(map),
            )[key] == status@,
            None => !status_entries(*old(map)).contains_key(key),
        },
{
    map.insert(key, value)
}

/// `DashMap::remove`: afterwards the map has no entry under `key` and every
/// other entry is as before; the result is the status that `key` had, if any.
#[verifier::external_body]
fn status_map_remove(map: &mut DashMap<i64, ChatCleaningStatus>, key: i64) -> (removed: Option<
    ChatCleaningStatus,
>)
    ensures
        status_entries(*final(map)) == status_entries(*old(map)).remove(key),
        match removed {
            Some(status) => status_entries(*old(map)).contains_key(key) && status_entries(
                *old(map),
            )[key] == status@,
            None => !status_entries(*old(map)).contains_key(key),
        },
{
    map.remove(&key).map(|entry| entry.1)
}

/// `DashMap::contains_key`: whether the map has an entry under `key`.
#[verifier::external_body]
fn status_map_contains(map: &DashMap<i64, ChatCleaningStatus>, key: i64) -> (present: bool)
    ensures
        present == status_entries(*map).contains_key(key),
{
    map.contains_key(&key)
}

/// `entries` lists `statuses`: every item is an entry of the map, every entry
/// of the map is an item, and no group id occurs twice. The order is open.
pub open spec fn lists_entries(
    entries: Seq<(i64, ChatCleaningStatus)>,
    statuses: Map<i64, StatusView>,
) -> bool {
    &&& forall|i: int|
        0 <= i < entries.len() ==> {
            &&& statuses.contains_key(#[trigger] entries[i].0)
            &&& statuses[entries[i].0] == entries[i].1@
        }
    &&& forall|group: i64| #[trigger]
        statuses.contains_key(group) ==> exists|i: int|
            0 <= i < entries.len() && #[trigger] entries[i].0 == group
    &&& forall|i: int, j: int|
        0 <= i < j < entries.len() ==> #[trigger] entries[i].0 != #[trigger] entries[j].0
}

/// `DashMap::iter`, each item copied out of its guard: the items are the
/// entries of the map, each once, in the order in which the map is walked.
#[verifier::external_body]
fn status_map_entries(map: &DashMap<i64, ChatCleaningStatus>) -> (entries: Vec<
    (i64, ChatCleaningStatus),
>)
    ensures
        lists_entries(entries@, status_entries(*map)),
{
    map.iter().map(|entry| (*entry.key(), entry.value().clone())).collect()
}

/// Process-wide map from group id to cleaning state.
pub struct StatusRegistry {
    map: DashMap<i64, ChatCleaningStatus>,
}

impl View for StatusRegistry {
    type V = Map<i64, StatusView>;

    closed spec fn view(&self) -> Map<i64, StatusView> {
        status_entries(self.map)
    }
}

impl StatusRegistry {
    /// A registry without entries.
    pub fn new() -> (registry: Self)
        ensures
            registry@ == no_entries(),
    {
        StatusRegistry { map: status_map_new() }
    }

    /// Inserts `Idle` for `group` if the group has no entry, and changes
    /// nothing otherwise.
    pub fn ensure(&mut self, group: i64)
        ensures
            final(self)@ == if old(self)@.contains_key(group) {
                old(self)@
            } else {
                old(self)@.insert(group, StatusView::Idle)
            },
    {
        if !status_map_contains(&self.map, group) {
            let _ = status_map_insert(&mut self.map, group, ChatCleaningStatus::Idle);
        }
    }

    /// Whether `group` has an entry.
    pub fn contains(&self, group: i64) -> (present: bool)
        ensures
            present == self@.contains_key(group),
    {
        status_map_contains(&self.map, group)
    }

    /// The current status of `group`, or `None` if the group is unknown.
    pub fn get(&self, group: i64) -> (found: Option<ChatCleaningStatus>)
        ensures
            match found {
                Some(status) => self@.contains_key(group) && self@[group] == status@,
                None => !self@.contains_key(group),
            },
    {
        status_map_get(&self.map, group)
    }

    /// Overwrites the status of `group`; fails, changing nothing, if the
    /// group has no entry.
    pub fn set(&mut self, group: i64, status: ChatCleaningStatus) -> (outcome: Result<
        (),
        StateError,
    >)
        ensures
            match outcome {
                Ok(_) => old(self)@.contains_key(group) && final(self)@ == old(self)@.insert(
                    group,
                    status@,
                ),
                Err(error) => error == StateError::ChatNotFound && !old(self)@.contains_key(group)
                    && final(self)@ == old(self)@,
            },
    {
        if status_map_contains(&self.map, group) {
            let _ = status_map_insert(&mut self.map, group, status);
            Ok(())
        } else {
            Err(StateError::ChatNotFound)
        }
    }

    /// Deletes the entry of `group` and returns the status it had.
    pub fn remove(&mut self, group: i64) -> (removed: Option<ChatCleaningStatus>)
        ensures
            final(self)@ == old(self)@.remove(group),
            match removed {
                Some(status) => old(self)@.contains_key(group) && old(self)@[group] == status@,
                None => !old(self)@.contains_key(group),
            },
    {
        status_map_remove(&mut self.map, group)
    }

    /// Moves the status of `old_group` to `new_group`: the entry of
    /// `old_group` is removed and the same status is stored under
    /// `new_group`. Fails, changing nothing, if `old_group` has no entry.
    pub fn migrate(&mut self, old_group: i64, new_group: i64) -> (outcome: Result<(), StateError>)
        ensures
            match outcome {
                Ok(_) => old(self)@.contains_key(old_group) && final(self)@ == migrated(
                    old(self)@,
                    old_group,
                    new_group,
                ),
                Err(error) => error == StateError::MigrationSourceMissing && !old(
                    self,
                )@.contains_key(old_group) && final(self)@ == old(self)@,
            },
    {
        match status_map_remove(&mut self.map, old_group) {
            Some(status) => {
                let _ = status_map_insert(&mut self.map, new_group, status);
                Ok(())
            },
            None => {
                assert(self@ =~= old(self)@);
                Err(StateError::MigrationSourceMissing)
            },
        }
    }

    /// Takes `group` for a sweep: an `Idle` or `Error` group becomes `Queued`
    /// and the result is `true`; a `Queued` or `InProgress` group is left as
    /// it is and the result is `false`. Fails if the group has no entry.
    pub fn claim(&mut self, group: i64) -> (outcome: Result<bool, StateError>)
        ensures
            final(self)@ == claim_one(old(self)@, group),
            match outcome {
                Ok(taken) => old(self)@.contains_key(group) && taken == old(
                    self,
                )@[group].claimable(),
                Err(error) => error == StateError::ChatNotFound && !old(self)@.contains_key(group),
            },
    {
        match status_map_get(&self.map, group) {
            Some(status) => {
                if status.is_claimable() {
                    let _ = status_map_insert(&mut self.map, group, ChatCleaningStatus::Queued);
                    Ok(true)
                } else {
                    Ok(false)
                }
            },
            None => Err(StateError::ChatNotFound),
        }
    }

    /// A copy of every entry, for reporting. The order of the groups is not
    /// fixed. The registry has as many entries as the copy has items.
    pub fn snapshot(&self) -> (entries: Vec<(i64, ChatCleaningStatus)>)
        ensures
            lists_entries(entries@, self@),
            self@.dom().finite(),
            self@.dom().len() == entries.len(),
    {
        let entries = status_map_entries(&self.map);
        proof {
            lemma_listed_is_finite(entries@, self@);
        }
        entries
    }
}

/// The group ids of a list of entries, in order.
pub open spec fn entry_ids(entries: Seq<(i64, ChatCleaningStatus)>) -> Seq<i64> {
    entries.map_values(|entry: (i64, ChatCleaningStatus)| entry.0)
}

/// Statuses that a list lists are those of finitely many groups: as many as
/// the list has items.
pub proof fn lemma_listed_is_finite(
    entries: Seq<(i64, ChatCleaningStatus)>,
    statuses: Map<i64, StatusView>,
)
    requires
        lists_entries(entries, statuses),
    ensures
        statuses.dom().finite(),
        statuses.dom().len() == entries.len(),
        statuses.dom() == entry_ids(entries).to_set(),
{
    let ids = entry_ids(entries);
    assert forall|group: i64| statuses.dom().contains(group) <==> ids.to_set().contains(
        group,
    ) by {
        if statuses.contains_key(group) {
            let i = choose|i: int| 0 <= i < entries.len() && #[trigger] entries[i].0 == group;
            assert(ids[i] == group);
        }
        if ids.contains(group) {
            let i = choose|i: int| 0 <= i < ids.len() && ids[i] == group;
            assert(statuses.contains_key(entries[i].0));
        }
    }
    assert(statuses.dom() =~= ids.to_set());
    seq_to_set_is_finite(ids);
    assert(ids.no_duplicates()) by {
        assert forall|i: int, j: int| 0 <= i < ids.len() && 0 <= j < ids.len() && i != j implies ids[i]
            != ids[j] by {
            if i < j {
                assert(entries[i].0 != entries[j].0);
            } else {
                assert(entries[j].0 != entries[i].0);
            }
        }
    }
    ids.unique_seq_to_set();
}

/// The statuses after the entry of `old_group` has moved to `new_group`.
pub open spec fn migrated(statuses: Map<i64, StatusView>, old_group: i64, new_group: i64) -> Map<
    i64,
    StatusView,
> {
    statuses.remove(old_group).insert(new_group, statuses[old_group])
}

/// The statuses after a claim on `group`: a known group that is `Idle` or in
/// `Error` becomes `Queued`, and nothing else changes.
pub open spec fn claim_one(statuses: Map<i64, StatusView>, group: i64) -> Map<i64, StatusView> {
    if statuses.contains_key(group) && statuses[group].claimable() {
        statuses.insert(group, StatusView::Queued)
    } else {
        statuses
    }
}

} // verus!
