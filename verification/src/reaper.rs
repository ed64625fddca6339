//! The stale-group reaper: which groups the bot no longer belongs to.

use crate::directory::{groups_after_all, members_after_all, DirectoryWrite, WriteView};
use crate::seq_facts::{lemma_last_contains, lemma_prefix_contains};
use crate::state::{lemma_lockstep_all, registry_after_all, AppState};
use crate::status::StatusView;
use vstd::prelude::*;
use vstd::seq_lib::lemma_seq_contains_after_push;

verus! {

/// The seconds between two passes of the reaper over the known groups.
pub const REAPER_PERIOD_SECS: u64 = 300;

/// What the query for the bot's own membership in a group came to.
#[derive(Debug)]
pub enum Probe {
    /// The platform returned the membership record.
    Present,
    /// The platform does not know the group.
    ChatNotFound,
    /// The bot was removed from the group.
    BotKicked,
    /// The bot was removed from a large or public group.
    BotKickedFromSupergroup,
    /// The platform named another error; this is its text.
    OtherApi(String),
    /// The query failed before the platform answered it.
    Failed,
}

/// Mathematical value of a [`Probe`].
pub enum ProbeView {
    Present,
    ChatNotFound,
    BotKicked,
    BotKickedFromSupergroup,
    OtherApi(Seq<char>),
    Failed,
}

impl View for Probe {
    type V = ProbeView;

    open spec fn view(&self) -> ProbeView {
        match self {
            Probe::Present => ProbeView::Present,
            Probe::ChatNotFound => ProbeView::ChatNotFound,
            Probe::BotKicked => ProbeView::BotKicked,
            Probe::BotKickedFromSupergroup => ProbeView::BotKickedFromSupergroup,
            Probe::OtherApi(text) => ProbeView::OtherApi(text@),
            Probe::Failed => ProbeView::Failed,
        }
    }
}

/// The text of the one error without a category of its own that says the bot
/// was removed from a group.
pub open spec fn removed_from_group_text() -> Seq<char> {
    "Unknown error: \"Forbidden: bot was kicked from the group chat\""@
}

impl ProbeView {
    /// The probe says that the bot is no longer in the group: the group is
    /// not found, the bot was removed, or the error text says so. Any other
    /// failure says nothing.
    pub open spec fn gone(self) -> bool {
        match self {
            ProbeView::ChatNotFound => true,
            ProbeView::BotKicked => true,
            ProbeView::BotKickedFromSupergroup => true,
            ProbeView::OtherApi(text) => text == removed_from_group_text(),
            _ => false,
        }
    }
}

impl Probe {
    /// Whether the probe says that the bot is no longer in the group.
    pub fn bot_is_gone(&self) -> (r: bool)
        ensures
            r == self@.gone(),
    {
        match self {
            Probe::ChatNotFound => true,
            Probe::BotKicked => true,
            Probe::BotKickedFromSupergroup => true,
            Probe::OtherApi(text) => {
                let signal = "Unknown error: \"Forbidden: bot was kicked from the group chat\"".to_owned();
                *text == signal
            },
            _ => false,
        }
    }
}

/// The groups among `probes` that the bot is no longer in, in the order of
/// the probes.
pub open spec fn gone_groups(probes: Seq<(i64, Probe)>) -> Seq<i64>
    decreases probes.len(),
{
    if probes.len() == 0 {
        Seq::empty()
    } else {
        let earlier = gone_groups(probes.drop_last());
        if probes.last().1@.gone() {
            earlier.push(probes.last().0)
        } else {
            earlier
        }
    }
}

/// The statuses without the entries of `groups`.
pub open spec fn without(statuses: Map<i64, StatusView>, groups: Seq<i64>) -> Map<i64, StatusView> {
    Map::new(
        |group: i64| statuses.contains_key(group) && !groups.contains(group),
        |group: i64| statuses[group],
    )
}

/// The deletions of `groups` from the directory, in order.
pub open spec fn deletions(groups: Seq<i64>) -> Seq<WriteView> {
    groups.map_values(|group: i64| WriteView::DeleteGroup { id: group })
}

/// The values of a list of writes, in order.
pub open spec fn write_views(writes: Seq<DirectoryWrite>) -> Seq<WriteView> {
    writes.map_values(|write: DirectoryWrite| write@)
}

impl AppState {
    /// One pass of the reaper over the probes of known groups, each with the
    /// id of its group. For every probe that says that the bot is gone, the
    /// result holds the write that deletes the group, with its member
    /// records, from the directory; the registry follows each by
    /// [`AppState::apply`] once the directory has taken it. Every other group
    /// is kept, whatever its probe failed with.
    pub fn cleanup_deprecated_chats_loop(&self, probes: &Vec<(i64, Probe)>) -> (writes: Vec<
        DirectoryWrite,
    >)
        ensures
            write_views(writes@) == deletions(gone_groups(probes@)),
    {
        let mut writes: Vec<DirectoryWrite> = Vec::new();
        let mut i: usize = 0;
        proof {
            assert(write_views(writes@) =~= deletions(gone_groups(probes@.take(0))));
        }
        while i < probes.len()
            invariant
                i <= probes.len(),
                write_views(writes@) == deletions(gone_groups(probes@.take(i as int))),
            decreases probes.len() - i,
        {
            let ghost found = gone_groups(probes@.take(i as int));
            let ghost handed = writes@;
            proof {
                lemma_prefix_contains(probes@, i as int);
            }
            if probes[i].1.bot_is_gone() {
                let write = self.delete_chat(probes[i].0);
                writes.push(write);
                proof {
                    assert(write_views(writes@) =~= write_views(handed).push(write@));
                    assert(write_views(writes@) =~= deletions(found.push(probes[i as int].0)));
                }
            }
            i = i + 1;
        }
        proof {
            assert(probes@.take(probes.len() as int) =~= probes@);
        }
        writes
    }
}

/// Once the registry has followed the deletions of the groups `gone`, it
/// holds the entries of all other groups, unchanged, and no entry of a group
/// of `gone`.
pub proof fn lemma_registry_after_deletions(statuses: Map<i64, StatusView>, gone: Seq<i64>)
    ensures
        registry_after_all(statuses, deletions(gone)) == without(statuses, gone),
    decreases gone.len(),
{
    if gone.len() == 0 {
        assert(without(statuses, gone) =~= statuses);
    } else {
        let earlier = gone.drop_last();
        lemma_registry_after_deletions(statuses, earlier);
        assert(deletions(gone).drop_last() =~= deletions(earlier));
        assert forall|group: i64|
            gone.contains(group) <==> earlier.contains(group) || group == gone.last() by {
            lemma_last_contains(gone, group);
        }
        assert(without(statuses, gone) =~= without(statuses, earlier).remove(gone.last()));
    }
}

/// Once the directory has taken the deletions of the groups `gone`, it holds
/// no member record of any of them, and every member record of another group
/// that it held before.
pub proof fn lemma_no_member_of_a_gone_group_is_left(
    members: Set<(i64, i64)>,
    gone: Seq<i64>,
    record: (i64, i64),
)
    ensures
        members_after_all(members, deletions(gone)).contains(record) <==> members.contains(record)
            && !gone.contains(record.0),
    decreases gone.len(),
{
    if gone.len() > 0 {
        let earlier = gone.drop_last();
        lemma_no_member_of_a_gone_group_is_left(members, earlier, record);
        assert(deletions(gone).drop_last() =~= deletions(earlier));
        lemma_last_contains(gone, record.0);
    }
}

/// A group is among the gone exactly if one of its probes says that the bot
/// is gone.
pub proof fn lemma_gone_iff_probed_gone(probes: Seq<(i64, Probe)>, group: i64)
    ensures
        gone_groups(probes).contains(group) <==> exists|i: int|
            0 <= i < probes.len() && (#[trigger] probes[i]).0 == group && probes[i].1@.gone(),
    decreases probes.len(),
{
    if probes.len() > 0 {
        let earlier = probes.drop_last();
        lemma_gone_iff_probed_gone(earlier, group);
        lemma_seq_contains_after_push(gone_groups(earlier), probes.last().0, group);
        if gone_groups(probes).contains(group) {
            if gone_groups(earlier).contains(group) {
                let i = choose|i: int|
                    0 <= i < earlier.len() && (#[trigger] earlier[i]).0 == group
                        && earlier[i].1@.gone();
                assert(probes[i] == earlier[i]);
            } else {
                assert(probes[probes.len() - 1].0 == group);
            }
        }
        if exists|i: int|
            0 <= i < probes.len() && (#[trigger] probes[i]).0 == group && probes[i].1@.gone() {
            let i = choose|i: int|
                0 <= i < probes.len() && (#[trigger] probes[i]).0 == group && probes[i].1@.gone();
            if i < probes.len() - 1 {
                assert(earlier[i] == probes[i]);
            }
        }
    }
}

/// The reaper deletes on a positive signal only: a known group none of whose
/// probes says that the bot is gone keeps its entry and its status once the
/// registry has followed the writes of the pass, whatever the probes failed
/// with.
pub proof fn lemma_reaper_keeps_without_signal(
    statuses: Map<i64, StatusView>,
    probes: Seq<(i64, Probe)>,
    group: i64,
)
    requires
        statuses.contains_key(group),
        forall|i: int|
            0 <= i < probes.len() && (#[trigger] probes[i]).0 == group ==> !probes[i].1@.gone(),
    ensures
        registry_after_all(statuses, deletions(gone_groups(probes))).contains_key(group),
        registry_after_all(statuses, deletions(gone_groups(probes)))[group] == statuses[group],
{
    lemma_gone_iff_probed_gone(probes, group);
    lemma_registry_after_deletions(statuses, gone_groups(probes));
}

/// A group with a probe that says that the bot is gone has no entry once the
/// registry has followed the writes of the pass.
pub proof fn lemma_reaper_deletes_on_signal(
    statuses: Map<i64, StatusView>,
    probes: Seq<(i64, Probe)>,
    i: int,
)
    requires
        0 <= i < probes.len(),
        probes[i].1@.gone(),
    ensures
        !registry_after_all(statuses, deletions(gone_groups(probes))).contains_key(probes[i].0),
{
    lemma_gone_iff_probed_gone(probes, probes[i].0);
    lemma_registry_after_deletions(statuses, gone_groups(probes));
}

/// The pass of the reaper keeps registry and directory in step: if the
/// registry has an entry for exactly the groups of the directory, this is so
/// again once both have taken the deletions.
pub proof fn lemma_reaper_keeps_lockstep(
    statuses: Map<i64, StatusView>,
    groups: Set<i64>,
    gone: Seq<i64>,
)
    requires
        statuses.dom() == groups,
    ensures
        registry_after_all(statuses, deletions(gone)).dom() == groups_after_all(
            groups,
            deletions(gone),
        ),
{
    lemma_lockstep_all(statuses, groups, deletions(gone));
}

} // verus!
