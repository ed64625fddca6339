//! The membership sweep of one group, as a machine that a caller drives.
//!
//! A sweep reads the group, reconciles the member records with the live
//! membership, and removes every member that is left. Each of these needs the
//! platform or the store, so the machine hands out one request at a time and
//! takes the answer as an event.

use crate::directory::{member_ids, User};
use crate::platform::{GroupKind, MemberRole, RemovalMode};
use crate::state::{after_claims, all_known, claimed_of, cleared, taken, AppState};
use crate::status::{ChatCleaningStatus, StateError, StatusView};
use vstd::prelude::*;

verus! {

/// What a sweep waits for.
#[derive(Debug, Clone, Copy, PartialEq, Eq, Structural)]
pub enum SweepPhase {
    /// The group itself.
    AwaitGroup,
    /// The member records to reconcile.
    AwaitRoster,
    /// The live membership record of the current member.
    AwaitMembership,
    /// The deletion of the current member's record, in the reconciliation.
    AwaitDrop,
    /// The member records that the reconciliation left.
    AwaitRemaining,
    /// The removal of the current member from the group.
    AwaitRemoval,
    /// The deletion of the record of the member just removed.
    AwaitErase,
}

/// What the caller is to do next for a sweep.
#[derive(Debug, Clone, Copy, PartialEq, Eq, Structural)]
pub enum SweepRequest {
    /// Fetch the group from the platform.
    FetchGroup,
    /// List the member records of the group.
    ListMembers,
    /// Fetch the live membership record of `member`.
    FetchMembership { member: i64 },
    /// Delete the record of `member`; the platform is not asked to remove
    /// anybody.
    DeleteRecord { member: i64 },
    /// Remove `member` from the group in the given way.
    RemoveMember { member: i64, mode: RemovalMode },
}

/// What came back for the request of a sweep.
#[derive(Debug)]
pub enum SweepEvent {
    /// The group was fetched and is of this kind.
    Group(GroupKind),
    /// The group could not be fetched.
    GroupUnavailable(String),
    /// The member records of the group.
    Members(Vec<User>),
    /// The store could not list the member records.
    MembersUnavailable(String),
    /// The live membership record shows this role.
    Membership(MemberRole),
    /// The live membership record could not be fetched.
    MembershipUnavailable,
    /// The record was deleted.
    RecordDeleted,
    /// The store could not delete the record.
    RecordNotDeleted(String),
    /// The platform removed the member.
    Removed,
    /// The platform did not remove the member.
    RemovalFailed,
}

/// Mathematical value of a [`SweepEvent`].
pub enum EventView {
    Group(GroupKind),
    GroupUnavailable(Seq<char>),
    Members(Seq<i64>),
    MembersUnavailable(Seq<char>),
    Membership(MemberRole),
    MembershipUnavailable,
    RecordDeleted,
    RecordNotDeleted(Seq<char>),
    Removed,
    RemovalFailed,
}

impl EventView {
    /// The reason with which the event ends a sweep that waits for it: the
    /// group or the store has failed. The events that tell of a single
    /// member end no sweep.
    pub open spec fn gives_up(self) -> Option<Seq<char>> {
        match self {
            EventView::GroupUnavailable(reason) => Some(reason),
            EventView::MembersUnavailable(reason) => Some(reason),
            EventView::RecordNotDeleted(reason) => Some(reason),
            _ => None,
        }
    }
}

impl View for SweepEvent {
    type V = EventView;

    open spec fn view(&self) -> EventView {
        match self {
            SweepEvent::Group(kind) => EventView::Group(*kind),
            SweepEvent::GroupUnavailable(reason) => EventView::GroupUnavailable(reason@),
            SweepEvent::Members(users) => EventView::Members(member_ids(users@)),
            SweepEvent::MembersUnavailable(reason) => EventView::MembersUnavailable(reason@),
            SweepEvent::Membership(role) => EventView::Membership(*role),
            SweepEvent::MembershipUnavailable => EventView::MembershipUnavailable,
            SweepEvent::RecordDeleted => EventView::RecordDeleted,
            SweepEvent::RecordNotDeleted(reason) => EventView::RecordNotDeleted(reason@),
            SweepEvent::Removed => EventView::Removed,
            SweepEvent::RemovalFailed => EventView::RemovalFailed,
        }
    }
}

/// How a sweep ended.
#[derive(Debug)]
pub enum SweepOutcome {
    /// Every pass ran to its end, whatever became of the single members.
    Completed,
    /// The sweep was given up, for the reason named.
    Failed(String),
}

/// Mathematical value of a [`SweepOutcome`].
pub enum OutcomeView {
    Completed,
    Failed(Seq<char>),
}

impl View for SweepOutcome {
    type V = OutcomeView;

    open spec fn view(&self) -> OutcomeView {
        match self {
            SweepOutcome::Completed => OutcomeView::Completed,
            SweepOutcome::Failed(reason) => OutcomeView::Failed(reason@),
        }
    }
}

/// A sweep in progress.
pub struct Sweep {
    chat_id: i64,
    whole: bool,
    phase: SweepPhase,
    kind: GroupKind,
    members: Vec<User>,
    next: usize,
}

/// Mathematical value of a [`Sweep`].
pub struct SweepView {
    /// The group that is swept.
    pub chat_id: i64,
    /// Whether the sweep removes members, or only reconciles the records.
    pub whole: bool,
    pub phase: SweepPhase,
    /// The kind of the group, once it has been fetched.
    pub kind: GroupKind,
    /// The members of the pass that is running.
    pub members: Seq<i64>,
    /// The position of the current member among them.
    pub next: int,
}

impl View for Sweep {
    type V = SweepView;

    closed spec fn view(&self) -> SweepView {
        SweepView {
            chat_id: self.chat_id,
            whole: self.whole,
            phase: self.phase,
            kind: self.kind,
            members: member_ids(self.members@),
            next: self.next as int,
        }
    }
}

/// The next step of a sweep: go on with a request, or stop.
pub enum SweepStep {
    Next(Sweep, SweepRequest),
    Done(SweepOutcome),
}

/// Mathematical value of a [`SweepStep`].
pub enum StepView {
    Next(SweepView, SweepRequest),
    Done(OutcomeView),
}

impl View for SweepStep {
    type V = StepView;

    open spec fn view(&self) -> StepView {
        match self {
            SweepStep::Next(sweep, request) => StepView::Next(sweep@, *request),
            SweepStep::Done(outcome) => StepView::Done(outcome@),
        }
    }
}

impl SweepView {
    /// The current member.
    pub open spec fn current(self) -> i64 {
        self.members[self.next]
    }

    /// The phases that work on a current member have one, and a sweep that
    /// only reconciles is in a phase of the reconciliation.
    pub open spec fn well_formed(self) -> bool {
        &&& 0 <= self.next <= self.members.len()
        &&& (self.phase is AwaitMembership || self.phase is AwaitDrop || self.phase is AwaitRemoval
            || self.phase is AwaitErase) ==> self.next < self.members.len()
        &&& !self.whole ==> (self.phase is AwaitRoster || self.phase is AwaitMembership
            || self.phase is AwaitDrop)
    }

    /// The request that the sweep waits on.
    pub open spec fn outstanding(self) -> SweepRequest {
        match self.phase {
            SweepPhase::AwaitGroup => SweepRequest::FetchGroup,
            SweepPhase::AwaitRoster => SweepRequest::ListMembers,
            SweepPhase::AwaitMembership => SweepRequest::FetchMembership { member: self.current() },
            SweepPhase::AwaitDrop => SweepRequest::DeleteRecord { member: self.current() },
            SweepPhase::AwaitRemaining => SweepRequest::ListMembers,
            SweepPhase::AwaitRemoval => SweepRequest::RemoveMember {
                member: self.current(),
                mode: self.kind.removal(),
            },
            SweepPhase::AwaitErase => SweepRequest::DeleteRecord { member: self.current() },
        }
    }

    /// Whether `event` answers the request that the sweep waits on.
    pub open spec fn answered_by(self, event: EventView) -> bool {
        match self.phase {
            SweepPhase::AwaitGroup => event is Group || event is GroupUnavailable,
            SweepPhase::AwaitRoster => event is Members || event is MembersUnavailable,
            SweepPhase::AwaitMembership => event is Membership || event is MembershipUnavailable,
            SweepPhase::AwaitDrop => event is RecordDeleted || event is RecordNotDeleted,
            SweepPhase::AwaitRemaining => event is Members || event is MembersUnavailable,
            SweepPhase::AwaitRemoval => event is Removed || event is RemovalFailed,
            SweepPhase::AwaitErase => event is RecordDeleted || event is RecordNotDeleted,
        }
    }

    /// The reconciliation goes on at position `next`: with the member there,
    /// or, behind the last member, with the removal pass of a whole sweep.
    /// A sweep that only reconciles is complete then.
    pub open spec fn reconcile_from(self, next: int) -> StepView {
        if next < self.members.len() {
            let sweep = SweepView { phase: SweepPhase::AwaitMembership, next, ..self };
            StepView::Next(sweep, sweep.outstanding())
        } else if self.whole {
            let sweep = SweepView {
                phase: SweepPhase::AwaitRemaining,
                members: Seq::empty(),
                next: 0,
                ..self
            };
            StepView::Next(sweep, sweep.outstanding())
        } else {
            StepView::Done(OutcomeView::Completed)
        }
    }

    /// The removal pass goes on at position `next`: with the member there,
    /// or, behind the last member, with the end of the sweep.
    pub open spec fn remove_from(self, statuses: Map<i64, StatusView>, next: int) -> (
        StepView,
        Map<i64, StatusView>,
    ) {
        if next < self.members.len() {
            let sweep = SweepView { phase: SweepPhase::AwaitRemoval, next, ..self };
            (StepView::Next(sweep, sweep.outstanding()), statuses)
        } else {
            self.close(statuses)
        }
    }

    /// The end of a whole sweep: the group is `Idle` again, whatever became
    /// of the single members. If the group has lost its entry meanwhile, the
    /// sweep fails.
    pub open spec fn close(self, statuses: Map<i64, StatusView>) -> (
        StepView,
        Map<i64, StatusView>,
    ) {
        if statuses.contains_key(self.chat_id) {
            (
                StepView::Done(OutcomeView::Completed),
                statuses.insert(self.chat_id, StatusView::Idle),
            )
        } else {
            (StepView::Done(OutcomeView::Failed(StateError::ChatNotFound.text())), statuses)
        }
    }

    /// The step that the sweep takes on `event`, and the statuses after it.
    ///
    /// The platform ends a sweep early only by failing to fetch the group; the
    /// store does by failing to list the member records or to delete one. The
    /// sweep then fails with the reason given and changes no status. A member
    /// whose live record cannot be fetched is passed over, and so is a member
    /// that the platform does not remove: its record stays. A member whose
    /// live role is not an ordinary one loses its record and is not removed
    /// from the group. An event that does not answer the outstanding request
    /// changes nothing, and the request is handed out again.
    pub open spec fn step(self, statuses: Map<i64, StatusView>, event: EventView) -> (
        StepView,
        Map<i64, StatusView>,
    ) {
        match self.phase {
            SweepPhase::AwaitGroup => match event {
                EventView::Group(kind) => {
                    let sweep = SweepView { phase: SweepPhase::AwaitRoster, kind, ..self };
                    (StepView::Next(sweep, sweep.outstanding()), statuses)
                },
                EventView::GroupUnavailable(reason) => (
                    StepView::Done(OutcomeView::Failed(reason)),
                    statuses,
                ),
                _ => (StepView::Next(self, self.outstanding()), statuses),
            },
            SweepPhase::AwaitRoster => match event {
                EventView::Members(members) => (
                    SweepView { members, next: 0, ..self }.reconcile_from(0),
                    statuses,
                ),
                EventView::MembersUnavailable(reason) => (
                    StepView::Done(OutcomeView::Failed(reason)),
                    statuses,
                ),
                _ => (StepView::Next(self, self.outstanding()), statuses),
            },
            SweepPhase::AwaitMembership => match event {
                EventView::Membership(role) => if role.ordinary() {
                    (self.reconcile_from(self.next + 1), statuses)
                } else {
                    let sweep = SweepView { phase: SweepPhase::AwaitDrop, ..self };
                    (StepView::Next(sweep, sweep.outstanding()), statuses)
                },
                EventView::MembershipUnavailable => (self.reconcile_from(self.next + 1), statuses),
                _ => (StepView::Next(self, self.outstanding()), statuses),
            },
            SweepPhase::AwaitDrop => match event {
                EventView::RecordDeleted => (self.reconcile_from(self.next + 1), statuses),
                EventView::RecordNotDeleted(reason) => (
                    StepView::Done(OutcomeView::Failed(reason)),
                    statuses,
                ),
                _ => (StepView::Next(self, self.outstanding()), statuses),
            },
            SweepPhase::AwaitRemaining => match event {
                EventView::Members(members) => SweepView { members, next: 0, ..self }.remove_from(
                    statuses,
                    0,
                ),
                EventView::MembersUnavailable(reason) => (
                    StepView::Done(OutcomeView::Failed(reason)),
                    statuses,
                ),
                _ => (StepView::Next(self, self.outstanding()), statuses),
            },
            SweepPhase::AwaitRemoval => match event {
                EventView::Removed => {
                    let sweep = SweepView { phase: SweepPhase::AwaitErase, ..self };
                    (StepView::Next(sweep, sweep.outstanding()), statuses)
                },
                EventView::RemovalFailed => self.remove_from(statuses, self.next + 1),
                _ => (StepView::Next(self, self.outstanding()), statuses),
            },
            SweepPhase::AwaitErase => match event {
                EventView::RecordDeleted => self.remove_from(statuses, self.next + 1),
                EventView::RecordNotDeleted(reason) => (
                    StepView::Done(OutcomeView::Failed(reason)),
                    statuses,
                ),
                _ => (StepView::Next(self, self.outstanding()), statuses),
            },
        }
    }
}

/// The sweep that `delete_all_members` starts on `chat_id`.
pub open spec fn whole_sweep(chat_id: i64) -> SweepView {
    SweepView {
        chat_id,
        whole: true,
        phase: SweepPhase::AwaitGroup,
        kind: GroupKind::Group,
        members: Seq::empty(),
        next: 0,
    }
}

/// The sweep that `cleanup_chat` starts on `chat_id`.
pub open spec fn reconciliation(chat_id: i64) -> SweepView {
    SweepView {
        chat_id,
        whole: false,
        phase: SweepPhase::AwaitRoster,
        kind: GroupKind::Group,
        members: Seq::empty(),
        next: 0,
    }
}

impl Sweep {
    #[verifier::type_invariant]
    spec fn inv(self) -> bool {
        self@.well_formed()
    }

    /// The group that is swept.
    pub fn chat_id(&self) -> (id: i64)
        ensures
            id == self@.chat_id,
    {
        self.chat_id
    }

    /// What the sweep waits for.
    pub fn phase(&self) -> (phase: SweepPhase)
        ensures
            phase == self@.phase,
    {
        self.phase
    }

    /// The request that the sweep waits on.
    pub fn outstanding(&self) -> (request: SweepRequest)
        ensures
            self@.well_formed(),
            request == self@.outstanding(),
    {
        proof {
            use_type_invariant(self);
        }
        match self.phase {
            SweepPhase::AwaitGroup => SweepRequest::FetchGroup,
            SweepPhase::AwaitRoster => SweepRequest::ListMembers,
            SweepPhase::AwaitMembership => SweepRequest::FetchMembership {
                member: self.members[self.next].id,
            },
            SweepPhase::AwaitDrop => SweepRequest::DeleteRecord {
                member: self.members[self.next].id,
            },
            SweepPhase::AwaitRemaining => SweepRequest::ListMembers,
            SweepPhase::AwaitRemoval => SweepRequest::RemoveMember {
                member: self.members[self.next].id,
                mode: self.kind.removal_mode(),
            },
            SweepPhase::AwaitErase => SweepRequest::DeleteRecord {
                member: self.members[self.next].id,
            },
        }
    }

    /// The sweep goes on as it is, with the request that it waits on.
    fn ask(self) -> (step: SweepStep)
        ensures
            step@ == StepView::Next(self@, self@.outstanding()),
    {
        let request = self.outstanding();
        SweepStep::Next(self, request)
    }

    /// Goes on with the reconciliation at position `next`.
    fn reconcile_from(self, next: usize) -> (step: SweepStep)
        requires
            next <= self@.members.len(),
        ensures
            step@ == self@.reconcile_from(next as int),
    {
        proof {
            use_type_invariant(&self);
        }
        if next < self.members.len() {
            let sweep = Sweep {
                chat_id: self.chat_id,
                whole: self.whole,
                phase: SweepPhase::AwaitMembership,
                kind: self.kind,
                members: self.members,
                next,
            };
            sweep.ask()
        } else if self.whole {
            let sweep = Sweep {
                chat_id: self.chat_id,
                whole: self.whole,
                phase: SweepPhase::AwaitRemaining,
                kind: self.kind,
                members: Vec::new(),
                next: 0,
            };
            proof {
                assert(sweep@.members =~= Seq::<i64>::empty());
            }
            sweep.ask()
        } else {
            SweepStep::Done(SweepOutcome::Completed)
        }
    }

    /// Goes on with the removal pass at position `next`.
    fn remove_from(self, state: &mut AppState, next: usize) -> (step: SweepStep)
        requires
            self@.whole,
            next <= self@.members.len(),
        ensures
            step@ == self@.remove_from(old(state)@, next as int).0,
            final(state)@ == self@.remove_from(old(state)@, next as int).1,
    {
        proof {
            use_type_invariant(&self);
        }
        if next < self.members.len() {
            let sweep = Sweep {
                chat_id: self.chat_id,
                whole: self.whole,
                phase: SweepPhase::AwaitRemoval,
                kind: self.kind,
                members: self.members,
                next,
            };
            sweep.ask()
        } else {
            match state.set_chat_status(self.chat_id, ChatCleaningStatus::Idle) {
                Ok(_) => SweepStep::Done(SweepOutcome::Completed),
                Err(error) => SweepStep::Done(SweepOutcome::Failed(error.message())),
            }
        }
    }

    /// Takes the answer to the outstanding request and says how the sweep
    /// goes on. The registry changes only where a whole sweep ends: its
    /// group is `Idle` again.
    pub fn step(self, state: &mut AppState, event: SweepEvent) -> (step: SweepStep)
        ensures
            self@.well_formed(),
            step@ == self@.step(old(state)@, event@).0,
            final(state)@ == self@.step(old(state)@, event@).1,
    {
        proof {
            use_type_invariant(&self);
        }
        let count = self.members.len();
        assert(self@.members.len() == count);
        match self.phase {
            SweepPhase::AwaitGroup => match event {
                SweepEvent::Group(kind) => {
                    let sweep = Sweep {
                        chat_id: self.chat_id,
                        whole: self.whole,
                        phase: SweepPhase::AwaitRoster,
                        kind,
                        members: self.members,
                        next: self.next,
                    };
                    sweep.ask()
                },
                SweepEvent::GroupUnavailable(reason) => SweepStep::Done(
                    SweepOutcome::Failed(reason),
                ),
                _ => self.ask(),
            },
            SweepPhase::AwaitRoster => match event {
                SweepEvent::Members(users) => {
                    let sweep = Sweep {
                        chat_id: self.chat_id,
                        whole: self.whole,
                        phase: self.phase,
                        kind: self.kind,
                        members: users,
                        next: 0,
                    };
                    sweep.reconcile_from(0)
                },
                SweepEvent::MembersUnavailable(reason) => SweepStep::Done(
                    SweepOutcome::Failed(reason),
                ),
                _ => self.ask(),
            },
            SweepPhase::AwaitMembership => match event {
                SweepEvent::Membership(role) => {
                    if role.is_ordinary() {
                        let next = self.next + 1;
                        self.reconcile_from(next)
                    } else {
                        let sweep = Sweep {
                            chat_id: self.chat_id,
                            whole: self.whole,
                            phase: SweepPhase::AwaitDrop,
                            kind: self.kind,
                            members: self.members,
                            next: self.next,
                        };
                        sweep.ask()
                    }
                },
                SweepEvent::MembershipUnavailable => {
                    let next = self.next + 1;
                    self.reconcile_from(next)
                },
                _ => self.ask(),
            },
            SweepPhase::AwaitDrop => match event {
                SweepEvent::RecordDeleted => {
                    let next = self.next + 1;
                    self.reconcile_from(next)
                },
                SweepEvent::RecordNotDeleted(reason) => SweepStep::Done(
                    SweepOutcome::Failed(reason),
                ),
                _ => self.ask(),
            },
            SweepPhase::AwaitRemaining => match event {
                SweepEvent::Members(users) => {
                    let sweep = Sweep {
                        chat_id: self.chat_id,
                        whole: self.whole,
                        phase: self.phase,
                        kind: self.kind,
                        members: users,
                        next: 0,
                    };
                    sweep.remove_from(state, 0)
                },
                SweepEvent::MembersUnavailable(reason) => SweepStep::Done(
                    SweepOutcome::Failed(reason),
                ),
                _ => self.ask(),
            },
            SweepPhase::AwaitRemoval => match event {
                SweepEvent::Removed => {
                    let sweep = Sweep {
                        chat_id: self.chat_id,
                        whole: self.whole,
                        phase: SweepPhase::AwaitErase,
                        kind: self.kind,
                        members: self.members,
                        next: self.next,
                    };
                    sweep.ask()
                },
                SweepEvent::RemovalFailed => {
                    let next = self.next + 1;
                    self.remove_from(state, next)
                },
                _ => self.ask(),
            },
            SweepPhase::AwaitErase => match event {
                SweepEvent::RecordDeleted => {
                    let next = self.next + 1;
                    self.remove_from(state, next)
                },
                SweepEvent::RecordNotDeleted(reason) => SweepStep::Done(
                    SweepOutcome::Failed(reason),
                ),
                _ => self.ask(),
            },
        }
    }
}

impl AppState {
    /// Starts the sweep of `chat_id`: the group becomes `InProgress`,
    /// whatever it was, and the sweep asks for the group. Fails, changing
    /// nothing, if the group has no entry.
    pub fn delete_all_members(&mut self, chat_id: i64) -> (outcome: Result<
        (Sweep, SweepRequest),
        StateError,
    >)
        ensures
            match outcome {
                Ok(started) => old(self)@.contains_key(chat_id) && final(self)@ == old(
                    self,
                )@.insert(chat_id, StatusView::InProgress) && started.0@ == whole_sweep(chat_id)
                    && started.1 == SweepRequest::FetchGroup,
                Err(error) => error == StateError::ChatNotFound && !old(self)@.contains_key(
                    chat_id,
                ) && final(self)@ == old(self)@,
            },
    {
        match self.set_chat_status(chat_id, ChatCleaningStatus::InProgress) {
            Ok(_) => {
                let sweep = Sweep {
                    chat_id,
                    whole: true,
                    phase: SweepPhase::AwaitGroup,
                    kind: GroupKind::Group,
                    members: Vec::new(),
                    next: 0,
                };
                proof {
                    assert(sweep@.members =~= Seq::<i64>::empty());
                }
                Ok((sweep, SweepRequest::FetchGroup))
            },
            Err(error) => Err(error),
        }
    }

    /// Starts the reconciliation of the member records of `chat_id` with the
    /// live membership. No status changes and nobody is removed from the
    /// group.
    pub fn cleanup_chat(&self, chat_id: i64) -> (started: (Sweep, SweepRequest))
        ensures
            started.0@ == reconciliation(chat_id),
            started.1 == SweepRequest::ListMembers,
    {
        let sweep = Sweep {
            chat_id,
            whole: false,
            phase: SweepPhase::AwaitRoster,
            kind: GroupKind::Group,
            members: Vec::new(),
            next: 0,
        };
        proof {
            assert(sweep@.members =~= Seq::<i64>::empty());
        }
        (sweep, SweepRequest::ListMembers)
    }

    /// Records how the sweep of a claimed group ended: a sweep that failed
    /// leaves the group in `Error` with the reason, a sweep that completed
    /// has left it `Idle` and nothing is changed. Fails if a reason is to be
    /// recorded for a group without an entry.
    pub fn settle(&mut self, chat_id: i64, outcome: SweepOutcome) -> (recorded: Result<
        (),
        StateError,
    >)
        ensures
            final(self)@ == settled(old(self)@, chat_id, outcome@),
            match recorded {
                Ok(_) => outcome@ is Completed || old(self)@.contains_key(chat_id),
                Err(error) => error == StateError::ChatNotFound && outcome@ is Failed && !old(
                    self,
                )@.contains_key(chat_id),
            },
    {
        match outcome {
            SweepOutcome::Completed => Ok(()),
            SweepOutcome::Failed(reason) => self.set_chat_status(
                chat_id,
                ChatCleaningStatus::Error(reason),
            ),
        }
    }
}

/// The statuses after the outcome of the sweep of `chat_id` has been
/// recorded: a failure puts a known group in `Error` with its reason.
pub open spec fn settled(statuses: Map<i64, StatusView>, chat_id: i64, outcome: OutcomeView) -> Map<
    i64,
    StatusView,
> {
    match outcome {
        OutcomeView::Completed => statuses,
        OutcomeView::Failed(reason) => if statuses.contains_key(chat_id) {
            statuses.insert(chat_id, StatusView::Error(reason))
        } else {
            statuses
        },
    }
}

/// What a sweep has come to after the events `events`, taken in order from
/// the sweep `sweep` and the statuses `statuses`: the step that the last
/// event led to, and the statuses then. Events behind the end of the sweep
/// are not looked at.
pub open spec fn run(sweep: SweepView, statuses: Map<i64, StatusView>, events: Seq<EventView>) -> (
    StepView,
    Map<i64, StatusView>,
)
    decreases events.len(),
{
    if events.len() == 0 {
        (StepView::Next(sweep, sweep.outstanding()), statuses)
    } else {
        let (step, after) = sweep.step(statuses, events[0]);
        match step {
            StepView::Next(next, _) => run(next, after, events.skip(1)),
            StepView::Done(_) => (step, after),
        }
    }
}

/// A step keeps the group and the extent of the sweep, leaves a well-formed
/// sweep well-formed, and changes no status unless it completes a whole
/// sweep.
pub proof fn lemma_step_keeps_sweep(
    sweep: SweepView,
    statuses: Map<i64, StatusView>,
    event: EventView,
)
    requires
        sweep.well_formed(),
    ensures
        match sweep.step(statuses, event).0 {
            StepView::Next(next, request) => next.well_formed() && next.chat_id == sweep.chat_id
                && next.whole == sweep.whole && request == next.outstanding() && sweep.step(
                statuses,
                event,
            ).1 == statuses,
            StepView::Done(OutcomeView::Completed) => sweep.whole ==> sweep.step(
                statuses,
                event,
            ).1 == statuses.insert(sweep.chat_id, StatusView::Idle),
            StepView::Done(OutcomeView::Failed(_)) => sweep.step(statuses, event).1 == statuses,
        },
        !sweep.whole ==> sweep.step(statuses, event).1 == statuses,
{
}

/// What makes a sweep fail: the event says that the group could not be
/// fetched, that the member records could not be listed or that a record
/// could not be deleted, and the sweep fails with the reason of the event;
/// or the sweep is at its end and its group has no entry any more. No answer
/// about the membership or the removal of a single member does.
pub proof fn lemma_what_fails_a_sweep(
    sweep: SweepView,
    statuses: Map<i64, StatusView>,
    event: EventView,
    reason: Seq<char>,
)
    requires
        sweep.well_formed(),
        sweep.step(statuses, event).0 == StepView::Done(OutcomeView::Failed(reason)),
    ensures
        (sweep.answered_by(event) && event.gives_up() == Some(reason)) || (sweep.whole
            && event.gives_up().is_none() && !statuses.contains_key(sweep.chat_id) && reason
            == StateError::ChatNotFound.text()),
{
}

/// An event that tells of a failure of the group or of the store fails the
/// sweep that waits for it, with its reason, and changes no status.
pub proof fn lemma_failure_ends_the_sweep(
    sweep: SweepView,
    statuses: Map<i64, StatusView>,
    event: EventView,
    reason: Seq<char>,
)
    requires
        sweep.answered_by(event),
        event.gives_up() == Some(reason),
    ensures
        sweep.step(statuses, event) == (StepView::Done(OutcomeView::Failed(reason)), statuses),
{
}

/// A step moves on to the deletion of a record in exactly two cases, and
/// then the record is that of the current member: its live role is not an
/// ordinary one, or the platform has removed it. A member whose live record
/// could not be fetched, or whom the platform did not remove, keeps its
/// record.
pub proof fn lemma_record_deleted_iff_due(
    sweep: SweepView,
    statuses: Map<i64, StatusView>,
    event: EventView,
    member: i64,
)
    requires
        sweep.well_formed(),
    ensures
        (match sweep.step(statuses, event).0 {
            StepView::Next(next, request) => request == (SweepRequest::DeleteRecord { member })
                && next != sweep,
            StepView::Done(_) => false,
        }) <==> (member == sweep.current() && match event {
            EventView::Membership(role) => sweep.phase is AwaitMembership && !role.ordinary(),
            EventView::Removed => sweep.phase is AwaitRemoval,
            _ => false,
        }),
{
}

/// A whole sweep of a known group, whatever its events: if it completes,
/// the group is `Idle` and no other status has changed; if it fails, one of
/// its events told of a failure of the group or of the store, with the
/// reason of the failure, and no status has changed; and while it runs no
/// status changes. What became of the single members has no part in it.
pub proof fn lemma_whole_sweep_ends_idle(
    sweep: SweepView,
    statuses: Map<i64, StatusView>,
    events: Seq<EventView>,
)
    requires
        sweep.well_formed(),
        sweep.whole,
        statuses.contains_key(sweep.chat_id),
    ensures
        match run(sweep, statuses, events).0 {
            StepView::Next(_, _) => run(sweep, statuses, events).1 == statuses,
            StepView::Done(OutcomeView::Completed) => run(sweep, statuses, events).1
                == statuses.insert(sweep.chat_id, StatusView::Idle),
            StepView::Done(OutcomeView::Failed(reason)) => run(sweep, statuses, events).1
                == statuses && exists|k: int|
                0 <= k < events.len() && (#[trigger] events[k]).gives_up() == Some(reason),
        },
    decreases events.len(),
{
    if events.len() > 0 {
        let (step, after) = sweep.step(statuses, events[0]);
        lemma_step_keeps_sweep(sweep, statuses, events[0]);
        match step {
            StepView::Next(next, _) => {
                lemma_whole_sweep_ends_idle(next, after, events.skip(1));
                match run(next, after, events.skip(1)).0 {
                    StepView::Done(OutcomeView::Failed(reason)) => {
                        let later = events.skip(1);
                        let k = choose|k: int|
                            0 <= k < later.len() && (#[trigger] later[k]).gives_up() == Some(
                                reason,
                            );
                        assert(events[k + 1].gives_up() == Some(reason));
                    },
                    _ => {},
                }
            },
            StepView::Done(OutcomeView::Failed(reason)) => {
                lemma_what_fails_a_sweep(sweep, statuses, events[0], reason);
                assert(events[0].gives_up() == Some(reason));
            },
            StepView::Done(OutcomeView::Completed) => {},
        }
    }
}

/// An event that does not answer the outstanding request changes neither the
/// sweep nor a status, and the request is handed out again.
pub proof fn lemma_unanswering_event_changes_nothing(
    sweep: SweepView,
    statuses: Map<i64, StatusView>,
    event: EventView,
)
    requires
        !sweep.answered_by(event),
    ensures
        sweep.step(statuses, event) == (StepView::Next(sweep, sweep.outstanding()), statuses),
{
}

/// A step of a sweep adds no group to the registry and removes none.
pub proof fn lemma_step_keeps_groups(
    sweep: SweepView,
    statuses: Map<i64, StatusView>,
    event: EventView,
)
    ensures
        sweep.step(statuses, event).1.dom() == statuses.dom(),
{
    assert(sweep.step(statuses, event).1.dom() =~= statuses.dom());
}

/// The life of a claimed group: from `Idle` or `Error` the claim makes it
/// `Queued`, the start of its sweep `InProgress`, and the end of the sweep
/// `Idle`, or `Error` with the reason for which the group or the store
/// failed. While the sweep runs the group stays `InProgress`, and no other
/// group changes its status on the way.
pub proof fn lemma_life_of_a_claimed_group(
    statuses: Map<i64, StatusView>,
    group: i64,
    events: Seq<EventView>,
)
    requires
        statuses.contains_key(group),
        statuses[group].claimable(),
    ensures
        taken(statuses, seq![group]) == seq![group],
        cleared(statuses, seq![group]) == statuses.insert(group, StatusView::Queued),
        ({
            let started = statuses.insert(group, StatusView::InProgress);
            let (step, after) = run(whole_sweep(group), started, events);
            match step {
                StepView::Next(_, _) => after == started,
                StepView::Done(outcome) => settled(after, group, outcome) == statuses.insert(
                    group,
                    match outcome {
                        OutcomeView::Completed => StatusView::Idle,
                        OutcomeView::Failed(reason) => StatusView::Error(reason),
                    },
                ) && (outcome matches OutcomeView::Failed(reason) ==> exists|k: int|
                    0 <= k < events.len() && (#[trigger] events[k]).gives_up() == Some(reason)),
            }
        }),
{
    let only = seq![group];
    assert(only[0] == group);
    assert(only.drop_last() =~= Seq::<i64>::empty());
    assert(claimed_of(statuses, only.drop_last()) =~= Seq::<i64>::empty());
    assert(claimed_of(statuses, only) =~= only);
    assert(all_known(statuses, only));
    assert(after_claims(statuses, only) =~= statuses.insert(group, StatusView::Queued));
    let started = statuses.insert(group, StatusView::InProgress);
    lemma_whole_sweep_ends_idle(whole_sweep(group), started, events);
    let (step, after) = run(whole_sweep(group), started, events);
    match step {
        StepView::Next(_, _) => {},
        StepView::Done(outcome) => {
            assert(settled(after, group, outcome) =~= statuses.insert(
                group,
                match outcome {
                    OutcomeView::Completed => StatusView::Idle,
                    OutcomeView::Failed(reason) => StatusView::Error(reason),
                },
            ));
        },
    }
}

} // verus!
