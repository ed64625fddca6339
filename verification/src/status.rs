//! The cleaning state of one group, and the errors of the status registry.

use vstd::prelude::*;
use vstd::std_specs::cmp::PartialEqSpecImpl;

verus! {

/// Cleaning state of one group.
///
/// A group moves `Idle | Error -> Queued -> InProgress -> Idle`, or from
/// `InProgress` to `Error` when the group itself cannot be read.
#[derive(Debug)]
pub enum ChatCleaningStatus {
    Idle,
    Queued,
    InProgress,
    Error(String),
}

/// Mathematical value of a [`ChatCleaningStatus`]: the reason as a sequence of
/// characters.
pub enum StatusView {
    Idle,
    Queued,
    InProgress,
    Error(Seq<char>),
}

impl View for ChatCleaningStatus {
    type V = StatusView;

    open spec fn view(&self) -> StatusView {
        match self {
            ChatCleaningStatus::Idle => StatusView::Idle,
            ChatCleaningStatus::Queued => StatusView::Queued,
            ChatCleaningStatus::InProgress => StatusView::InProgress,
            ChatCleaningStatus::Error(reason) => StatusView::Error(reason@),
        }
    }
}

impl StatusView {
    /// A group in this state may be claimed for a sweep.
    pub open spec fn claimable(self) -> bool {
        self is Idle || self is Error
    }

    /// A group in this state is already being handled.
    pub open spec fn busy(self) -> bool {
        self is Queued || self is InProgress
    }
}

impl ChatCleaningStatus {
    /// Whether a claim may take the group: it is `Idle` or in `Error`.
    pub fn is_claimable(&self) -> (r: bool)
        ensures
            r == self@.claimable(),
    {
        match self {
            ChatCleaningStatus::Idle => true,
            ChatCleaningStatus::Error(_) => true,
            ChatCleaningStatus::Queued => false,
            ChatCleaningStatus::InProgress => false,
        }
    }

    /// Whether the group is `Queued` or `InProgress`.
    pub fn is_busy(&self) -> (r: bool)
        ensures
            r == self@.busy(),
    {
        !self.is_claimable()
    }

    /// The reason of an `Error`, and `None` for the other states.
    pub fn error_reason(&self) -> (r: Option<String>)
        ensures
            match self@ {
                StatusView::Error(reason) => r.is_some() && r.unwrap()@ == reason,
                _ => r.is_none(),
            },
    {
        match self {
            ChatCleaningStatus::Error(reason) => Some(reason.clone()),
            _ => None,
        }
    }
}

impl Clone for ChatCleaningStatus {
    fn clone(&self) -> (r: Self)
        ensures
            r@ == self@,
    {
        match self {
            ChatCleaningStatus::Idle => ChatCleaningStatus::Idle,
            ChatCleaningStatus::Queued => ChatCleaningStatus::Queued,
            ChatCleaningStatus::InProgress => ChatCleaningStatus::InProgress,
            ChatCleaningStatus::Error(reason) => ChatCleaningStatus::Error(reason.clone()),
        }
    }
}

impl PartialEq for ChatCleaningStatus {
    fn eq(&self, other: &Self) -> (r: bool) {
        match self {
            ChatCleaningStatus::Idle => match other {
                ChatCleaningStatus::Idle => true,
                _ => false,
            },
            ChatCleaningStatus::Queued => match other {
                ChatCleaningStatus::Queued => true,
                _ => false,
            },
            ChatCleaningStatus::InProgress => match other {
                ChatCleaningStatus::InProgress => true,
                _ => false,
            },
            ChatCleaningStatus::Error(reason) => match other {
                ChatCleaningStatus::Error(other_reason) => *reason == *other_reason,
                _ => false,
            },
        }
    }
}

impl PartialEqSpecImpl for ChatCleaningStatus {
    open spec fn obeys_eq_spec() -> bool {
        true
    }

    open spec fn eq_spec(&self, other: &Self) -> bool {
        self@ == other@
    }
}

/// Why an operation on the status registry failed.
#[derive(Debug, Clone, Copy, PartialEq, Eq, Structural)]
pub enum StateError {
    /// The group has no entry in the registry.
    ChatNotFound,
    /// A migration named an old group that has no entry in the registry.
    MigrationSourceMissing,
}

impl StateError {
    /// The message of the error.
    pub open spec fn text(self) -> Seq<char> {
        match self {
            StateError::ChatNotFound => "Chat not found"@,
            StateError::MigrationSourceMissing => "Tried to migrate from an unexisting status"@,
        }
    }

    /// The message of the error.
    pub fn message(&self) -> (text: String)
        ensures
            text@ == self.text(),
    {
        match self {
            StateError::ChatNotFound => "Chat not found".to_owned(),
            StateError::MigrationSourceMissing => "Tried to migrate from an unexisting status".to_owned(),
        }
    }
}

} // verus!
