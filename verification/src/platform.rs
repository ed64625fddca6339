//! What the rules read of the messaging platform: the kind of a group, the
//! role of a member, and the way a member is removed.

use vstd::prelude::*;

verus! {

/// The kind of chat that a group is on the platform.
#[derive(Debug, Clone, Copy, PartialEq, Eq, Structural)]
pub enum GroupKind {
    /// A conversation with a single user.
    Private,
    /// An ordinary group.
    Group,
    /// A large or public group.
    Supergroup,
    /// A broadcast channel.
    Channel,
}

/// How a member is taken out of a group.
#[derive(Debug, Clone, Copy, PartialEq, Eq, Structural)]
pub enum RemovalMode {
    /// Eject the member without leaving a ban behind.
    Kick,
    /// Lift the member's standing in the group so that it is out and may
    /// join again.
    Unban,
}

/// The role that the live membership record of the platform shows.
#[derive(Debug, Clone, Copy, PartialEq, Eq, Structural)]
pub enum MemberRole {
    Owner,
    Administrator,
    Member,
    Restricted,
    Left,
    Banned,
}

impl GroupKind {
    /// The removal that fits the kind of group: broadcast channels and large
    /// groups take `Unban`, every other group takes `Kick`.
    pub open spec fn removal(self) -> RemovalMode {
        if self is Supergroup || self is Channel {
            RemovalMode::Unban
        } else {
            RemovalMode::Kick
        }
    }

    /// The removal that fits the kind of group.
    pub fn removal_mode(self) -> (mode: RemovalMode)
        ensures
            mode == self.removal(),
    {
        match self {
            GroupKind::Supergroup => RemovalMode::Unban,
            GroupKind::Channel => RemovalMode::Unban,
            GroupKind::Private => RemovalMode::Kick,
            GroupKind::Group => RemovalMode::Kick,
        }
    }
}

impl MemberRole {
    /// Owners and administrators are privileged; the directory never holds
    /// them.
    pub open spec fn privileged(self) -> bool {
        self is Owner || self is Administrator
    }

    /// The roles that the directory keeps a record of: plain and restricted
    /// members.
    pub open spec fn ordinary(self) -> bool {
        self is Member || self is Restricted
    }

    /// Whether the role is that of an owner or an administrator.
    pub fn is_privileged(self) -> (r: bool)
        ensures
            r == self.privileged(),
    {
        match self {
            MemberRole::Owner => true,
            MemberRole::Administrator => true,
            _ => false,
        }
    }

    /// Whether a member with this role stays in the directory.
    pub fn is_ordinary(self) -> (r: bool)
        ensures
            r == self.ordinary(),
    {
        match self {
            MemberRole::Member => true,
            MemberRole::Restricted => true,
            _ => false,
        }
    }
}

} // verus!
