use vstd::prelude::*;

use crate::error::Error;

verus! {

/// A set of permission flags, one bit each: listing bans, managing bans,
/// managing badges, managing users.
#[derive(Clone, Copy, Debug, PartialEq, Eq, Hash, Structural)]
pub struct Permissions {
    pub bits: i64,
}

pub const LIST_BANS_BIT: i64 = 1;
pub const MANAGE_BANS_BIT: i64 = 2;
pub const MANAGE_BADGES_BIT: i64 = 4;
pub const MANAGE_USERS_BIT: i64 = 8;

impl From<i64> for Permissions {
    /// The set with exactly the given bits.
    fn from(bits: i64) -> (r: Permissions)
        ensures
            r.bits == bits,
    {
        Permissions { bits }
    }
}

impl vstd::std_specs::convert::FromSpecImpl<i64> for Permissions {
    open spec fn obeys_from_spec() -> bool {
        true
    }

    open spec fn from_spec(bits: i64) -> Permissions {
        Permissions { bits }
    }
}

impl Permissions {
    /// The set with exactly the given bits.
    pub fn from_bits(bits: i64) -> (r: Permissions)
        ensures
            r.bits == bits,
    {
        Permissions { bits }
    }

    pub fn bits(&self) -> (r: i64)
        ensures
            r == self.bits,
    {
        self.bits
    }

    pub fn none() -> (r: Permissions)
        ensures
            r.bits == 0,
    {
        Permissions { bits: 0 }
    }

    pub fn list_bans() -> (r: Permissions)
        ensures
            r.bits == LIST_BANS_BIT,
    {
        Permissions { bits: LIST_BANS_BIT }
    }

    pub fn manage_bans() -> (r: Permissions)
        ensures
            r.bits == MANAGE_BANS_BIT,
    {
        Permissions { bits: MANAGE_BANS_BIT }
    }

    pub fn manage_badges() -> (r: Permissions)
        ensures
            r.bits == MANAGE_BADGES_BIT,
    {
        Permissions { bits: MANAGE_BADGES_BIT }
    }

    pub fn manage_users() -> (r: Permissions)
        ensures
            r.bits == MANAGE_USERS_BIT,
    {
        Permissions { bits: MANAGE_USERS_BIT }
    }

    /// Listing bans, managing bans and managing badges.
    pub fn admin() -> (r: Permissions)
        ensures
            r.bits == LIST_BANS_BIT | MANAGE_BANS_BIT | MANAGE_BADGES_BIT,
    {
        Permissions { bits: LIST_BANS_BIT | MANAGE_BANS_BIT | MANAGE_BADGES_BIT }
    }

    /// Every permission: the admin's and managing users.
    pub fn owner() -> (r: Permissions)
        ensures
            r.bits == LIST_BANS_BIT | MANAGE_BANS_BIT | MANAGE_BADGES_BIT | MANAGE_USERS_BIT,
    {
        Permissions { bits: LIST_BANS_BIT | MANAGE_BANS_BIT | MANAGE_BADGES_BIT | MANAGE_USERS_BIT }
    }

    /// Whether every bit of `other` is set in `self`.
    pub open spec fn spec_contains(self, other: Permissions) -> bool {
        self.bits & other.bits == other.bits
    }

    /// Whether every bit of `other` is set in `self`.
    pub fn contains(&self, other: Permissions) -> (r: bool)
        ensures
            r == self.spec_contains(other),
    {
        self.bits & other.bits == other.bits
    }

    /// The bits set in either.
    pub fn union(&self, other: Permissions) -> (r: Permissions)
        ensures
            r.bits == self.bits | other.bits,
    {
        Permissions { bits: self.bits | other.bits }
    }

    /// The bits set in `self` and not in `other`.
    pub fn difference(&self, other: Permissions) -> (r: Permissions)
        ensures
            r.bits == self.bits & !other.bits,
    {
        Permissions { bits: self.bits & !other.bits }
    }
}

/// Succeeds where `permissions` holds every bit of `required_permissions`;
/// otherwise names the bits that are missing.
pub fn require_permissions(permissions: Permissions, required_permissions: Permissions) -> (r: Result<(), Error>)
    ensures
        r is Ok <==> permissions.spec_contains(required_permissions),
        r is Err ==> r == Err::<(), Error>(
            Error::MissingPermissions {
                missing_permissions: Permissions { bits: required_permissions.bits & !permissions.bits },
            },
        ),
{
    if permissions.contains(required_permissions) {
        Ok(())
    } else {
        Err(Error::MissingPermissions { missing_permissions: required_permissions.difference(permissions) })
    }
}

/// A set holds another exactly when nothing of the other is missing from it.
pub proof fn lemma_contains_iff_nothing_missing(held: Permissions, required: Permissions)
    ensures
        held.spec_contains(required) <==> required.bits & !held.bits == 0,
{
    let a = held.bits;
    let b = required.bits;
    assert((a & b == b) <==> (b & !a == 0)) by (bit_vector);
}

} // verus!
