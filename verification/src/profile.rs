//! The profile record.

use crate::address::Address;
use vstd::prelude::*;

verus! {

/// The record kept for one account.
#[derive(Debug, PartialEq, Eq)]
pub struct Profile {
    /// The handle that the account owns.
    pub username: Vec<u8>,
    /// Free-form text chosen by the owner.
    pub display_name: String,
    /// The owning account.
    pub owner: Address,
    /// Ledger sequence at which the profile was created.
    pub created_at: u64,
    /// Ledger sequence of the last change.
    pub updated_at: u64,
    /// Set once the profile was deleted or banned; never cleared.
    pub deleted: bool,
}

/// What a profile holds.
pub struct ProfileView {
    pub username: Seq<u8>,
    pub display_name: Seq<char>,
    pub owner: Seq<u8>,
    pub created_at: u64,
    pub updated_at: u64,
    pub deleted: bool,
}

impl ProfileView {
    /// The record of a profile registered at `created_at`.
    pub open spec fn fresh(
        username: Seq<u8>,
        display_name: Seq<char>,
        owner: Seq<u8>,
        created_at: u64,
    ) -> ProfileView {
        ProfileView {
            username,
            display_name,
            owner,
            created_at,
            updated_at: created_at,
            deleted: false,
        }
    }

    /// The profile has not been deleted.
    pub open spec fn active(self) -> bool {
        !self.deleted
    }

    /// The same profile under another display name, changed at `now`.
    pub open spec fn renamed(self, display_name: Seq<char>, now: u64) -> ProfileView {
        ProfileView { display_name, updated_at: now, ..self }
    }

    /// The same profile, deleted at `now`.
    pub open spec fn removed(self, now: u64) -> ProfileView {
        ProfileView { deleted: true, updated_at: now, ..self }
    }

    /// The same profile in the hands of `owner` since `now`.
    pub open spec fn handed_to(self, owner: Seq<u8>, now: u64) -> ProfileView {
        ProfileView { owner, updated_at: now, ..self }
    }
}

impl View for Profile {
    type V = ProfileView;

    open spec fn view(&self) -> ProfileView {
        ProfileView {
            username: self.username@,
            display_name: self.display_name@,
            owner: self.owner@,
            created_at: self.created_at,
            updated_at: self.updated_at,
            deleted: self.deleted,
        }
    }
}

impl Clone for Profile {
    fn clone(&self) -> (copy: Self)
        ensures
            copy@ == self@,
    {
        Profile {
            username: self.username.clone(),
            display_name: self.display_name.clone(),
            owner: self.owner.clone(),
            created_at: self.created_at,
            updated_at: self.updated_at,
            deleted: self.deleted,
        }
    }
}

impl Profile {
    /// A new, active profile, created and last updated at `created_at`.
    pub fn new(
        username: Vec<u8>,
        display_name: String,
        owner: Address,
        created_at: u64,
    ) -> (profile: Self)
        ensures
            profile@ == ProfileView::fresh(username@, display_name@, owner@, created_at),
    {
        Profile {
            username,
            display_name,
            owner,
            created_at,
            updated_at: created_at,
            deleted: false,
        }
    }

    /// Whether the profile has not been deleted.
    pub fn is_active(&self) -> (active: bool)
        ensures
            active == self@.active(),
    {
        !self.deleted
    }
}

} // verus!
