//! Reasons for which an operation is refused.

use vstd::prelude::*;

verus! {

/// Why an operation was refused. A refused operation changes nothing.
#[derive(Copy, Clone, Debug, PartialEq, Eq, Structural)]
pub enum ProfileError {
    /// The registry has already been initialized.
    AlreadyInitialized,
    /// The registry has not been initialized.
    NotInitialized,
    /// The caller is not the one entitled to the operation, or has not
    /// authorized it.
    NotAuthorized,
    /// The username does not meet the policy.
    InvalidUsername,
    /// The username already has an owner.
    UsernameTaken,
    /// The username is reserved.
    UsernameReserved,
    /// The account has no profile.
    ProfileNotFound,
    /// The account already has a profile, active or deleted.
    ProfileExists,
    /// The profile has been deleted.
    ProfileDeleted,
    /// The field name is not acceptable. No operation reports this yet.
    InvalidField,
}

impl ProfileError {
    /// The number under which the error is reported.
    pub open spec fn spec_code(self) -> u32 {
        match self {
            ProfileError::AlreadyInitialized => 1,
            ProfileError::NotInitialized => 2,
            ProfileError::NotAuthorized => 3,
            ProfileError::InvalidUsername => 4,
            ProfileError::UsernameTaken => 5,
            ProfileError::UsernameReserved => 6,
            ProfileError::ProfileNotFound => 7,
            ProfileError::ProfileExists => 8,
            ProfileError::ProfileDeleted => 9,
            ProfileError::InvalidField => 10,
        }
    }

    /// The number under which the error is reported.
    pub fn code(&self) -> (code: u32)
        ensures
            code == self.spec_code(),
    {
        match self {
            ProfileError::AlreadyInitialized => 1,
            ProfileError::NotInitialized => 2,
            ProfileError::NotAuthorized => 3,
            ProfileError::InvalidUsername => 4,
            ProfileError::UsernameTaken => 5,
            ProfileError::UsernameReserved => 6,
            ProfileError::ProfileNotFound => 7,
            ProfileError::ProfileExists => 8,
            ProfileError::ProfileDeleted => 9,
            ProfileError::InvalidField => 10,
        }
    }

    /// The error reported under `code`, if there is one.
    pub fn from_code(code: u32) -> (error: Option<ProfileError>)
        ensures
            match error {
                Some(e) => e.spec_code() == code,
                None => code == 0 || code > 10,
            },
    {
        match code {
            1 => Some(ProfileError::AlreadyInitialized),
            2 => Some(ProfileError::NotInitialized),
            3 => Some(ProfileError::NotAuthorized),
            4 => Some(ProfileError::InvalidUsername),
            5 => Some(ProfileError::UsernameTaken),
            6 => Some(ProfileError::UsernameReserved),
            7 => Some(ProfileError::ProfileNotFound),
            8 => Some(ProfileError::ProfileExists),
            9 => Some(ProfileError::ProfileDeleted),
            10 => Some(ProfileError::InvalidField),
            _ => None,
        }
    }
}

} // verus!
