//! Storage keys and the values kept under them.

use crate::address::Address;
use crate::bytes::bytes_equal;
use crate::fields::{FieldValue, FieldValueView};
use crate::profile::{Profile, ProfileView};
use vstd::prelude::*;

verus! {

/// An entry whose remaining lifetime has fallen under this many ledgers is
/// due for an extension.
pub const PROFILE_TTL_THRESHOLD: u32 = 518400;

/// The lifetime, in ledgers, that an extension gives an entry.
pub const PROFILE_TTL_EXTEND: u32 = 2592000;

/// The keys of the registry's storage.
#[derive(Debug, PartialEq, Eq)]
pub enum ProfileKey {
    /// The administrator.
    Admin,
    /// The number of registrations so far.
    ProfileCount,
    /// The owner of a username.
    Username(Vec<u8>),
    /// The profile of an account.
    Profile(Address),
    /// One field of an account, by its name.
    Field(Address, String),
    /// The mark of a reserved username.
    ReservedUsername(Vec<u8>),
    /// The registration fee.
    RegistrationFee,
}

/// What a key holds.
pub enum KeyView {
    Admin,
    ProfileCount,
    Username(Seq<u8>),
    Profile(Seq<u8>),
    Field(Seq<u8>, Seq<char>),
    ReservedUsername(Seq<u8>),
    RegistrationFee,
}

impl View for ProfileKey {
    type V = KeyView;

    open spec fn view(&self) -> KeyView {
        match self {
            ProfileKey::Admin => KeyView::Admin,
            ProfileKey::ProfileCount => KeyView::ProfileCount,
            ProfileKey::Username(u) => KeyView::Username(u@),
            ProfileKey::Profile(a) => KeyView::Profile(a@),
            ProfileKey::Field(a, n) => KeyView::Field(a@, n@),
            ProfileKey::ReservedUsername(u) => KeyView::ReservedUsername(u@),
            ProfileKey::RegistrationFee => KeyView::RegistrationFee,
        }
    }
}

impl Clone for ProfileKey {
    fn clone(&self) -> (copy: Self)
        ensures
            copy@ == self@,
    {
        match self {
            ProfileKey::Admin => ProfileKey::Admin,
            ProfileKey::ProfileCount => ProfileKey::ProfileCount,
            ProfileKey::Username(u) => ProfileKey::Username(u.clone()),
            ProfileKey::Profile(a) => ProfileKey::Profile(a.clone()),
            ProfileKey::Field(a, n) => ProfileKey::Field(a.clone(), n.clone()),
            ProfileKey::ReservedUsername(u) => ProfileKey::ReservedUsername(u.clone()),
            ProfileKey::RegistrationFee => ProfileKey::RegistrationFee,
        }
    }
}

impl ProfileKey {
    /// Whether both keys name the same entry.
    pub fn equals(&self, other: &ProfileKey) -> (same: bool)
        ensures
            same == (self@ == other@),
    {
        match (self, other) {
            (ProfileKey::Admin, ProfileKey::Admin) => true,
            (ProfileKey::ProfileCount, ProfileKey::ProfileCount) => true,
            (ProfileKey::Username(a), ProfileKey::Username(b)) => bytes_equal(
                a.as_slice(),
                b.as_slice(),
            ),
            (ProfileKey::Profile(a), ProfileKey::Profile(b)) => a.equals(b),
            (ProfileKey::Field(a, m), ProfileKey::Field(b, n)) => a.equals(b) && *m == *n,
            (ProfileKey::ReservedUsername(a), ProfileKey::ReservedUsername(b)) => bytes_equal(
                a.as_slice(),
                b.as_slice(),
            ),
            (ProfileKey::RegistrationFee, ProfileKey::RegistrationFee) => true,
            _ => false,
        }
    }
}

/// A stored value.
#[derive(Debug, PartialEq, Eq)]
pub enum StorageValue {
    /// An account: the administrator, or the owner of a username.
    Address(Address),
    /// A count of registrations.
    Count(u64),
    /// A profile record.
    Profile(Profile),
    /// A field value.
    Field(FieldValue),
    /// A mark.
    Flag(bool),
    /// An amount of the fee's unit.
    Amount(i128),
}

/// What a stored value holds.
pub enum ValueView {
    Address(Seq<u8>),
    Count(u64),
    Profile(ProfileView),
    Field(FieldValueView),
    Flag(bool),
    Amount(i128),
}

impl View for StorageValue {
    type V = ValueView;

    open spec fn view(&self) -> ValueView {
        match self {
            StorageValue::Address(a) => ValueView::Address(a@),
            StorageValue::Count(n) => ValueView::Count(*n),
            StorageValue::Profile(p) => ValueView::Profile(p@),
            StorageValue::Field(f) => ValueView::Field(f@),
            StorageValue::Flag(b) => ValueView::Flag(*b),
            StorageValue::Amount(n) => ValueView::Amount(*n),
        }
    }
}

impl Clone for StorageValue {
    fn clone(&self) -> (copy: Self)
        ensures
            copy@ == self@,
    {
        match self {
            StorageValue::Address(a) => StorageValue::Address(a.clone()),
            StorageValue::Count(n) => StorageValue::Count(*n),
            StorageValue::Profile(p) => StorageValue::Profile(p.clone()),
            StorageValue::Field(f) => StorageValue::Field(f.clone()),
            StorageValue::Flag(b) => StorageValue::Flag(*b),
            StorageValue::Amount(n) => StorageValue::Amount(*n),
        }
    }
}

} // verus!
