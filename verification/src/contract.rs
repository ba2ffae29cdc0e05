//! The operations of the registry.
//!
//! Every operation runs against a host and either succeeds, and then changes
//! the host's state exactly as `registry` says, or is refused with an error
//! and changes nothing. Queries never change anything.

use crate::address::Address;
use crate::error::ProfileError;
use crate::events::{
    emit_display_name_changed, emit_profile_banned, emit_profile_deleted, emit_profile_registered,
    emit_profile_updated, emit_username_reserved, emit_username_transferred,
    emit_username_unreserved,
};
use crate::fields::{FieldValue, FieldValueView};
use crate::host::Host;
use crate::laws::law_fields_read;
use crate::profile::Profile;
use crate::registry::{
    address_at, admin_gate, admin_of, available, ban_outcome, count_of, display_name_set, fee_of,
    fee_set, field_of, field_removed, field_set, fields_of, init_outcome, initialized,
    names_distinct,
    own_profile, owner_outcome, profile_banned, profile_deleted, profile_of, register_outcome,
    registered, reserve_outcome, step, stored, transfer_outcome, transferred, upgrade_outcome,
    username_reserved, username_unreserved, visible_profile, visible_profile_named, Operation,
};
use crate::storage::{ProfileKey, StorageValue, PROFILE_TTL_EXTEND, PROFILE_TTL_THRESHOLD};
use crate::validation::validate_username;
use vstd::prelude::*;

verus! {

/// The registry. It holds nothing itself: its state is the host's.
pub struct UserProfileContract;

/// The account stored under `key`.
fn read_address<H: Host>(env: &H, key: &ProfileKey) -> (address: Option<Address>)
    ensures
        match address {
            Some(a) => address_at(env@, key@) == Some(a@),
            None => address_at(env@, key@) is None,
        },
{
    match env.get(key) {
        Some(StorageValue::Address(a)) => Some(a),
        _ => None,
    }
}

/// The profile stored for `owner`, active or deleted.
fn read_profile<H: Host>(env: &H, owner: &Address) -> (profile: Option<Profile>)
    ensures
        match profile {
            Some(p) => profile_of(env@, owner@) == Some(p@),
            None => profile_of(env@, owner@) is None,
        },
{
    match env.get(&ProfileKey::Profile(owner.clone())) {
        Some(StorageValue::Profile(p)) => Some(p),
        _ => None,
    }
}

/// The number of registrations so far.
fn read_count<H: Host>(env: &H) -> (count: u64)
    ensures
        count == count_of(env@),
{
    match env.get(&ProfileKey::ProfileCount) {
        Some(StorageValue::Count(n)) => n,
        _ => 0,
    }
}

/// Stores `value` under `key` and refreshes the entry's lifetime.
fn store<H: Host>(env: &mut H, key: &ProfileKey, value: StorageValue)
    ensures
        final(env)@ == stored(old(env)@, key@, value@),
{
    env.set(key, value);
    env.extend_ttl(key, PROFILE_TTL_THRESHOLD, PROFILE_TTL_EXTEND);
}

impl UserProfileContract {
    /// Registers `username` for `caller`, with a new active profile.
    ///
    /// Refused unless `caller` has authorized the invocation, the registry is
    /// initialized, the username is valid, not taken and not reserved, and
    /// `caller` has no profile yet, whether active or deleted.
    pub fn register<H: Host>(
        env: &mut H,
        username: Vec<u8>,
        display_name: String,
        caller: Address,
    ) -> (result: Result<bool, ProfileError>)
        ensures
            result == register_outcome(old(env)@, username@, caller@),
            result is Ok ==> final(env)@ == registered(
                old(env)@,
                username@,
                display_name@,
                caller@,
            ),
            result is Err ==> final(env)@ == old(env)@,
            final(env)@ == step(
                old(env)@,
                Operation::Register {
                    username: username@,
                    display_name: display_name@,
                    caller: caller@,
                },
            ),
    {
        if !env.require_auth(&caller) {
            return Err(ProfileError::NotAuthorized);
        }
        if !env.has(&ProfileKey::Admin) {
            return Err(ProfileError::NotInitialized);
        }
        if !validate_username(username.as_slice()) {
            return Err(ProfileError::InvalidUsername);
        }
        let username_key = ProfileKey::Username(username.clone());
        if env.has(&username_key) {
            return Err(ProfileError::UsernameTaken);
        }
        if env.has(&ProfileKey::ReservedUsername(username.clone())) {
            return Err(ProfileError::UsernameReserved);
        }
        let profile_key = ProfileKey::Profile(caller.clone());
        if env.has(&profile_key) {
            return Err(ProfileError::ProfileExists);
        }
        let timestamp = env.ledger_sequence() as u64;
        let count = read_count(env);
        let profile = Profile::new(username.clone(), display_name, caller.clone(), timestamp);

        store(env, &username_key, StorageValue::Address(caller.clone()));
        store(env, &profile_key, StorageValue::Profile(profile));

        let next = if count < u64::MAX {
            count + 1
        } else {
            count
        };
        env.set(&ProfileKey::ProfileCount, StorageValue::Count(next));

        emit_profile_registered(env, &caller, &username);
        Ok(true)
    }

    /// Hands the caller's profile, and with it the username, to `new_owner`.
    ///
    /// Refused unless both accounts have authorized the invocation, `caller`
    /// owns an active profile, and `new_owner` has no profile of any kind.
    pub fn transfer<H: Host>(
        env: &mut H,
        new_owner: Address,
        caller: Address,
    ) -> (result: Result<(), ProfileError>)
        ensures
            result == transfer_outcome(old(env)@, new_owner@, caller@),
            result is Ok ==> final(env)@ == transferred(old(env)@, new_owner@, caller@),
            result is Err ==> final(env)@ == old(env)@,
            final(env)@ == step(
                old(env)@,
                Operation::Transfer { new_owner: new_owner@, caller: caller@ },
            ),
    {
        if !env.require_auth(&caller) {
            return Err(ProfileError::NotAuthorized);
        }
        if !env.require_auth(&new_owner) {
            return Err(ProfileError::NotAuthorized);
        }
        let mut profile = match Self::own_active_profile(env, &caller) {
            Ok(p) => p,
            Err(e) => {
                return Err(e);
            },
        };
        let new_key = ProfileKey::Profile(new_owner.clone());
        if env.has(&new_key) {
            return Err(ProfileError::ProfileExists);
        }
        let username = profile.username.clone();
        profile.owner = new_owner.clone();
        profile.updated_at = env.ledger_sequence() as u64;

        let username_key = ProfileKey::Username(username.clone());
        store(env, &username_key, StorageValue::Address(new_owner.clone()));
        env.remove(&ProfileKey::Profile(caller.clone()));
        store(env, &new_key, StorageValue::Profile(profile));

        emit_username_transferred(env, &username, &caller, &new_owner);
        Ok(())
    }

    /// Changes the display name of the caller's profile.
    ///
    /// Refused unless `caller` has authorized the invocation and owns an
    /// active profile.
    pub fn set_display_name<H: Host>(
        env: &mut H,
        display_name: String,
        caller: Address,
    ) -> (result: Result<(), ProfileError>)
        ensures
            result == owner_outcome(old(env)@, caller@),
            result is Ok ==> final(env)@ == display_name_set(old(env)@, display_name@, caller@),
            result is Err ==> final(env)@ == old(env)@,
            final(env)@ == step(
                old(env)@,
                Operation::SetDisplayName { display_name: display_name@, caller: caller@ },
            ),
    {
        if !env.require_auth(&caller) {
            return Err(ProfileError::NotAuthorized);
        }
        let mut profile = match Self::own_active_profile(env, &caller) {
            Ok(p) => p,
            Err(e) => {
                return Err(e);
            },
        };
        profile.display_name = display_name;
        profile.updated_at = env.ledger_sequence() as u64;
        store(env, &ProfileKey::Profile(caller.clone()), StorageValue::Profile(profile));
        emit_display_name_changed(env, &caller);
        Ok(())
    }

    /// Sets the field `field` of the caller's profile to the text `value`.
    pub fn set_string_field<H: Host>(
        env: &mut H,
        field: String,
        value: String,
        caller: Address,
    ) -> (result: Result<(), ProfileError>)
        ensures
            result == owner_outcome(old(env)@, caller@),
            result is Ok ==> final(env)@ == field_set(
                old(env)@,
                caller@,
                field@,
                FieldValue::StringField(value)@,
            ),
            result is Err ==> final(env)@ == old(env)@,
            final(env)@ == step(
                old(env)@,
                Operation::SetField {
                    field: field@,
                    value: FieldValue::StringField(value)@,
                    caller: caller@,
                },
            ),
    {
        Self::set_field_internal(env, &caller, field, FieldValue::StringField(value))
    }

    /// Sets the field `field` of the caller's profile to the integer `value`.
    pub fn set_int_field<H: Host>(
        env: &mut H,
        field: String,
        value: i128,
        caller: Address,
    ) -> (result: Result<(), ProfileError>)
        ensures
            result == owner_outcome(old(env)@, caller@),
            result is Ok ==> final(env)@ == field_set(
                old(env)@,
                caller@,
                field@,
                FieldValue::IntField(value)@,
            ),
            result is Err ==> final(env)@ == old(env)@,
            final(env)@ == step(
                old(env)@,
                Operation::SetField {
                    field: field@,
                    value: FieldValue::IntField(value)@,
                    caller: caller@,
                },
            ),
    {
        Self::set_field_internal(env, &caller, field, FieldValue::IntField(value))
    }

    /// Sets the field `field` of the caller's profile to the truth value
    /// `value`.
    pub fn set_bool_field<H: Host>(
        env: &mut H,
        field: String,
        value: bool,
        caller: Address,
    ) -> (result: Result<(), ProfileError>)
        ensures
            result == owner_outcome(old(env)@, caller@),
            result is Ok ==> final(env)@ == field_set(
                old(env)@,
                caller@,
                field@,
                FieldValue::BoolField(value)@,
            ),
            result is Err ==> final(env)@ == old(env)@,
            final(env)@ == step(
                old(env)@,
                Operation::SetField {
                    field: field@,
                    value: FieldValue::BoolField(value)@,
                    caller: caller@,
                },
            ),
    {
        Self::set_field_internal(env, &caller, field, FieldValue::BoolField(value))
    }

    /// Removes the field `field` of the caller's profile. Where the field is
    /// not set, nothing changes and the operation still succeeds.
    ///
    /// Refused unless `caller` has authorized the invocation and owns an
    /// active profile.
    pub fn remove_field<H: Host>(
        env: &mut H,
        field: String,
        caller: Address,
    ) -> (result: Result<(), ProfileError>)
        ensures
            result == owner_outcome(old(env)@, caller@),
            result is Ok ==> final(env)@ == field_removed(old(env)@, caller@, field@),
            result is Err ==> final(env)@ == old(env)@,
            final(env)@ == step(
                old(env)@,
                Operation::RemoveField { field: field@, caller: caller@ },
            ),
    {
        if !env.require_auth(&caller) {
            return Err(ProfileError::NotAuthorized);
        }
        match Self::own_active_profile(env, &caller) {
            Ok(_) => {},
            Err(e) => {
                return Err(e);
            },
        }
        env.remove(&ProfileKey::Field(caller, field));
        Ok(())
    }

    /// Deletes the caller's profile. The record stays, marked as deleted, and
    /// the username stays taken.
    ///
    /// Refused unless `caller` has authorized the invocation and owns an
    /// active profile.
    pub fn delete_profile<H: Host>(
        env: &mut H,
        caller: Address,
    ) -> (result: Result<(), ProfileError>)
        ensures
            result == owner_outcome(old(env)@, caller@),
            result is Ok ==> final(env)@ == profile_deleted(old(env)@, caller@),
            result is Err ==> final(env)@ == old(env)@,
            final(env)@ == step(
                old(env)@,
                Operation::DeleteProfile { caller: caller@ },
            ),
    {
        if !env.require_auth(&caller) {
            return Err(ProfileError::NotAuthorized);
        }
        let mut profile = match Self::own_active_profile(env, &caller) {
            Ok(p) => p,
            Err(e) => {
                return Err(e);
            },
        };
        profile.deleted = true;
        profile.updated_at = env.ledger_sequence() as u64;
        store(env, &ProfileKey::Profile(caller.clone()), StorageValue::Profile(profile));
        emit_profile_deleted(env, &caller);
        Ok(())
    }

    /// Whether `username` can be registered: it is valid, not taken and not
    /// reserved. Whether the asking account already has a profile plays no
    /// part.
    pub fn is_username_available<H: Host>(env: &H, username: Vec<u8>) -> (free: bool)
        ensures
            free == available(env@, username@),
    {
        if !validate_username(username.as_slice()) {
            return false;
        }
        if env.has(&ProfileKey::Username(username.clone())) {
            return false;
        }
        if env.has(&ProfileKey::ReservedUsername(username)) {
            return false;
        }
        true
    }

    /// The active profile that `username` leads to. A deleted or banned
    /// profile is not told apart from none.
    pub fn get_by_username<H: Host>(env: &H, username: Vec<u8>) -> (profile: Option<Profile>)
        ensures
            match profile {
                Some(p) => visible_profile_named(env@, username@) == Some(p@),
                None => visible_profile_named(env@, username@) is None,
            },
    {
        match read_address(env, &ProfileKey::Username(username)) {
            Some(owner) => Self::get_by_address(env, owner),
            None => None,
        }
    }

    /// The active profile of `address`. A deleted or banned profile is not
    /// told apart from none.
    pub fn get_by_address<H: Host>(env: &H, address: Address) -> (profile: Option<Profile>)
        ensures
            match profile {
                Some(p) => visible_profile(env@, address@) == Some(p@),
                None => visible_profile(env@, address@) is None,
            },
    {
        match read_profile(env, &address) {
            Some(p) => if p.is_active() {
                Some(p)
            } else {
                None
            },
            None => None,
        }
    }

    /// Marks the profile of `address` as deleted, whoever owns it and whether
    /// or not it was deleted before.
    ///
    /// Refused unless `caller` passes the administrator's gate and `address`
    /// has a profile.
    pub fn ban_profile<H: Host>(
        env: &mut H,
        address: Address,
        caller: Address,
    ) -> (result: Result<(), ProfileError>)
        ensures
            result == ban_outcome(old(env)@, address@, caller@),
            result is Ok ==> final(env)@ == profile_banned(old(env)@, address@),
            result is Err ==> final(env)@ == old(env)@,
            final(env)@ == step(
                old(env)@,
                Operation::BanProfile { address: address@, caller: caller@ },
            ),
    {
        match Self::require_admin(env, &caller) {
            Ok(_) => {},
            Err(e) => {
                return Err(e);
            },
        }
        let mut profile = match read_profile(env, &address) {
            Some(p) => p,
            None => {
                return Err(ProfileError::ProfileNotFound);
            },
        };
        profile.deleted = true;
        profile.updated_at = env.ledger_sequence() as u64;
        store(env, &ProfileKey::Profile(address.clone()), StorageValue::Profile(profile));
        emit_profile_banned(env, &address);
        Ok(())
    }

    /// The fields of `address` that are set, among `field_names`: one pair of
    /// name and value for each such name, in the order in which the names
    /// occur first. No name occurs twice in the result, whatever the list
    /// repeats.
    pub fn get_fields<H: Host>(
        env: &H,
        address: Address,
        field_names: Vec<String>,
    ) -> (fields: Vec<(String, FieldValue)>)
        ensures
            pairs_view(fields@) == fields_of(env@, address@, names_view(field_names@)),
            names_distinct(pairs_view(fields@)),
            forall|i: int|
                0 <= i < fields@.len() ==> names_view(field_names@).contains(
                    (#[trigger] fields@[i]).0@,
                ) && field_of(env@, address@, fields@[i].0@) == Some(fields@[i].1@),
            forall|j: int|
                0 <= j < field_names@.len() && field_of(
                    env@,
                    address@,
                    (#[trigger] field_names@[j])@,
                ) is Some ==> exists|i: int|
                    0 <= i < fields@.len() && (#[trigger] fields@[i]).0@ == field_names@[j]@,
    {
        let mut fields: Vec<(String, FieldValue)> = Vec::new();
        let mut i: usize = 0;
        assert(names_view(field_names@).take(0) =~= Seq::<Seq<char>>::empty());
        assert(pairs_view(fields@) =~= Seq::<(Seq<char>, FieldValueView)>::empty());
        while i < field_names.len()
            invariant
                i <= field_names.len(),
                pairs_view(fields@) == fields_of(
                    env@,
                    address@,
                    names_view(field_names@).take(i as int),
                ),
            decreases field_names.len() - i,
        {
            let name = field_names[i].clone();
            proof {
                let names = names_view(field_names@);
                assert(names.take(i as int + 1).drop_last() =~= names.take(i as int));
                assert(names.take(i as int + 1).last() == name@);
            }
            if !occurs_before(&field_names, i) {
                match Self::get_field(env, address.clone(), name.clone()) {
                    Some(value) => {
                        let ghost before = fields@;
                        fields.push((name, value));
                        assert(pairs_view(fields@) =~= pairs_view(before).push((name@, value@)));
                    },
                    None => {},
                }
            }
            i += 1;
        }
        proof {
            let names = names_view(field_names@);
            assert(names.take(field_names@.len() as int) =~= names);
            law_fields_read(env@, address@, names);
            let read = fields_of(env@, address@, names);
            assert forall|j: int|
                0 <= j < field_names@.len() && field_of(
                    env@,
                    address@,
                    (#[trigger] field_names@[j])@,
                ) is Some implies exists|i: int|
                0 <= i < fields@.len() && (#[trigger] fields@[i]).0@ == field_names@[j]@ by {
                assert(names[j] == field_names@[j]@);
                let pair = (names[j], field_of(env@, address@, names[j])->Some_0);
                let k = choose|k: int| 0 <= k < read.len() && read[k] == pair;
                assert(fields@[k].0@ == pairs_view(fields@)[k].0);
            }
            assert forall|i: int| 0 <= i < fields@.len() implies names.contains(
                (#[trigger] fields@[i]).0@,
            ) && field_of(env@, address@, fields@[i].0@) == Some(fields@[i].1@) by {
                assert(pairs_view(fields@)[i] == read[i]);
            }
        }
        fields
    }

    /// The administrator's gate: `caller` is the administrator and has
    /// authorized the invocation.
    fn require_admin<H: Host>(env: &H, caller: &Address) -> (result: Result<(), ProfileError>)
        ensures
            result == admin_gate(env@, caller@),
    {
        let admin = match read_address(env, &ProfileKey::Admin) {
            Some(a) => a,
            None => {
                return Err(ProfileError::NotInitialized);
            },
        };
        if !caller.equals(&admin) {
            return Err(ProfileError::NotAuthorized);
        }
        if !env.require_auth(caller) {
            return Err(ProfileError::NotAuthorized);
        }
        Ok(())
    }

    /// The active profile that `caller` owns.
    fn own_active_profile<H: Host>(env: &H, caller: &Address) -> (result: Result<
        Profile,
        ProfileError,
    >)
        ensures
            match result {
                Ok(p) => own_profile(env@, caller@) == Ok::<_, ProfileError>(p@),
                Err(e) => own_profile(env@, caller@) == Err::<crate::profile::ProfileView, _>(e),
            },
    {
        let profile = match read_profile(env, caller) {
            Some(p) => p,
            None => {
                return Err(ProfileError::ProfileNotFound);
            },
        };
        if profile.deleted {
            return Err(ProfileError::ProfileDeleted);
        }
        if !profile.owner.equals(caller) {
            return Err(ProfileError::NotAuthorized);
        }
        Ok(profile)
    }

    /// Sets the field `field` of the caller's profile to `value`.
    fn set_field_internal<H: Host>(
        env: &mut H,
        caller: &Address,
        field: String,
        value: FieldValue,
    ) -> (result: Result<(), ProfileError>)
        ensures
            result == owner_outcome(old(env)@, caller@),
            result is Ok ==> final(env)@ == field_set(old(env)@, caller@, field@, value@),
            result is Err ==> final(env)@ == old(env)@,
            final(env)@ == step(
                old(env)@,
                Operation::SetField { field: field@, value: value@, caller: caller@ },
            ),
    {
        if !env.require_auth(caller) {
            return Err(ProfileError::NotAuthorized);
        }
        match Self::own_active_profile(env, caller) {
            Ok(_) => {},
            Err(e) => {
                return Err(e);
            },
        }
        store(env, &ProfileKey::Field(caller.clone(), field.clone()), StorageValue::Field(value));
        emit_profile_updated(env, caller, &field);
        Ok(())
    }

    /// Reserves `username`, so that nobody can register it. Whether the
    /// username is taken plays no part.
    ///
    /// Refused unless `caller` passes the administrator's gate and the
    /// username is valid.
    pub fn reserve_username<H: Host>(
        env: &mut H,
        username: Vec<u8>,
        caller: Address,
    ) -> (result: Result<(), ProfileError>)
        ensures
            result == reserve_outcome(old(env)@, username@, caller@),
            result is Ok ==> final(env)@ == username_reserved(old(env)@, username@),
            result is Err ==> final(env)@ == old(env)@,
            final(env)@ == step(
                old(env)@,
                Operation::ReserveUsername { username: username@, caller: caller@ },
            ),
    {
        match Self::require_admin(env, &caller) {
            Ok(_) => {},
            Err(e) => {
                return Err(e);
            },
        }
        if !validate_username(username.as_slice()) {
            return Err(ProfileError::InvalidUsername);
        }
        env.set(&ProfileKey::ReservedUsername(username.clone()), StorageValue::Flag(true));
        emit_username_reserved(env, &username);
        Ok(())
    }

    /// Releases the reservation of `username`. Where the username is not
    /// reserved, storage does not change and the operation still succeeds.
    ///
    /// Refused unless `caller` passes the administrator's gate.
    pub fn unreserve_username<H: Host>(
        env: &mut H,
        username: Vec<u8>,
        caller: Address,
    ) -> (result: Result<(), ProfileError>)
        ensures
            result == admin_gate(old(env)@, caller@),
            result is Ok ==> final(env)@ == username_unreserved(old(env)@, username@),
            result is Err ==> final(env)@ == old(env)@,
            final(env)@ == step(
                old(env)@,
                Operation::UnreserveUsername { username: username@, caller: caller@ },
            ),
    {
        match Self::require_admin(env, &caller) {
            Ok(_) => {},
            Err(e) => {
                return Err(e);
            },
        }
        env.remove(&ProfileKey::ReservedUsername(username.clone()));
        emit_username_unreserved(env, &username);
        Ok(())
    }

    /// Makes `admin` the administrator and starts the count of registrations
    /// at zero.
    ///
    /// Refused where the registry has an administrator already, or `admin`
    /// has not authorized the invocation.
    pub fn init<H: Host>(env: &mut H, admin: Address) -> (result: Result<(), ProfileError>)
        ensures
            result == init_outcome(old(env)@, admin@),
            result is Ok ==> final(env)@ == initialized(old(env)@, admin@),
            result is Err ==> final(env)@ == old(env)@,
            final(env)@ == step(
                old(env)@,
                Operation::Init { admin: admin@ },
            ),
    {
        if env.has(&ProfileKey::Admin) {
            return Err(ProfileError::AlreadyInitialized);
        }
        if !env.require_auth(&admin) {
            return Err(ProfileError::NotAuthorized);
        }
        env.set(&ProfileKey::Admin, StorageValue::Address(admin));
        env.set(&ProfileKey::ProfileCount, StorageValue::Count(0));
        Ok(())
    }

    /// Replaces the code of the registry by the code with the hash
    /// `new_wasm_hash`.
    ///
    /// Refused unless the registry has an administrator, who has authorized
    /// the invocation.
    pub fn upgrade<H: Host>(
        env: &mut H,
        new_wasm_hash: [u8; 32],
    ) -> (result: Result<(), ProfileError>)
        ensures
            result == upgrade_outcome(old(env)@),
            result is Ok ==> final(env)@ == old(env)@.install(new_wasm_hash@),
            result is Err ==> final(env)@ == old(env)@,
            final(env)@ == step(
                old(env)@,
                Operation::Upgrade { hash: new_wasm_hash@ },
            ),
    {
        let admin = match read_address(env, &ProfileKey::Admin) {
            Some(a) => a,
            None => {
                return Err(ProfileError::NotInitialized);
            },
        };
        if !env.require_auth(&admin) {
            return Err(ProfileError::NotAuthorized);
        }
        env.update_code(new_wasm_hash.as_slice());
        Ok(())
    }

    /// The administrator.
    pub fn admin<H: Host>(env: &H) -> (result: Result<Address, ProfileError>)
        ensures
            match result {
                Ok(a) => admin_of(env@) == Some(a@),
                Err(e) => e == ProfileError::NotInitialized && admin_of(env@) is None,
            },
    {
        match read_address(env, &ProfileKey::Admin) {
            Some(a) => Ok(a),
            None => Err(ProfileError::NotInitialized),
        }
    }

    /// The number of registrations so far. Deleting a profile does not lower
    /// it.
    pub fn profile_count<H: Host>(env: &H) -> (count: u64)
        ensures
            count == count_of(env@),
    {
        read_count(env)
    }

    /// Sets the registration fee. Any amount is accepted, a negative one too.
    ///
    /// Refused unless `caller` passes the administrator's gate.
    pub fn set_registration_fee<H: Host>(
        env: &mut H,
        fee_stroops: i128,
        caller: Address,
    ) -> (result: Result<(), ProfileError>)
        ensures
            result == admin_gate(old(env)@, caller@),
            result is Ok ==> final(env)@ == fee_set(old(env)@, fee_stroops),
            result is Err ==> final(env)@ == old(env)@,
            final(env)@ == step(
                old(env)@,
                Operation::SetRegistrationFee { fee: fee_stroops, caller: caller@ },
            ),
    {
        match Self::require_admin(env, &caller) {
            Ok(_) => {},
            Err(e) => {
                return Err(e);
            },
        }
        env.set(&ProfileKey::RegistrationFee, StorageValue::Amount(fee_stroops));
        Ok(())
    }

    /// The registration fee; zero until one is set.
    pub fn registration_fee<H: Host>(env: &H) -> (fee: i128)
        ensures
            fee == fee_of(env@),
    {
        match env.get(&ProfileKey::RegistrationFee) {
            Some(StorageValue::Amount(n)) => n,
            _ => 0,
        }
    }

    /// The field `field` of `address`, if it is set.
    pub fn get_field<H: Host>(
        env: &H,
        address: Address,
        field: String,
    ) -> (value: Option<FieldValue>)
        ensures
            match value {
                Some(v) => field_of(env@, address@, field@) == Some(v@),
                None => field_of(env@, address@, field@) is None,
            },
    {
        match env.get(&ProfileKey::Field(address, field)) {
            Some(StorageValue::Field(v)) => Some(v),
            _ => None,
        }
    }
}

/// Whether the name at `place` occurs in `names` before `place`.
fn occurs_before(names: &Vec<String>, place: usize) -> (seen: bool)
    requires
        place < names@.len(),
    ensures
        seen == names_view(names@).take(place as int).contains(names@[place as int]@),
{
    let mut i: usize = 0;
    while i < place
        invariant
            i <= place < names@.len(),
            forall|j: int| 0 <= j < i ==> (#[trigger] names@[j])@ != names@[place as int]@,
        decreases place - i,
    {
        if names[i] == names[place] {
            assert(names_view(names@).take(place as int)[i as int] == names@[place as int]@);
            return true;
        }
        i += 1;
    }
    assert forall|j: int| 0 <= j < names_view(names@).take(place as int).len() implies names_view(
        names@,
    ).take(place as int)[j] != names@[place as int]@ by {
        assert(names_view(names@).take(place as int)[j] == names@[j]@);
    }
    false
}

/// The names in `names`, each as the text it holds.
pub open spec fn names_view(names: Seq<String>) -> Seq<Seq<char>> {
    Seq::new(names.len(), |i: int| names[i]@)
}

/// The pairs in `pairs`, each as the name and the value it holds.
pub open spec fn pairs_view(pairs: Seq<(String, FieldValue)>) -> Seq<(Seq<char>, FieldValueView)> {
    Seq::new(pairs.len(), |i: int| (pairs[i].0@, pairs[i].1@))
}

} // verus!
