//! The registry as a function of the host's state.
//!
//! For each operation this module says on which states it is refused, with
//! which error, and what the state is after it succeeded. The operations
//! themselves are in `contract`; the laws that follow from these definitions
//! are in `laws`.

use crate::error::ProfileError;
use crate::events::EventView;
use crate::fields::FieldValueView;
use crate::host::HostState;
use crate::profile::ProfileView;
use crate::storage::{KeyView, ValueView, PROFILE_TTL_EXTEND, PROFILE_TTL_THRESHOLD};
use crate::validation::valid_username;
use vstd::prelude::*;

verus! {

// ---------------------------------------------------------------- readers

/// The account stored under `key`. A value of another kind counts as absent.
pub open spec fn address_at(s: HostState, key: KeyView) -> Option<Seq<u8>> {
    match s.get(key) {
        Some(ValueView::Address(a)) => Some(a),
        _ => None,
    }
}

/// The administrator, once the registry has one.
pub open spec fn admin_of(s: HostState) -> Option<Seq<u8>> {
    address_at(s, KeyView::Admin)
}

/// The number of registrations so far.
pub open spec fn count_of(s: HostState) -> u64 {
    match s.get(KeyView::ProfileCount) {
        Some(ValueView::Count(n)) => n,
        _ => 0,
    }
}

/// The registration fee; zero until one is set.
pub open spec fn fee_of(s: HostState) -> i128 {
    match s.get(KeyView::RegistrationFee) {
        Some(ValueView::Amount(n)) => n,
        _ => 0,
    }
}

/// The account that `username` is mapped to.
pub open spec fn owner_of(s: HostState, username: Seq<u8>) -> Option<Seq<u8>> {
    address_at(s, KeyView::Username(username))
}

/// The profile stored for `owner`, active or deleted.
pub open spec fn profile_of(s: HostState, owner: Seq<u8>) -> Option<ProfileView> {
    match s.get(KeyView::Profile(owner)) {
        Some(ValueView::Profile(p)) => Some(p),
        _ => None,
    }
}

/// The profile of `owner` as readers see it: a deleted profile is not seen.
pub open spec fn visible_profile(s: HostState, owner: Seq<u8>) -> Option<ProfileView> {
    match profile_of(s, owner) {
        Some(p) => if p.active() {
            Some(p)
        } else {
            None
        },
        None => None,
    }
}

/// The profile that `username` leads to, as readers see it.
pub open spec fn visible_profile_named(s: HostState, username: Seq<u8>) -> Option<ProfileView> {
    match owner_of(s, username) {
        Some(owner) => visible_profile(s, owner),
        None => None,
    }
}

/// The field `name` of `owner`.
pub open spec fn field_of(s: HostState, owner: Seq<u8>, name: Seq<char>) -> Option<
    FieldValueView,
> {
    match s.get(KeyView::Field(owner, name)) {
        Some(ValueView::Field(v)) => Some(v),
        _ => None,
    }
}

/// Of `names`, in their order, those that are set for `owner`, each with its
/// value. A name that occurs more than once counts where it occurs first.
pub open spec fn fields_of(s: HostState, owner: Seq<u8>, names: Seq<Seq<char>>) -> Seq<
    (Seq<char>, FieldValueView),
>
    decreases names.len(),
{
    if names.len() == 0 {
        Seq::empty()
    } else {
        let before = fields_of(s, owner, names.drop_last());
        match field_of(s, owner, names.last()) {
            Some(v) => if names.drop_last().contains(names.last()) {
                before
            } else {
                before.push((names.last(), v))
            },
            None => before,
        }
    }
}

/// No name occurs twice among `pairs`.
pub open spec fn names_distinct(pairs: Seq<(Seq<char>, FieldValueView)>) -> bool {
    forall|i: int, j: int|
        0 <= i < j < pairs.len() ==> (#[trigger] pairs[i]).0 != (#[trigger] pairs[j]).0
}

/// `username` has an owner.
pub open spec fn taken(s: HostState, username: Seq<u8>) -> bool {
    s.has(KeyView::Username(username))
}

/// `username` is reserved.
pub open spec fn reserved(s: HostState, username: Seq<u8>) -> bool {
    s.has(KeyView::ReservedUsername(username))
}

/// `username` can be registered: it is valid, not taken and not reserved.
pub open spec fn available(s: HostState, username: Seq<u8>) -> bool {
    valid_username(username) && !taken(s, username) && !reserved(s, username)
}

// ----------------------------------------------------------------- guards

/// The active profile that `caller` owns, or the reason why there is none.
pub open spec fn own_profile(s: HostState, caller: Seq<u8>) -> Result<ProfileView, ProfileError> {
    match profile_of(s, caller) {
        None => Err(ProfileError::ProfileNotFound),
        Some(p) => if p.deleted {
            Err(ProfileError::ProfileDeleted)
        } else if p.owner != caller {
            Err(ProfileError::NotAuthorized)
        } else {
            Ok(p)
        },
    }
}

/// The administrator's gate: the registry has an administrator, `caller` is
/// that account, and `caller` has authorized the invocation; tested in this
/// order.
pub open spec fn admin_gate(s: HostState, caller: Seq<u8>) -> Result<(), ProfileError> {
    match admin_of(s) {
        None => Err(ProfileError::NotInitialized),
        Some(admin) => if caller != admin {
            Err(ProfileError::NotAuthorized)
        } else if !s.authorized.contains(caller) {
            Err(ProfileError::NotAuthorized)
        } else {
            Ok(())
        },
    }
}

// ------------------------------------------------------------ transitions

/// The state after `value` was stored under `key` and the entry's lifetime
/// was refreshed.
pub open spec fn stored(s: HostState, key: KeyView, value: ValueView) -> HostState {
    s.write(key, value).extend(key, PROFILE_TTL_THRESHOLD, PROFILE_TTL_EXTEND)
}

/// The count after one more registration. The count stops at the largest
/// number that fits.
pub open spec fn next_count(n: u64) -> u64 {
    if n < u64::MAX {
        (n + 1) as u64
    } else {
        n
    }
}

/// Whether `init` succeeds.
pub open spec fn init_outcome(s: HostState, admin: Seq<u8>) -> Result<(), ProfileError> {
    if s.has(KeyView::Admin) {
        Err(ProfileError::AlreadyInitialized)
    } else if !s.authorized.contains(admin) {
        Err(ProfileError::NotAuthorized)
    } else {
        Ok(())
    }
}

/// The state after `init`.
pub open spec fn initialized(s: HostState, admin: Seq<u8>) -> HostState {
    s.write(KeyView::Admin, ValueView::Address(admin)).write(
        KeyView::ProfileCount,
        ValueView::Count(0),
    )
}

/// Whether `register` succeeds. The tests are made in this order:
/// authorization, initialization, the username's validity, that it is not
/// taken, that it is not reserved, that the caller has no profile yet.
pub open spec fn register_outcome(s: HostState, username: Seq<u8>, caller: Seq<u8>) -> Result<
    bool,
    ProfileError,
> {
    if !s.authorized.contains(caller) {
        Err(ProfileError::NotAuthorized)
    } else if !s.has(KeyView::Admin) {
        Err(ProfileError::NotInitialized)
    } else if !valid_username(username) {
        Err(ProfileError::InvalidUsername)
    } else if taken(s, username) {
        Err(ProfileError::UsernameTaken)
    } else if reserved(s, username) {
        Err(ProfileError::UsernameReserved)
    } else if s.has(KeyView::Profile(caller)) {
        Err(ProfileError::ProfileExists)
    } else {
        Ok(true)
    }
}

/// The state after `register`.
pub open spec fn registered(
    s: HostState,
    username: Seq<u8>,
    display_name: Seq<char>,
    caller: Seq<u8>,
) -> HostState {
    let profile = ProfileView::fresh(username, display_name, caller, s.sequence as u64);
    stored(
        stored(s, KeyView::Username(username), ValueView::Address(caller)),
        KeyView::Profile(caller),
        ValueView::Profile(profile),
    ).write(KeyView::ProfileCount, ValueView::Count(next_count(count_of(s)))).emit(
        EventView::ProfileRegistered { address: caller, username },
    )
}

/// Whether an operation on the caller's own active profile is allowed:
/// the caller has authorized it and owns an active profile.
pub open spec fn owner_outcome(s: HostState, caller: Seq<u8>) -> Result<(), ProfileError> {
    if !s.authorized.contains(caller) {
        Err(ProfileError::NotAuthorized)
    } else {
        match own_profile(s, caller) {
            Ok(_) => Ok(()),
            Err(e) => Err(e),
        }
    }
}

/// The state after `set_display_name`.
pub open spec fn display_name_set(s: HostState, display_name: Seq<char>, caller: Seq<u8>)
    -> HostState {
    let profile = own_profile(s, caller)->Ok_0.renamed(display_name, s.sequence as u64);
    stored(s, KeyView::Profile(caller), ValueView::Profile(profile)).emit(
        EventView::DisplayNameChanged { address: caller },
    )
}

/// The state after a field was set.
pub open spec fn field_set(s: HostState, caller: Seq<u8>, field: Seq<char>, value: FieldValueView)
    -> HostState {
    stored(s, KeyView::Field(caller, field), ValueView::Field(value)).emit(
        EventView::ProfileUpdated { address: caller, field },
    )
}

/// The state after `remove_field`.
pub open spec fn field_removed(s: HostState, caller: Seq<u8>, field: Seq<char>) -> HostState {
    s.erase(KeyView::Field(caller, field))
}

/// The state after `delete_profile`.
pub open spec fn profile_deleted(s: HostState, caller: Seq<u8>) -> HostState {
    let profile = own_profile(s, caller)->Ok_0.removed(s.sequence as u64);
    stored(s, KeyView::Profile(caller), ValueView::Profile(profile)).emit(
        EventView::ProfileDeleted { address: caller },
    )
}

/// Whether `transfer` succeeds: both accounts have authorized it, the caller
/// owns an active profile, and the new owner has no profile of any kind.
pub open spec fn transfer_outcome(s: HostState, new_owner: Seq<u8>, caller: Seq<u8>) -> Result<
    (),
    ProfileError,
> {
    if !s.authorized.contains(caller) {
        Err(ProfileError::NotAuthorized)
    } else if !s.authorized.contains(new_owner) {
        Err(ProfileError::NotAuthorized)
    } else {
        match own_profile(s, caller) {
            Err(e) => Err(e),
            Ok(_) => if s.has(KeyView::Profile(new_owner)) {
                Err(ProfileError::ProfileExists)
            } else {
                Ok(())
            },
        }
    }
}

/// The state after `transfer`: the username leads to the new owner, the
/// profile has left the caller's slot and stands in the new owner's.
pub open spec fn transferred(s: HostState, new_owner: Seq<u8>, caller: Seq<u8>) -> HostState {
    let old_profile = own_profile(s, caller)->Ok_0;
    let profile = old_profile.handed_to(new_owner, s.sequence as u64);
    stored(
        stored(s, KeyView::Username(old_profile.username), ValueView::Address(new_owner)).erase(
            KeyView::Profile(caller),
        ),
        KeyView::Profile(new_owner),
        ValueView::Profile(profile),
    ).emit(
        EventView::UsernameTransferred {
            username: old_profile.username,
            from: caller,
            to: new_owner,
        },
    )
}

/// Whether `reserve_username` succeeds.
pub open spec fn reserve_outcome(s: HostState, username: Seq<u8>, caller: Seq<u8>) -> Result<
    (),
    ProfileError,
> {
    match admin_gate(s, caller) {
        Err(e) => Err(e),
        Ok(_) => if !valid_username(username) {
            Err(ProfileError::InvalidUsername)
        } else {
            Ok(())
        },
    }
}

/// The state after `reserve_username`.
pub open spec fn username_reserved(s: HostState, username: Seq<u8>) -> HostState {
    s.write(KeyView::ReservedUsername(username), ValueView::Flag(true)).emit(
        EventView::UsernameReserved { username },
    )
}

/// The state after `unreserve_username`.
pub open spec fn username_unreserved(s: HostState, username: Seq<u8>) -> HostState {
    s.erase(KeyView::ReservedUsername(username)).emit(EventView::UsernameUnreserved { username })
}

/// The state after `set_registration_fee`.
pub open spec fn fee_set(s: HostState, fee: i128) -> HostState {
    s.write(KeyView::RegistrationFee, ValueView::Amount(fee))
}

/// Whether `ban_profile` succeeds.
pub open spec fn ban_outcome(s: HostState, address: Seq<u8>, caller: Seq<u8>) -> Result<
    (),
    ProfileError,
> {
    match admin_gate(s, caller) {
        Err(e) => Err(e),
        Ok(_) => if profile_of(s, address) is None {
            Err(ProfileError::ProfileNotFound)
        } else {
            Ok(())
        },
    }
}

/// The state after `ban_profile`.
pub open spec fn profile_banned(s: HostState, address: Seq<u8>) -> HostState {
    let profile = profile_of(s, address)->Some_0.removed(s.sequence as u64);
    stored(s, KeyView::Profile(address), ValueView::Profile(profile)).emit(
        EventView::ProfileBanned { address },
    )
}

/// Whether `upgrade` succeeds: the registry has an administrator, who has
/// authorized the invocation.
pub open spec fn upgrade_outcome(s: HostState) -> Result<(), ProfileError> {
    match admin_of(s) {
        None => Err(ProfileError::NotInitialized),
        Some(admin) => if !s.authorized.contains(admin) {
            Err(ProfileError::NotAuthorized)
        } else {
            Ok(())
        },
    }
}

// ---------------------------------------------------------- state machine

/// One invocation of a changing operation, with its arguments.
pub enum Operation {
    Init { admin: Seq<u8> },
    Register { username: Seq<u8>, display_name: Seq<char>, caller: Seq<u8> },
    SetDisplayName { display_name: Seq<char>, caller: Seq<u8> },
    SetField { field: Seq<char>, value: FieldValueView, caller: Seq<u8> },
    RemoveField { field: Seq<char>, caller: Seq<u8> },
    DeleteProfile { caller: Seq<u8> },
    Transfer { new_owner: Seq<u8>, caller: Seq<u8> },
    ReserveUsername { username: Seq<u8>, caller: Seq<u8> },
    UnreserveUsername { username: Seq<u8>, caller: Seq<u8> },
    SetRegistrationFee { fee: i128, caller: Seq<u8> },
    BanProfile { address: Seq<u8>, caller: Seq<u8> },
    Upgrade { hash: Seq<u8> },
}

/// The error with which `op` is refused in the state `s`, if it is refused.
pub open spec fn refusal(s: HostState, op: Operation) -> Option<ProfileError> {
    match op {
        Operation::Init { admin } => init_outcome(s, admin).err(),
        Operation::Register { username, display_name, caller } => register_outcome(
            s,
            username,
            caller,
        ).err(),
        Operation::SetDisplayName { display_name, caller } => owner_outcome(s, caller).err(),
        Operation::SetField { field, value, caller } => owner_outcome(s, caller).err(),
        Operation::RemoveField { field, caller } => owner_outcome(s, caller).err(),
        Operation::DeleteProfile { caller } => owner_outcome(s, caller).err(),
        Operation::Transfer { new_owner, caller } => transfer_outcome(s, new_owner, caller).err(),
        Operation::ReserveUsername { username, caller } => reserve_outcome(
            s,
            username,
            caller,
        ).err(),
        Operation::UnreserveUsername { username, caller } => admin_gate(s, caller).err(),
        Operation::SetRegistrationFee { fee, caller } => admin_gate(s, caller).err(),
        Operation::BanProfile { address, caller } => ban_outcome(s, address, caller).err(),
        Operation::Upgrade { hash } => upgrade_outcome(s).err(),
    }
}

/// The state after `op` was invoked in the state `s`: the state that the
/// operation leaves where it succeeds, and `s` itself where it is refused.
pub open spec fn step(s: HostState, op: Operation) -> HostState {
    if refusal(s, op) is Some {
        s
    } else {
        match op {
            Operation::Init { admin } => initialized(s, admin),
            Operation::Register { username, display_name, caller } => registered(
                s,
                username,
                display_name,
                caller,
            ),
            Operation::SetDisplayName { display_name, caller } => display_name_set(
                s,
                display_name,
                caller,
            ),
            Operation::SetField { field, value, caller } => field_set(s, caller, field, value),
            Operation::RemoveField { field, caller } => field_removed(s, caller, field),
            Operation::DeleteProfile { caller } => profile_deleted(s, caller),
            Operation::Transfer { new_owner, caller } => transferred(s, new_owner, caller),
            Operation::ReserveUsername { username, caller } => username_reserved(s, username),
            Operation::UnreserveUsername { username, caller } => username_unreserved(s, username),
            Operation::SetRegistrationFee { fee, caller } => fee_set(s, fee),
            Operation::BanProfile { address, caller } => profile_banned(s, address),
            Operation::Upgrade { hash } => s.install(hash),
        }
    }
}

/// `username` leads to an account whose profile carries that username.
pub open spec fn username_agrees(s: HostState, username: Seq<u8>) -> bool {
    match owner_of(s, username) {
        Some(owner) => match profile_of(s, owner) {
            Some(p) => p.username == username,
            None => false,
        },
        None => false,
    }
}

/// The profile in the slot of `owner` names `owner` as its owner, and its
/// username is valid and leads back to `owner`.
pub open spec fn profile_agrees(s: HostState, owner: Seq<u8>) -> bool {
    match profile_of(s, owner) {
        Some(p) => p.owner == owner && valid_username(p.username) && owner_of(s, p.username)
            == Some(owner),
        None => false,
    }
}

/// The username index and the profiles agree, and the entries that the
/// registry relies on hold values of the kind their keys call for: each
/// username leads to an account whose profile carries that username, and each
/// profile stands under its owner, with a valid username that leads back to
/// that owner.
pub open spec fn consistent(s: HostState) -> bool {
    &&& s.has(KeyView::Admin) ==> admin_of(s) is Some
    &&& s.has(KeyView::ProfileCount) ==> s.has(KeyView::Admin) && s.get(KeyView::ProfileCount)
        == Some(ValueView::Count(count_of(s)))
    &&& forall|u: Seq<u8>| #[trigger] s.has(KeyView::Username(u)) ==> username_agrees(s, u)
    &&& forall|a: Seq<u8>| #[trigger] s.has(KeyView::Profile(a)) ==> profile_agrees(s, a)
}

/// Where an account stands in the life of a profile.
pub enum Lifecycle {
    /// The account has no profile.
    NonExistent,
    /// The account has a profile that readers see.
    Active,
    /// The account has a profile that was deleted or banned.
    Deleted,
}

/// Where `owner` stands in the state `s`.
pub open spec fn lifecycle(s: HostState, owner: Seq<u8>) -> Lifecycle {
    match profile_of(s, owner) {
        None => Lifecycle::NonExistent,
        Some(p) => if p.deleted {
            Lifecycle::Deleted
        } else {
            Lifecycle::Active
        },
    }
}

} // verus!
