//! What holds of the registry whatever the host.
//!
//! The laws are stated over the definitions of `registry`, which are what the
//! operations of `contract` promise. Where a law follows one invocation by
//! another, the later one starts from any state that stores the same data as
//! the earlier one left: between invocations the ledger moves on, lifetimes
//! run down and other accounts authorize, but stored values stay.

use crate::error::ProfileError;
use crate::events::EventView;
use crate::fields::FieldValueView;
use crate::host::{HostState, Slot};
use crate::profile::ProfileView;
use crate::registry::{
    admin_gate, admin_of, available, consistent, count_of, field_of, field_removed, field_set,
    fields_of, lifecycle, names_distinct, next_count, own_profile, owner_of, owner_outcome,
    profile_agrees, profile_deleted, profile_of, refusal, register_outcome, registered,
    reserve_outcome, reserved, step, stored, taken, transfer_outcome, transferred, username_agrees,
    username_reserved, username_unreserved, visible_profile, visible_profile_named, Lifecycle,
    Operation,
};
use crate::storage::{KeyView, ValueView, PROFILE_TTL_EXTEND, PROFILE_TTL_THRESHOLD};
use vstd::prelude::*;

verus! {

/// The lifetime that a refresh leaves an entry that had `lifetime` left.
pub open spec fn refreshed(lifetime: u32) -> u32 {
    if lifetime < PROFILE_TTL_THRESHOLD {
        PROFILE_TTL_EXTEND
    } else {
        lifetime
    }
}

/// Releasing a reservation that does not exist is no error, and changes
/// nothing in storage: the state differs from the one before by the
/// notification alone.
pub proof fn law_unreserve_unreserved(s: HostState, username: Seq<u8>, caller: Seq<u8>)
    requires
        admin_gate(s, caller) is Ok,
        !reserved(s, username),
    ensures
        refusal(s, Operation::UnreserveUsername { username, caller }) is None,
        step(s, Operation::UnreserveUsername { username, caller }) == s.emit(
            EventView::UsernameUnreserved { username },
        ),
        step(s, Operation::UnreserveUsername { username, caller }).entries == s.entries,
{
    assert(s.entries.remove(KeyView::ReservedUsername(username)) =~= s.entries);
}

/// A second release leaves storage as the first release left it.
pub proof fn law_unreserve_twice(s: HostState, username: Seq<u8>)
    ensures
        !reserved(username_unreserved(s, username), username),
        username_unreserved(username_unreserved(s, username), username).entries
            == username_unreserved(s, username).entries,
{
    let once = username_unreserved(s, username);
    assert(once.entries.remove(KeyView::ReservedUsername(username)) =~= once.entries);
}

/// Removing a field that is not set is no error, and changes nothing.
pub proof fn law_remove_absent_field(s: HostState, caller: Seq<u8>, field: Seq<char>)
    requires
        owner_outcome(s, caller) is Ok,
        !s.has(KeyView::Field(caller, field)),
    ensures
        refusal(s, Operation::RemoveField { field, caller }) is None,
        step(s, Operation::RemoveField { field, caller }) == s,
{
    assert(s.entries.remove(KeyView::Field(caller, field)) =~= s.entries);
}

/// A second removal leaves the state as the first removal left it.
pub proof fn law_remove_field_twice(s: HostState, caller: Seq<u8>, field: Seq<char>)
    ensures
        field_of(field_removed(s, caller, field), caller, field) is None,
        field_removed(field_removed(s, caller, field), caller, field) == field_removed(
            s,
            caller,
            field,
        ),
{
    let once = field_removed(s, caller, field);
    assert(once.entries.remove(KeyView::Field(caller, field)) =~= once.entries);
}

/// Once `username` is registered, nobody can register it again: whoever
/// tries, under whatever display name, is refused with `UsernameTaken`.
pub proof fn law_username_unique(
    s: HostState,
    username: Seq<u8>,
    display_name: Seq<char>,
    first: Seq<u8>,
    later: HostState,
    second: Seq<u8>,
)
    requires
        register_outcome(s, username, first) is Ok,
        later.same_data(registered(s, username, display_name, first)),
        later.authorized.contains(second),
    ensures
        register_outcome(later, username, second) == Err::<bool, _>(ProfileError::UsernameTaken),
        !available(later, username),
{
    let after = registered(s, username, display_name, first);
    assert(after.get(KeyView::Admin) is Some);
    assert(later.get(KeyView::Admin) is Some);
    assert(after.get(KeyView::Username(username)) is Some);
    assert(later.get(KeyView::Username(username)) is Some);
}

/// An account that has deleted its profile cannot register again, under any
/// username: the deleted profile is hidden from readers, and still a second
/// registration is refused with `ProfileExists`.
pub proof fn law_no_registration_after_delete(
    s: HostState,
    username: Seq<u8>,
    display_name: Seq<char>,
    caller: Seq<u8>,
    before_delete: HostState,
    later: HostState,
    other_username: Seq<u8>,
)
    requires
        register_outcome(s, username, caller) is Ok,
        before_delete.same_data(registered(s, username, display_name, caller)),
        before_delete.authorized.contains(caller),
        later.same_data(profile_deleted(before_delete, caller)),
        later.authorized.contains(caller),
        available(later, other_username),
    ensures
        owner_outcome(before_delete, caller) is Ok,
        visible_profile(later, caller) is None,
        register_outcome(later, other_username, caller) == Err::<bool, _>(
            ProfileError::ProfileExists,
        ),
{
    let after = registered(s, username, display_name, caller);
    assert(after.get(KeyView::Profile(caller)) is Some);
    assert(before_delete.get(KeyView::Profile(caller)) == after.get(KeyView::Profile(caller)));
    assert(own_profile(before_delete, caller) is Ok);
    let deleted = profile_deleted(before_delete, caller);
    assert(deleted.get(KeyView::Profile(caller)) is Some);
    assert(later.get(KeyView::Profile(caller)) == deleted.get(KeyView::Profile(caller)));
    assert(after.get(KeyView::Admin) is Some);
    assert(before_delete.get(KeyView::Admin) is Some);
    assert(deleted.get(KeyView::Admin) is Some);
    assert(later.get(KeyView::Admin) is Some);
}

/// Deleting a profile does not free its username.
pub proof fn law_delete_keeps_username(s: HostState, caller: Seq<u8>, later: HostState)
    requires
        owner_outcome(s, caller) is Ok,
        later.same_data(profile_deleted(s, caller)),
        taken(s, own_profile(s, caller)->Ok_0.username),
    ensures
        taken(later, own_profile(s, caller)->Ok_0.username),
        !available(later, own_profile(s, caller)->Ok_0.username),
        visible_profile(later, caller) is None,
{
    let username = own_profile(s, caller)->Ok_0.username;
    let deleted = profile_deleted(s, caller);
    assert(deleted.get(KeyView::Username(username)) is Some);
    assert(later.get(KeyView::Username(username)) is Some);
    assert(deleted.get(KeyView::Profile(caller)) is Some);
    assert(later.get(KeyView::Profile(caller)) == deleted.get(KeyView::Profile(caller)));
}

/// A transfer is seen whole or not at all: afterwards the old owner has no
/// profile, the new owner has the profile, with itself as owner and the
/// username unchanged, and the username leads to that same profile.
pub proof fn law_transfer_is_atomic(
    s: HostState,
    new_owner: Seq<u8>,
    caller: Seq<u8>,
    later: HostState,
)
    requires
        transfer_outcome(s, new_owner, caller) is Ok,
        later.same_data(transferred(s, new_owner, caller)),
    ensures
        profile_of(later, caller) is None,
        visible_profile(later, caller) is None,
        visible_profile(later, new_owner) == Some(
            own_profile(s, caller)->Ok_0.handed_to(new_owner, s.sequence as u64),
        ),
        visible_profile(later, new_owner)->Some_0.owner == new_owner,
        visible_profile(later, new_owner)->Some_0.username == own_profile(
            s,
            caller,
        )->Ok_0.username,
        owner_of(later, own_profile(s, caller)->Ok_0.username) == Some(new_owner),
        visible_profile_named(later, own_profile(s, caller)->Ok_0.username) == visible_profile(
            later,
            new_owner,
        ),
{
    let username = own_profile(s, caller)->Ok_0.username;
    let after = transferred(s, new_owner, caller);
    assert(new_owner != caller);
    assert(after.get(KeyView::Profile(caller)) is None);
    assert(later.get(KeyView::Profile(caller)) is None);
    assert(later.get(KeyView::Profile(new_owner)) == after.get(KeyView::Profile(new_owner)));
    assert(later.get(KeyView::Username(username)) == after.get(KeyView::Username(username)));
}

/// A reserved username is not available and cannot be registered; once the
/// reservation is released it is available again, unless it is taken.
pub proof fn law_reservation_blocks(
    s: HostState,
    username: Seq<u8>,
    admin: Seq<u8>,
    reserved_state: HostState,
    caller: Seq<u8>,
    released_state: HostState,
)
    requires
        reserve_outcome(s, username, admin) is Ok,
        reserved_state.same_data(username_reserved(s, username)),
        reserved_state.authorized.contains(caller),
        !taken(s, username),
        released_state.same_data(username_unreserved(reserved_state, username)),
    ensures
        !available(reserved_state, username),
        register_outcome(reserved_state, username, caller) == Err::<bool, _>(
            ProfileError::UsernameReserved,
        ),
        available(released_state, username),
{
    let after = username_reserved(s, username);
    assert(after.get(KeyView::ReservedUsername(username)) is Some);
    assert(reserved_state.get(KeyView::ReservedUsername(username)) is Some);
    assert(after.get(KeyView::Admin) is Some);
    assert(reserved_state.get(KeyView::Admin) is Some);
    assert(after.get(KeyView::Username(username)) is None);
    assert(reserved_state.get(KeyView::Username(username)) is None);
    let released = username_unreserved(reserved_state, username);
    assert(released.get(KeyView::ReservedUsername(username)) is None);
    assert(released_state.get(KeyView::ReservedUsername(username)) is None);
    assert(released.get(KeyView::Username(username)) is None);
    assert(released_state.get(KeyView::Username(username)) is None);
}

/// A username is never available while it is taken or reserved.
pub proof fn law_available_excludes(s: HostState, username: Seq<u8>)
    ensures
        available(s, username) ==> !taken(s, username) && !reserved(s, username),
        taken(s, username) || reserved(s, username) ==> !available(s, username),
{
}

/// A registration raises the count by one, up to the largest count that
/// fits, and touches no other account's profile.
pub proof fn law_register_counts(
    s: HostState,
    username: Seq<u8>,
    display_name: Seq<char>,
    caller: Seq<u8>,
)
    requires
        register_outcome(s, username, caller) is Ok,
    ensures
        count_of(registered(s, username, display_name, caller)) == next_count(count_of(s)),
        count_of(registered(s, username, display_name, caller)) >= count_of(s),
        count_of(s) < u64::MAX ==> count_of(registered(s, username, display_name, caller))
            == count_of(s) + 1,
        forall|other: Seq<u8>|
            other != caller ==> profile_of(registered(s, username, display_name, caller), other)
                == profile_of(s, other),
{
}

/// An entry that was stored with a refresh holds the new value and has no
/// less than the threshold left to live: the extended lifetime where it had
/// less than the threshold before, or was new and would have started with
/// less, and else the lifetime it had. No other entry changes.
pub proof fn law_store_refreshes(s: HostState, key: KeyView, value: ValueView)
    ensures
        stored(s, key, value).get(key) == Some(value),
        stored(s, key, value).lifetime(key) is Some,
        stored(s, key, value).lifetime(key)->Some_0 >= PROFILE_TTL_THRESHOLD,
        stored(s, key, value).lifetime(key) == Some(
            refreshed(
                if s.has(key) {
                    s.lifetime(key)->Some_0
                } else {
                    s.initial_lifetime
                },
            ),
        ),
        forall|other: KeyView|
            other != key ==> stored(s, key, value).get(other) == s.get(other) && stored(
                s,
                key,
                value,
            ).lifetime(other) == s.lifetime(other),
{
}

/// Where nothing is stored, the index and the profiles agree.
pub proof fn law_empty_is_consistent(s: HostState)
    requires
        s.entries == Map::<KeyView, Slot>::empty(),
    ensures
        consistent(s),
{
}

/// Whether the index and the profiles agree depends on the stored values
/// alone: what changes between invocations does not disturb it.
pub proof fn law_consistency_is_about_data(s: HostState, later: HostState)
    requires
        consistent(s),
        later.same_data(s),
    ensures
        consistent(later),
{
    assert(later.get(KeyView::Admin) == s.get(KeyView::Admin));
    assert(later.get(KeyView::ProfileCount) == s.get(KeyView::ProfileCount));
    assert forall|u: Seq<u8>| #[trigger]
        later.has(KeyView::Username(u)) implies username_agrees(later, u) by {
        assert(later.get(KeyView::Username(u)) == s.get(KeyView::Username(u)));
        assert(s.has(KeyView::Username(u)));
        let owner = owner_of(s, u)->Some_0;
        assert(later.get(KeyView::Profile(owner)) == s.get(KeyView::Profile(owner)));
    }
    assert forall|a: Seq<u8>| #[trigger]
        later.has(KeyView::Profile(a)) implies profile_agrees(later, a) by {
        assert(later.get(KeyView::Profile(a)) == s.get(KeyView::Profile(a)));
        assert(s.has(KeyView::Profile(a)));
        let username = profile_of(s, a)->Some_0.username;
        assert(later.get(KeyView::Username(username)) == s.get(KeyView::Username(username)));
    }
}

/// No operation, refused or not, brings the username index and the profiles
/// out of step. Together with the two laws before, this makes the agreement
/// hold in every state that a registry can reach from an empty host.
pub proof fn law_index_preserved(s: HostState, op: Operation)
    requires
        consistent(s),
    ensures
        consistent(step(s, op)),
{
    let t = step(s, op);
    if refusal(s, op) is None {
        match op {
            Operation::Register { username, display_name, caller } => {
                assert forall|u: Seq<u8>| #[trigger]
                    t.has(KeyView::Username(u)) implies username_agrees(t, u) by {
                    if u != username {
                        assert(s.has(KeyView::Username(u)));
                    }
                }
                assert forall|a: Seq<u8>| #[trigger]
                    t.has(KeyView::Profile(a)) implies profile_agrees(t, a) by {
                    if a != caller {
                        assert(s.has(KeyView::Profile(a)));
                        assert(s.has(KeyView::Username(profile_of(s, a)->Some_0.username)));
                    }
                }
            },
            Operation::Transfer { new_owner, caller } => {
                let moved = own_profile(s, caller)->Ok_0;
                assert(s.has(KeyView::Profile(caller)));
                assert forall|u: Seq<u8>| #[trigger]
                    t.has(KeyView::Username(u)) implies username_agrees(t, u) by {
                    if u != moved.username {
                        assert(s.has(KeyView::Username(u)));
                        assert(s.has(KeyView::Profile(owner_of(s, u)->Some_0)));
                    }
                }
                assert forall|a: Seq<u8>| #[trigger]
                    t.has(KeyView::Profile(a)) implies profile_agrees(t, a) by {
                    if a != new_owner {
                        assert(s.has(KeyView::Profile(a)));
                        assert(s.has(KeyView::Username(profile_of(s, a)->Some_0.username)));
                    }
                }
            },
            Operation::SetDisplayName { display_name, caller } => {
                lemma_profile_update_keeps_index(
                    s,
                    caller,
                    own_profile(s, caller)->Ok_0.renamed(display_name, s.sequence as u64),
                    EventView::DisplayNameChanged { address: caller },
                );
            },
            Operation::DeleteProfile { caller } => {
                lemma_profile_update_keeps_index(
                    s,
                    caller,
                    own_profile(s, caller)->Ok_0.removed(s.sequence as u64),
                    EventView::ProfileDeleted { address: caller },
                );
            },
            Operation::BanProfile { address, caller } => {
                lemma_profile_update_keeps_index(
                    s,
                    address,
                    profile_of(s, address)->Some_0.removed(s.sequence as u64),
                    EventView::ProfileBanned { address },
                );
            },
            _ => {
                assert forall|u: Seq<u8>| #[trigger]
                    t.has(KeyView::Username(u)) implies username_agrees(t, u) by {
                    assert(s.has(KeyView::Username(u)));
                }
                assert forall|a: Seq<u8>| #[trigger]
                    t.has(KeyView::Profile(a)) implies profile_agrees(t, a) by {
                    assert(s.has(KeyView::Profile(a)));
                }
            },
        }
    }
}

/// Replacing a stored profile by one of the same owner and username keeps
/// the index and the profiles in step.
proof fn lemma_profile_update_keeps_index(
    s: HostState,
    owner: Seq<u8>,
    profile: ProfileView,
    event: EventView,
)
    requires
        consistent(s),
        profile_of(s, owner) is Some,
        profile.owner == profile_of(s, owner)->Some_0.owner,
        profile.username == profile_of(s, owner)->Some_0.username,
    ensures
        consistent(stored(s, KeyView::Profile(owner), ValueView::Profile(profile)).emit(event)),
{
    let t = stored(s, KeyView::Profile(owner), ValueView::Profile(profile)).emit(event);
    assert(s.has(KeyView::Profile(owner)));
    assert forall|u: Seq<u8>| #[trigger]
        t.has(KeyView::Username(u)) implies username_agrees(t, u) by {
        assert(s.has(KeyView::Username(u)));
    }
    assert forall|a: Seq<u8>| #[trigger]
        t.has(KeyView::Profile(a)) implies profile_agrees(t, a) by {
        assert(s.has(KeyView::Profile(a)));
    }
}

/// Where the index and the profiles agree, the profile in an account's slot
/// is that account's own: an account with an active profile is never refused
/// for want of ownership, and what it is allowed depends on its
/// authorization alone.
pub proof fn law_slot_holds_own_profile(s: HostState, caller: Seq<u8>)
    requires
        consistent(s),
    ensures
        own_profile(s, caller) != Err::<ProfileView, _>(ProfileError::NotAuthorized),
        lifecycle(s, caller) is Active ==> own_profile(s, caller) == Ok::<_, ProfileError>(
            profile_of(s, caller)->Some_0,
        ),
        lifecycle(s, caller) is Active && s.authorized.contains(caller) ==> owner_outcome(
            s,
            caller,
        ) is Ok,
{
    if profile_of(s, caller) is Some {
        assert(s.has(KeyView::Profile(caller)));
    }
}

/// A field that was set reads back as it was set, until it is set again or
/// removed; a field that was removed reads as absent.
pub proof fn law_field_reads_back(
    s: HostState,
    caller: Seq<u8>,
    field: Seq<char>,
    value: FieldValueView,
    later: HostState,
    after_removal: HostState,
)
    requires
        later.same_data(field_set(s, caller, field, value)),
        after_removal.same_data(field_removed(later, caller, field)),
    ensures
        field_of(later, caller, field) == Some(value),
        field_of(after_removal, caller, field) is None,
{
    let set = field_set(s, caller, field, value);
    assert(later.get(KeyView::Field(caller, field)) == set.get(KeyView::Field(caller, field)));
    let removed = field_removed(later, caller, field);
    assert(after_removal.get(KeyView::Field(caller, field)) == removed.get(
        KeyView::Field(caller, field),
    ));
}

/// No two accounts hold profiles with the same username, and a username
/// leads to one account only.
pub proof fn law_one_profile_per_username(s: HostState, a: Seq<u8>, b: Seq<u8>)
    requires
        consistent(s),
        profile_of(s, a) is Some,
        profile_of(s, b) is Some,
        profile_of(s, a)->Some_0.username == profile_of(s, b)->Some_0.username,
    ensures
        a == b,
{
    assert(s.has(KeyView::Profile(a)));
    assert(s.has(KeyView::Profile(b)));
}

/// A username that is taken stays taken, whatever is invoked: no operation
/// frees a username.
pub proof fn law_username_stays_taken(s: HostState, op: Operation, username: Seq<u8>)
    requires
        taken(s, username),
    ensures
        taken(step(s, op), username),
{
}

/// A deleted profile stays deleted, whatever is invoked: there is no way
/// back from deletion.
pub proof fn law_deleted_is_final(s: HostState, op: Operation, owner: Seq<u8>)
    requires
        profile_of(s, owner) is Some,
        profile_of(s, owner)->Some_0.deleted,
    ensures
        profile_of(step(s, op), owner) is Some,
        profile_of(step(s, op), owner)->Some_0.deleted,
        visible_profile(step(s, op), owner) is None,
{
}

/// The administrator, once set, stays the same, whatever is invoked.
pub proof fn law_admin_is_fixed(s: HostState, op: Operation)
    requires
        s.has(KeyView::Admin),
    ensures
        step(s, op).get(KeyView::Admin) == s.get(KeyView::Admin),
        admin_of(step(s, op)) == admin_of(s),
{
}

/// The count of registrations never falls, and only a registration raises
/// it.
pub proof fn law_count_never_falls(s: HostState, op: Operation)
    requires
        consistent(s),
    ensures
        count_of(step(s, op)) >= count_of(s),
        !(op is Register) ==> count_of(step(s, op)) == count_of(s),
{
}

/// Only the administrator, with its authorization, gets an administrative
/// operation through.
pub proof fn law_admin_only(s: HostState, op: Operation)
    requires
        refusal(s, op) is None,
    ensures
        op matches Operation::ReserveUsername { caller, .. } ==> admin_of(s) == Some(caller)
            && s.authorized.contains(caller),
        op matches Operation::UnreserveUsername { caller, .. } ==> admin_of(s) == Some(caller)
            && s.authorized.contains(caller),
        op matches Operation::SetRegistrationFee { caller, .. } ==> admin_of(s) == Some(caller)
            && s.authorized.contains(caller),
        op matches Operation::BanProfile { caller, .. } ==> admin_of(s) == Some(caller)
            && s.authorized.contains(caller),
        op is Upgrade ==> admin_of(s) is Some && s.authorized.contains(admin_of(s)->Some_0),
{
}

/// The life of a profile has one direction. An account without a profile
/// gets an active one by registering or by a transfer to it, and in no other
/// way. An active profile stays active, or is deleted by its owner or banned
/// by the administrator, or leaves the account by a transfer from it. A
/// deleted profile stays deleted.
pub proof fn law_lifecycle(s: HostState, op: Operation, owner: Seq<u8>)
    ensures
        match (lifecycle(s, owner), lifecycle(step(s, op), owner)) {
            (Lifecycle::NonExistent, Lifecycle::NonExistent) => true,
            (Lifecycle::NonExistent, Lifecycle::Active) => refusal(s, op) is None && (match op {
                Operation::Register { caller, .. } => caller == owner,
                Operation::Transfer { new_owner, .. } => new_owner == owner,
                _ => false,
            }),
            (Lifecycle::NonExistent, Lifecycle::Deleted) => false,
            (Lifecycle::Active, Lifecycle::Active) => true,
            (Lifecycle::Active, Lifecycle::Deleted) => refusal(s, op) is None && (match op {
                Operation::DeleteProfile { caller } => caller == owner,
                Operation::BanProfile { address, .. } => address == owner,
                _ => false,
            }),
            (Lifecycle::Active, Lifecycle::NonExistent) => refusal(s, op) is None && (match op {
                Operation::Transfer { caller, .. } => caller == owner,
                _ => false,
            }),
            (Lifecycle::Deleted, Lifecycle::Deleted) => true,
            (Lifecycle::Deleted, _) => false,
        },
{
}

/// The fields that are read by a list of names are the fields that are
/// set, under names of the list, each once: each pair that is read holds a
/// name of the list and the value set under it, each name of the list under
/// which a value is set is read with that value, and no name is read twice.
pub proof fn law_fields_read(s: HostState, owner: Seq<u8>, names: Seq<Seq<char>>)
    ensures
        forall|i: int|
            0 <= i < fields_of(s, owner, names).len() ==> names.contains(
                (#[trigger] fields_of(s, owner, names)[i]).0,
            ) && field_of(s, owner, fields_of(s, owner, names)[i].0) == Some(
                fields_of(s, owner, names)[i].1,
            ),
        forall|j: int|
            0 <= j < names.len() && field_of(s, owner, #[trigger] names[j]) is Some
                ==> fields_of(s, owner, names).contains(
                (names[j], field_of(s, owner, names[j])->Some_0),
            ),
        names_distinct(fields_of(s, owner, names)),
        fields_of(s, owner, names).len() <= names.len(),
    decreases names.len(),
{
    if names.len() > 0 {
        let head = names.drop_last();
        let last = names.last();
        law_fields_read(s, owner, head);
        let before = fields_of(s, owner, head);
        let all = fields_of(s, owner, names);
        assert forall|i: int| 0 <= i < all.len() implies names.contains((#[trigger] all[i]).0)
            && field_of(s, owner, all[i].0) == Some(all[i].1) by {
            if i < before.len() {
                assert(all[i] == before[i]);
                let k = choose|k: int| 0 <= k < head.len() && head[k] == before[i].0;
                assert(names[k] == before[i].0);
            } else {
                assert(names[names.len() - 1] == last);
            }
        }
        assert forall|j: int|
            0 <= j < names.len() && field_of(s, owner, #[trigger] names[j]) is Some
            implies all.contains((names[j], field_of(s, owner, names[j])->Some_0)) by {
            let pair = (names[j], field_of(s, owner, names[j])->Some_0);
            if j < head.len() {
                assert(head[j] == names[j]);
                let k = choose|k: int| 0 <= k < before.len() && before[k] == pair;
                assert(all[k] == pair);
            } else if head.contains(last) {
                let earlier = choose|e: int| 0 <= e < head.len() && head[e] == last;
                assert(field_of(s, owner, head[earlier]) is Some);
                let k = choose|k: int| 0 <= k < before.len() && before[k] == pair;
                assert(all[k] == pair);
            } else {
                assert(all[all.len() - 1] == pair);
            }
        }
        assert forall|i: int, j: int| 0 <= i < j < all.len() implies (#[trigger] all[i]).0
            != (#[trigger] all[j]).0 by {
            if j < before.len() {
                assert(all[i] == before[i] && all[j] == before[j]);
            } else {
                assert(all[i] == before[i]);
                assert(head.contains(before[i].0));
            }
        }
    }
}

} // verus!
