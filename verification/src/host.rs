//! The host that the registry runs on.
//!
//! The registry keeps no state of its own. Storage, the authorizations that
//! accompany the current invocation, the ledger sequence, the notification
//! channel and the installed code all belong to the host, and every operation
//! of the registry is stated as a function of the host's state.

use crate::address::Address;
use crate::events::{Event, EventView};
use crate::storage::{KeyView, ProfileKey, StorageValue, ValueView};
use vstd::prelude::*;

verus! {

/// A stored entry: its value and the ledgers it has left before it expires.
pub struct Slot {
    pub value: ValueView,
    pub lifetime: u32,
}

/// The state of a host, as far as the registry can observe or change it.
pub struct HostState {
    /// The stored entries.
    pub entries: Map<KeyView, Slot>,
    /// The lifetime that a newly created entry starts with.
    pub initial_lifetime: u32,
    /// The accounts that have authorized the current invocation.
    pub authorized: Set<Seq<u8>>,
    /// The current ledger sequence.
    pub sequence: u32,
    /// The events published so far, oldest first.
    pub events: Seq<EventView>,
    /// The hash of the installed code.
    pub code: Seq<u8>,
}

impl HostState {
    /// An entry is stored under `key`.
    pub open spec fn has(self, key: KeyView) -> bool {
        self.entries.contains_key(key)
    }

    /// The value stored under `key`, if any.
    pub open spec fn get(self, key: KeyView) -> Option<ValueView> {
        if self.entries.contains_key(key) {
            Some(self.entries[key].value)
        } else {
            None
        }
    }

    /// The lifetime left to the entry under `key`, if there is one.
    pub open spec fn lifetime(self, key: KeyView) -> Option<u32> {
        if self.entries.contains_key(key) {
            Some(self.entries[key].lifetime)
        } else {
            None
        }
    }

    /// Both states store the same values under the same keys. Lifetimes,
    /// authorizations, the ledger sequence, events and code may differ: they
    /// change between invocations, stored values do not.
    pub open spec fn same_data(self, other: HostState) -> bool {
        forall|key: KeyView|
            #![trigger self.get(key)]
            #![trigger other.get(key)]
            self.get(key) == other.get(key)
    }

    /// The state after `value` was stored under `key`. An entry that existed
    /// keeps its lifetime; a new one starts with the initial lifetime.
    pub open spec fn write(self, key: KeyView, value: ValueView) -> HostState {
        let lifetime = if self.entries.contains_key(key) {
            self.entries[key].lifetime
        } else {
            self.initial_lifetime
        };
        HostState { entries: self.entries.insert(key, Slot { value, lifetime }), ..self }
    }

    /// The state after the entry under `key` was removed. Nothing changes
    /// where there was none.
    pub open spec fn erase(self, key: KeyView) -> HostState {
        HostState { entries: self.entries.remove(key), ..self }
    }

    /// The state after the lifetime of the entry under `key` was raised to
    /// `extend_to` if it had fallen under `threshold`. Nothing changes where
    /// there is no such entry.
    pub open spec fn extend(self, key: KeyView, threshold: u32, extend_to: u32) -> HostState {
        if self.entries.contains_key(key) && self.entries[key].lifetime < threshold {
            HostState {
                entries: self.entries.insert(
                    key,
                    Slot { value: self.entries[key].value, lifetime: extend_to },
                ),
                ..self
            }
        } else {
            self
        }
    }

    /// The state after `event` was published.
    pub open spec fn emit(self, event: EventView) -> HostState {
        HostState { events: self.events.push(event), ..self }
    }

    /// The state after the code with the hash `hash` was installed.
    pub open spec fn install(self, hash: Seq<u8>) -> HostState {
        HostState { code: hash, ..self }
    }
}

/// What the registry asks of its host.
pub trait Host {
    /// The state of the host. A host that is not verified cannot say what
    /// its state is: it leaves the state unspecified, and is then trusted to
    /// behave as the contracts below say of some state.
    open spec fn view(&self) -> HostState {
        arbitrary()
    }

    /// Whether an entry is stored under `key`.
    fn has(&self, key: &ProfileKey) -> (present: bool)
        ensures
            present == self@.has(key@),
    ;

    /// The value stored under `key`, if any.
    fn get(&self, key: &ProfileKey) -> (value: Option<StorageValue>)
        ensures
            match value {
                Some(v) => self@.get(key@) == Some(v@),
                None => self@.get(key@) is None,
            },
    ;

    /// Stores `value` under `key`, in place of what was there.
    fn set(&mut self, key: &ProfileKey, value: StorageValue)
        ensures
            final(self)@ == old(self)@.write(key@, value@),
    ;

    /// Removes the entry under `key`, if there is one.
    fn remove(&mut self, key: &ProfileKey)
        ensures
            final(self)@ == old(self)@.erase(key@),
    ;

    /// Raises the lifetime of the entry under `key` to `extend_to` ledgers if
    /// it has fallen under `threshold`. Nothing changes where there is no
    /// such entry.
    fn extend_ttl(&mut self, key: &ProfileKey, threshold: u32, extend_to: u32)
        ensures
            final(self)@ == old(self)@.extend(key@, threshold, extend_to),
    ;

    /// Whether `who` has authorized the current invocation. A host that
    /// aborts an invocation for want of an authorization never answers
    /// `false`.
    fn require_auth(&self, who: &Address) -> (authorized: bool)
        ensures
            authorized == self@.authorized.contains(who@),
    ;

    /// The current ledger sequence.
    fn ledger_sequence(&self) -> (sequence: u32)
        ensures
            sequence == self@.sequence,
    ;

    /// Publishes `event`.
    fn publish(&mut self, event: Event)
        ensures
            final(self)@ == old(self)@.emit(event@),
    ;

    /// Installs the code with the hash `hash` in place of the running code.
    fn update_code(&mut self, hash: &[u8])
        ensures
            final(self)@ == old(self)@.install(hash@),
    ;
}

} // verus!
