//! A host that lives in memory.
//!
//! It keeps the entries in a list, the newest last: of two entries with the
//! same key the later one counts. It is the host to run the registry on where
//! no ledger is at hand.

use crate::address::Address;
use crate::events::{Event, EventView};
use crate::host::{Host, HostState, Slot};
use crate::storage::{KeyView, ProfileKey, StorageValue};
use vstd::prelude::*;

verus! {

/// The lifetime, in ledgers, that a new host gives a newly created entry.
pub const DEFAULT_INITIAL_LIFETIME: u32 = 4096;

/// One stored entry.
struct StoredEntry {
    key: ProfileKey,
    value: StorageValue,
    lifetime: u32,
}

impl StoredEntry {
    spec fn slot(self) -> Slot {
        Slot { value: self.value@, lifetime: self.lifetime }
    }

    fn duplicate(&self) -> (copy: Self)
        ensures
            copy.key@ == self.key@,
            copy.slot() == self.slot(),
    {
        StoredEntry { key: self.key.clone(), value: self.value.clone(), lifetime: self.lifetime }
    }
}

/// The map that a list of entries stands for: a later entry overrides an
/// earlier one with the same key.
spec fn entries_view(items: Seq<StoredEntry>) -> Map<KeyView, Slot>
    decreases items.len(),
{
    if items.len() == 0 {
        Map::empty()
    } else {
        entries_view(items.drop_last()).insert(items.last().key@, items.last().slot())
    }
}

/// The accounts that a list of addresses names, or all accounts.
spec fn authorized_view(everyone: bool, list: Seq<Address>) -> Set<Seq<u8>> {
    Set::new(
        |a: Seq<u8>| everyone || exists|i: int| 0 <= i < list.len() && (#[trigger] list[i])@ == a,
    )
}

/// The events of a list, each as what it holds.
spec fn events_view(events: Seq<Event>) -> Seq<EventView> {
    Seq::new(events.len(), |i: int| events[i]@)
}

/// A key that the tail of a list does not hold is looked up in the head.
proof fn lemma_skip_tail(items: Seq<StoredEntry>, n: int, key: KeyView)
    requires
        0 <= n <= items.len(),
        forall|j: int| n <= j < items.len() ==> (#[trigger] items[j]).key@ != key,
    ensures
        entries_view(items).contains_key(key) == entries_view(items.take(n)).contains_key(key),
        entries_view(items).contains_key(key) ==> entries_view(items)[key] == entries_view(
            items.take(n),
        )[key],
    decreases items.len() - n,
{
    if n == items.len() {
        assert(items.take(n) =~= items);
    } else {
        assert(items.drop_last().take(n) =~= items.take(n));
        lemma_skip_tail(items.drop_last(), n, key);
    }
}

/// The answer of a list whose last entry with the key `key` stands at `i`.
proof fn lemma_found(items: Seq<StoredEntry>, i: int, key: KeyView)
    requires
        0 <= i < items.len(),
        items[i].key@ == key,
        forall|j: int| i < j < items.len() ==> (#[trigger] items[j]).key@ != key,
    ensures
        entries_view(items).contains_key(key),
        entries_view(items)[key] == items[i].slot(),
{
    lemma_skip_tail(items, i + 1, key);
    assert(items.take(i + 1).drop_last() =~= items.take(i));
    assert(items.take(i + 1).last() == items[i]);
}

/// A list without the key `key` stands for a map without it.
proof fn lemma_not_found(items: Seq<StoredEntry>, key: KeyView)
    requires
        forall|j: int| 0 <= j < items.len() ==> (#[trigger] items[j]).key@ != key,
    ensures
        !entries_view(items).contains_key(key),
{
    lemma_skip_tail(items, 0, key);
    assert(items.take(0) =~= Seq::<StoredEntry>::empty());
}

/// A host in memory.
pub struct MemoryHost {
    entries: Vec<StoredEntry>,
    initial_lifetime: u32,
    everyone_authorized: bool,
    authorized: Vec<Address>,
    sequence: u32,
    events: Vec<Event>,
    code: Vec<u8>,
}

impl MemoryHost {
    /// A host that stores nothing, at ledger sequence zero, in an invocation
    /// that nobody has authorized.
    pub fn new() -> (host: Self)
        ensures
            host@.entries == Map::<KeyView, Slot>::empty(),
            host@.initial_lifetime == DEFAULT_INITIAL_LIFETIME,
            host@.authorized == Set::<Seq<u8>>::empty(),
            host@.sequence == 0,
            host@.events == Seq::<EventView>::empty(),
            host@.code == Seq::<u8>::empty(),
    {
        let host = MemoryHost {
            entries: Vec::new(),
            initial_lifetime: DEFAULT_INITIAL_LIFETIME,
            everyone_authorized: false,
            authorized: Vec::new(),
            sequence: 0,
            events: Vec::new(),
            code: Vec::new(),
        };
        assert(host@.authorized =~= Set::<Seq<u8>>::empty());
        assert(host@.events =~= Seq::<EventView>::empty());
        host
    }

    /// From now on every account counts as having authorized the invocation.
    pub fn mock_all_auths(&mut self)
        ensures
            final(self)@ == (HostState { authorized: Set::full(), ..old(self)@ }),
    {
        self.everyone_authorized = true;
        assert(self@.authorized =~= Set::<Seq<u8>>::full());
    }

    /// From now on `who` counts as having authorized the invocation.
    pub fn authorize(&mut self, who: Address)
        ensures
            final(self)@ == (HostState {
                authorized: old(self)@.authorized.insert(who@),
                ..old(self)@
            }),
    {
        let ghost before = self.authorized@;
        self.authorized.push(who);
        assert(self@.authorized =~= old(self)@.authorized.insert(who@)) by {
            assert forall|a: Seq<u8>| #[trigger]
                old(self)@.authorized.insert(who@).contains(a) implies self@.authorized.contains(
                a,
            ) by {
                if a == who@ {
                    assert(self.authorized@[before.len() as int]@ == a);
                } else if !self.everyone_authorized {
                    let i = choose|i: int| 0 <= i < before.len() && (#[trigger] before[i])@ == a;
                    assert(self.authorized@[i]@ == a);
                }
            }
            assert forall|a: Seq<u8>| #[trigger]
                self@.authorized.contains(a) implies old(self)@.authorized.insert(who@).contains(
                a,
            ) by {
                if !self.everyone_authorized {
                    let i = choose|i: int|
                        0 <= i < self.authorized@.len() && (#[trigger] self.authorized@[i])@ == a;
                    if i < before.len() {
                        assert(before[i]@ == a);
                    }
                }
            }
        }
    }

    /// From now on nobody counts as having authorized the invocation.
    pub fn clear_auths(&mut self)
        ensures
            final(self)@ == (HostState { authorized: Set::empty(), ..old(self)@ }),
    {
        self.everyone_authorized = false;
        self.authorized = Vec::new();
        assert(self@.authorized =~= Set::<Seq<u8>>::empty());
    }

    /// Moves the ledger to `sequence`.
    pub fn set_sequence(&mut self, sequence: u32)
        ensures
            final(self)@ == (HostState { sequence, ..old(self)@ }),
    {
        self.sequence = sequence;
    }

    /// Makes `lifetime` the lifetime that a newly created entry starts with.
    pub fn set_initial_lifetime(&mut self, lifetime: u32)
        ensures
            final(self)@ == (HostState { initial_lifetime: lifetime, ..old(self)@ }),
    {
        self.initial_lifetime = lifetime;
    }

    /// The lifetime left to the entry under `key`, if there is one.
    pub fn lifetime(&self, key: &ProfileKey) -> (lifetime: Option<u32>)
        ensures
            lifetime == self@.lifetime(key@),
    {
        match self.find(key) {
            Some(i) => Some(self.entries[i].lifetime),
            None => None,
        }
    }

    /// The events published so far, oldest first.
    pub fn events(&self) -> (events: &Vec<Event>)
        ensures
            events@.len() == self@.events.len(),
            forall|i: int| 0 <= i < events@.len() ==> (#[trigger] events@[i])@ == self@.events[i],
    {
        &self.events
    }

    /// The hash of the installed code.
    pub fn code(&self) -> (code: &Vec<u8>)
        ensures
            code@ == self@.code,
    {
        &self.code
    }

    /// The place of the entry that counts for `key`.
    fn find(&self, key: &ProfileKey) -> (place: Option<usize>)
        ensures
            match place {
                Some(i) => i < self.entries@.len() && self@.has(key@) && self@.entries[key@]
                    == self.entries@[i as int].slot(),
                None => !self@.has(key@),
            },
    {
        let mut i: usize = self.entries.len();
        while i > 0
            invariant
                i <= self.entries@.len(),
                forall|j: int| i <= j < self.entries@.len() ==> (#[trigger] self.entries@[j]).key@
                    != key@,
            decreases i,
        {
            i -= 1;
            if self.entries[i].key.equals(key) {
                proof {
                    lemma_found(self.entries@, i as int, key@);
                }
                return Some(i);
            }
        }
        proof {
            lemma_not_found(self.entries@, key@);
        }
        None
    }

    /// Drops every entry with the key `key`.
    fn discard(&mut self, key: &ProfileKey)
        ensures
            final(self)@ == old(self)@.erase(key@),
    {
        let mut kept: Vec<StoredEntry> = Vec::new();
        let mut i: usize = 0;
        while i < self.entries.len()
            invariant
                i <= self.entries@.len(),
                entries_view(kept@) == entries_view(self.entries@.take(i as int)).remove(key@),
            decreases self.entries.len() - i,
        {
            let ghost head = self.entries@.take(i as int);
            let ghost next = self.entries@.take(i as int + 1);
            assert(next.drop_last() =~= head);
            assert(next.last() == self.entries@[i as int]);
            if !self.entries[i].key.equals(key) {
                let copy = self.entries[i].duplicate();
                let ghost before = kept@;
                kept.push(copy);
                assert(kept@.drop_last() =~= before);
                assert(entries_view(kept@) =~= entries_view(next).remove(key@));
            } else {
                assert(entries_view(kept@) =~= entries_view(next).remove(key@));
            }
            i += 1;
        }
        assert(self.entries@.take(self.entries@.len() as int) =~= self.entries@);
        self.entries = kept;
    }

    /// Puts an entry at the end of the list, where it counts for its key.
    fn append(&mut self, key: ProfileKey, value: StorageValue, lifetime: u32)
        ensures
            final(self)@ == (HostState {
                entries: old(self)@.entries.insert(key@, Slot { value: value@, lifetime }),
                ..old(self)@
            }),
    {
        let ghost before = self.entries@;
        self.entries.push(StoredEntry { key, value, lifetime });
        assert(self.entries@.drop_last() =~= before);
    }
}

impl Host for MemoryHost {
    closed spec fn view(&self) -> HostState {
        HostState {
            entries: entries_view(self.entries@),
            initial_lifetime: self.initial_lifetime,
            authorized: authorized_view(self.everyone_authorized, self.authorized@),
            sequence: self.sequence,
            events: events_view(self.events@),
            code: self.code@,
        }
    }

    fn has(&self, key: &ProfileKey) -> (present: bool) {
        self.find(key).is_some()
    }

    fn get(&self, key: &ProfileKey) -> (value: Option<StorageValue>) {
        match self.find(key) {
            Some(i) => Some(self.entries[i].value.clone()),
            None => None,
        }
    }

    fn set(&mut self, key: &ProfileKey, value: StorageValue) {
        let lifetime = match self.find(key) {
            Some(i) => self.entries[i].lifetime,
            None => self.initial_lifetime,
        };
        self.discard(key);
        self.append(key.clone(), value, lifetime);
        assert(self@.entries =~= old(self)@.write(key@, value@).entries);
    }

    fn remove(&mut self, key: &ProfileKey) {
        self.discard(key);
    }

    fn extend_ttl(&mut self, key: &ProfileKey, threshold: u32, extend_to: u32) {
        match self.find(key) {
            Some(i) => {
                if self.entries[i].lifetime < threshold {
                    let value = self.entries[i].value.clone();
                    self.discard(key);
                    self.append(key.clone(), value, extend_to);
                    assert(self@.entries =~= old(self)@.extend(
                        key@,
                        threshold,
                        extend_to,
                    ).entries);
                }
            },
            None => {},
        }
    }

    fn require_auth(&self, who: &Address) -> (authorized: bool) {
        if self.everyone_authorized {
            return true;
        }
        let mut i: usize = 0;
        while i < self.authorized.len()
            invariant
                i <= self.authorized@.len(),
                forall|j: int| 0 <= j < i ==> (#[trigger] self.authorized@[j])@ != who@,
            decreases self.authorized.len() - i,
        {
            if self.authorized[i].equals(who) {
                return true;
            }
            i += 1;
        }
        false
    }

    fn ledger_sequence(&self) -> (sequence: u32) {
        self.sequence
    }

    fn publish(&mut self, event: Event) {
        self.events.push(event);
        assert(self@.events =~= old(self)@.events.push(event@));
    }

    fn update_code(&mut self, hash: &[u8]) {
        self.code = crate::bytes::copy_bytes(hash);
    }
}

} // verus!
