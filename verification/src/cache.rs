//! The response cache: one stored answer per key, each with the instant
//! from which it counts as stale. Nothing is swept: a stale entry stays until
//! a fresh answer for its key replaces it.

use vstd::prelude::*;
use crate::question::{CacheKey, KeyModel};
use crate::rewrite::{answers, is_answer_to};
use crate::wire::same_bytes;

verus! {

/// What a cache entry is, as mathematics.
pub struct EntryModel {
    /// The stored answer, in wire form.
    pub packet: Seq<u8>,
    /// The first instant at which the entry is stale.
    pub expires_at: u64,
}

impl EntryModel {
    /// An entry is stale from its expiry instant on.
    pub open spec fn is_expired(self, now: u64) -> bool {
        now >= self.expires_at
    }
}

/// A stored answer. Instants are whole seconds on a clock of the caller's
/// choice that never runs backward.
#[derive(Clone, Debug, PartialEq, Eq)]
pub struct CacheEntry {
    /// The stored answer, in wire form.
    pub packet: Vec<u8>,
    /// The first instant at which the entry is stale.
    pub expires_at: u64,
}

impl View for CacheEntry {
    type V = EntryModel;

    open spec fn view(&self) -> EntryModel {
        EntryModel { packet: self.packet@, expires_at: self.expires_at }
    }
}

impl CacheEntry {
    /// Whether the entry is stale at `now`.
    pub fn is_expired(&self, now: u64) -> (stale: bool)
        ensures
            stale == self@.is_expired(now),
    {
        now >= self.expires_at
    }
}

/// Whether every entry of `entries` is an answer to the question that it is
/// stored under.
pub open spec fn sound(entries: Map<KeyModel, EntryModel>) -> bool {
    forall|k: KeyModel| #[trigger] entries.contains_key(k) ==> answers(entries[k].packet, k)
}

/// What `entries` holds for `key`.
pub open spec fn entry_of(entries: Map<KeyModel, EntryModel>, key: KeyModel) -> Option<
    EntryModel,
> {
    if entries.contains_key(key) {
        Some(entries[key])
    } else {
        None
    }
}

/// What a found entry is, as mathematics.
pub open spec fn found_model(found: Option<&CacheEntry>) -> Option<EntryModel> {
    match found {
        Some(entry) => Some(entry@),
        None => None,
    }
}

/// What the cache holds for `key` after an answer was stored under it at
/// `now` with a lifetime of `ttl` seconds.
pub open spec fn stored(packet: Seq<u8>, ttl: u32, now: u64) -> EntryModel {
    EntryModel { packet, expires_at: (now + ttl) as u64 }
}

struct Slot {
    key: CacheKey,
    entry: CacheEntry,
}

spec fn slots_wf(slots: Seq<Slot>) -> bool {
    &&& forall|i: int, j: int|
        0 <= i < j < slots.len() ==> (#[trigger] slots[i]).key@ != (#[trigger] slots[j]).key@
    &&& forall|i: int|
        0 <= i < slots.len() ==> answers((#[trigger] slots[i]).entry.packet@, slots[i].key@)
}

spec fn holds(slots: Seq<Slot>, k: KeyModel, i: int) -> bool {
    0 <= i < slots.len() && slots[i].key@ == k
}

spec fn slots_map(slots: Seq<Slot>) -> Map<KeyModel, EntryModel> {
    Map::new(
        |k: KeyModel| exists|i: int| holds(slots, k, i),
        |k: KeyModel| slots[choose|i: int| holds(slots, k, i)].entry@,
    )
}

proof fn lemma_slot_in_map(slots: Seq<Slot>, i: int)
    requires
        slots_wf(slots),
        0 <= i < slots.len(),
    ensures
        slots_map(slots).contains_key(slots[i].key@),
        slots_map(slots)[slots[i].key@] == slots[i].entry@,
{
    assert(holds(slots, slots[i].key@, i));
}

proof fn lemma_map_sound(slots: Seq<Slot>)
    requires
        slots_wf(slots),
    ensures
        sound(slots_map(slots)),
{
    assert forall|k: KeyModel| #[trigger] slots_map(slots).contains_key(k) implies answers(
        slots_map(slots)[k].packet,
        k,
    ) by {
        let i = choose|i: int| holds(slots, k, i);
        lemma_slot_in_map(slots, i);
    }
}

proof fn lemma_replaced(old_slots: Seq<Slot>, at: int, slot: Slot)
    requires
        slots_wf(old_slots),
        0 <= at < old_slots.len(),
        old_slots[at].key@ == slot.key@,
        answers(slot.entry.packet@, slot.key@),
    ensures
        slots_wf(old_slots.update(at, slot)),
        slots_map(old_slots.update(at, slot)) == slots_map(old_slots).insert(
            slot.key@,
            slot.entry@,
        ),
{
    let new_slots = old_slots.update(at, slot);
    let target = slots_map(old_slots).insert(slot.key@, slot.entry@);
    assert forall|k: KeyModel| slots_map(new_slots).contains_key(k) <==> target.contains_key(
        k,
    ) by {
        if slots_map(new_slots).contains_key(k) {
            let i = choose|i: int| holds(new_slots, k, i);
            if k != slot.key@ {
                assert(holds(old_slots, k, i));
            }
        }
        if target.contains_key(k) {
            if k == slot.key@ {
                assert(holds(new_slots, k, at));
            } else {
                let i = choose|i: int| holds(old_slots, k, i);
                assert(holds(new_slots, k, i));
            }
        }
    }
    assert forall|k: KeyModel| slots_map(new_slots).contains_key(k) implies slots_map(
        new_slots,
    )[k] == target[k] by {
        let i = choose|i: int| holds(new_slots, k, i);
        lemma_slot_in_map(new_slots, i);
        if k != slot.key@ {
            lemma_slot_in_map(old_slots, i);
        }
    }
}

proof fn lemma_appended(old_slots: Seq<Slot>, slot: Slot)
    requires
        slots_wf(old_slots),
        forall|i: int| 0 <= i < old_slots.len() ==> (#[trigger] old_slots[i]).key@ != slot.key@,
        answers(slot.entry.packet@, slot.key@),
    ensures
        slots_wf(old_slots.push(slot)),
        slots_map(old_slots.push(slot)) == slots_map(old_slots).insert(slot.key@, slot.entry@),
{
    let new_slots = old_slots.push(slot);
    let target = slots_map(old_slots).insert(slot.key@, slot.entry@);
    assert forall|k: KeyModel| slots_map(new_slots).contains_key(k) <==> target.contains_key(
        k,
    ) by {
        if slots_map(new_slots).contains_key(k) {
            let i = choose|i: int| holds(new_slots, k, i);
            if k != slot.key@ {
                assert(holds(old_slots, k, i));
            }
        }
        if target.contains_key(k) {
            if k == slot.key@ {
                assert(holds(new_slots, k, old_slots.len() as int));
            } else {
                let i = choose|i: int| holds(old_slots, k, i);
                assert(holds(new_slots, k, i));
            }
        }
    }
    assert forall|k: KeyModel| slots_map(new_slots).contains_key(k) implies slots_map(
        new_slots,
    )[k] == target[k] by {
        let i = choose|i: int| holds(new_slots, k, i);
        lemma_slot_in_map(new_slots, i);
        if k != slot.key@ {
            lemma_slot_in_map(old_slots, i);
        }
    }
}

/// Whether two keys are the same key.
pub fn same_key(a: &CacheKey, b: &CacheKey) -> (same: bool)
    ensures
        same == (a@ == b@),
{
    a.qtype == b.qtype && a.qclass == b.qclass && a.dnssec_ok == b.dnssec_ok && same_bytes(
        a.name.as_slice(),
        b.name.as_slice(),
    )
}

/// The response cache. To its user it is a map from keys to entries in
/// which every entry is an answer to the question it is stored under.
pub struct Cache {
    slots: Vec<Slot>,
}

impl View for Cache {
    type V = Map<KeyModel, EntryModel>;

    closed spec fn view(&self) -> Map<KeyModel, EntryModel> {
        slots_map(self.slots@)
    }
}

impl Cache {
    #[verifier::type_invariant]
    spec fn well_formed(&self) -> bool {
        slots_wf(self.slots@)
    }

    /// An empty cache.
    pub fn new() -> (cache: Cache)
        ensures
            cache@ == Map::<KeyModel, EntryModel>::empty(),
    {
        Cache { slots: Vec::new() }
    }

    fn position(&self, key: &CacheKey) -> (at: Option<usize>)
        ensures
            match at {
                Some(i) => holds(self.slots@, key@, i as int),
                None => forall|i: int| !holds(self.slots@, key@, i),
            },
    {
        let mut i: usize = 0;
        while i < self.slots.len()
            invariant
                i <= self.slots@.len(),
                forall|j: int| 0 <= j < i ==> !holds(self.slots@, key@, j),
            decreases self.slots@.len() - i,
        {
            if same_key(&self.slots[i].key, key) {
                return Some(i);
            }
            i = i + 1;
        }
        None
    }

    /// The entry stored under `key`, stale or not: whether it is still good
    /// is for the caller to ask of it. What comes back is a shared view of
    /// the stored entry, which nothing can change through it.
    pub fn lookup(&self, key: &CacheKey) -> (found: Option<&CacheEntry>)
        ensures
            found_model(found) == entry_of(self@, key@),
            sound(self@),
    {
        proof {
            use_type_invariant(&*self);
            lemma_map_sound(self.slots@);
        }
        match self.position(key) {
            Some(i) => {
                proof {
                    lemma_slot_in_map(self.slots@, i as int);
                }
                Some(&self.slots[i].entry)
            },
            None => None,
        }
    }

    /// Stores `packet` under `key`, in place of whatever was stored under it,
    /// to go stale `ttl` seconds after `now`.
    pub fn insert(&mut self, key: CacheKey, packet: Vec<u8>, ttl: u32, now: u64)
        requires
            answers(packet@, key@),
            now + ttl <= u64::MAX,
        ensures
            final(self)@ == old(self)@.insert(key@, stored(packet@, ttl, now)),
            sound(final(self)@),
    {
        proof {
            use_type_invariant(&*self);
        }
        let at = self.position(&key);
        let slot = Slot { key, entry: CacheEntry { packet, expires_at: now + ttl as u64 } };
        let mut slots: Vec<Slot> = Vec::new();
        std::mem::swap(&mut slots, &mut self.slots);
        match at {
            Some(i) => {
                proof {
                    lemma_replaced(slots@, i as int, slot);
                }
                slots.set(i, slot);
            },
            None => {
                proof {
                    assert forall|i: int| 0 <= i < slots@.len() implies (#[trigger] slots@[i]).key@
                        != slot.key@ by {
                        assert(!holds(slots@, slot.key@, i));
                    }
                    lemma_appended(slots@, slot);
                }
                slots.push(slot);
            },
        }
        proof {
            lemma_map_sound(slots@);
        }
        self.slots = slots;
    }
}

impl Cache {
    /// Stores `packet` under `key` as `insert` does, if it is an answer to
    /// the question that `key` stands for and its expiry instant can be
    /// told; else leaves the cache as it is. Says which of the two it did.
    pub fn insert_checked(&mut self, key: CacheKey, packet: Vec<u8>, ttl: u32, now: u64) -> (accepted:
        bool)
        ensures
            accepted == (answers(packet@, key@) && now + ttl <= u64::MAX),
            final(self)@ == if accepted {
                old(self)@.insert(key@, stored(packet@, ttl, now))
            } else {
                old(self)@
            },
            sound(final(self)@),
    {
        if !is_answer_to(packet.as_slice(), &key) || now > u64::MAX - ttl as u64 {
            proof {
                use_type_invariant(&*self);
                lemma_map_sound(self.slots@);
            }
            return false;
        }
        self.insert(key, packet, ttl, now);
        true
    }
}

/// How an entry ages: stored at `now` with a lifetime of `ttl` seconds, it
/// is what a lookup of its key finds, whatever was stored there before; it
/// is good at every instant before `now + ttl`, the last of them
/// `now + ttl - 1`, and stale at `now + ttl` and ever after. Storing it
/// leaves every other key as it was, so a key that was absent stays absent.
pub proof fn lemma_stored_entry_ages(
    entries: Map<KeyModel, EntryModel>,
    key: KeyModel,
    packet: Seq<u8>,
    ttl: u32,
    now: u64,
    at: u64,
    other: KeyModel,
)
    requires
        now + ttl <= u64::MAX,
    ensures
        ({
            let after = entries.insert(key, stored(packet, ttl, now));
            &&& entry_of(after, key) == Some(stored(packet, ttl, now))
            &&& after[key].packet == packet
            &&& after[key].is_expired(at) <==> at >= now + ttl
            &&& at == now + ttl - 1 ==> !after[key].is_expired(at)
            &&& at == now + ttl ==> after[key].is_expired(at)
            &&& other != key ==> entry_of(after, other) == entry_of(entries, other)
        }),
{
}

/// Nothing is found in an empty cache.
pub proof fn lemma_empty_cache_holds_nothing(key: KeyModel)
    ensures
        entry_of(Map::<KeyModel, EntryModel>::empty(), key) is None,
{
}

} // verus!
