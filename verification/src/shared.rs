//! The response cache as many threads share it: a fixed number of shards,
//! each a cache of its own behind its own reader-writer lock. A key lives in
//! the shard that its hash picks, so readers never wait for each other and a
//! writer holds up only the readers of its own shard.

use vstd::prelude::*;
use vstd::rwlock::{ReadHandle, RwLock, RwLockPredicate};
use crate::cache::{Cache, CacheEntry};
use crate::question::{CacheKey, KeyModel};
use crate::rewrite::{answers, is_answer_to};
use crate::wire::{copy_bytes, high_byte, low_byte, split_be16};

verus! {

/// The starting value of the key hash.
pub const HASH_SEED: u64 = 0xcbf2_9ce4_8422_2325;

/// The multiplier of the key hash.
pub const HASH_PRIME: u64 = 0x0000_0100_0000_01b3;

/// One step of the key hash: the byte is folded in, and the product taken
/// modulo 2^64.
pub open spec fn mixed(h: u64, b: u8) -> u64 {
    (((h ^ (b as u64)) * HASH_PRIME) % 0x1_0000_0000_0000_0000) as u64
}

/// The hash of a run of bytes, continued from `h`.
pub open spec fn hashed(h: u64, bytes: Seq<u8>) -> u64
    decreases bytes.len(),
{
    if bytes.len() == 0 {
        h
    } else {
        mixed(hashed(h, bytes.drop_last()), bytes.last())
    }
}

/// The hash of a key: of its name, then of its type, its class and its
/// DNSSEC-OK bit.
pub open spec fn key_hash(key: KeyModel) -> u64 {
    let h = hashed(HASH_SEED, key.name);
    let h = mixed(mixed(h, high_byte(key.qtype)), low_byte(key.qtype));
    let h = mixed(mixed(h, high_byte(key.qclass)), low_byte(key.qclass));
    mixed(
        h,
        if key.dnssec_ok {
            1
        } else {
            0
        },
    )
}

/// The shard, out of `shards`, that a key lives in.
pub open spec fn shard_of(key: KeyModel, shards: nat) -> nat {
    (key_hash(key) as nat) % shards
}

fn mix(h: u64, b: u8) -> (out: u64)
    ensures
        out == mixed(h, b),
{
    let folded: u64 = h ^ (b as u64);
    let wide: u128 = (folded as u128) * (HASH_PRIME as u128);
    (wide % 0x1_0000_0000_0000_0000u128) as u64
}

/// Computes the shard, out of `shards`, that a key lives in.
pub fn shard_index(key: &CacheKey, shards: usize) -> (index: usize)
    requires
        shards > 0,
    ensures
        index == shard_of(key@, shards as nat),
        index < shards,
{
    let mut h: u64 = HASH_SEED;
    let mut i: usize = 0;
    while i < key.name.len()
        invariant
            i <= key.name@.len(),
            h == hashed(HASH_SEED, key.name@.subrange(0, i as int)),
        decreases key.name@.len() - i,
    {
        assert(key.name@.subrange(0, i + 1).drop_last() =~= key.name@.subrange(0, i as int));
        h = mix(h, key.name[i]);
        i = i + 1;
    }
    assert(key.name@.subrange(0, key.name@.len() as int) =~= key.name@);
    let (type_hi, type_lo) = split_be16(key.qtype);
    let (class_hi, class_lo) = split_be16(key.qclass);
    h = mix(mix(h, type_hi), type_lo);
    h = mix(mix(h, class_hi), class_lo);
    h = mix(
        h,
        if key.dnssec_ok {
            1
        } else {
            0
        },
    );
    (h % (shards as u64)) as usize
}

/// What a shard's lock lets in: every cache. That a cache holds answers to
/// its keys only is an invariant of the cache itself.
pub struct AnyCache;

impl RwLockPredicate<Cache> for AnyCache {
    open spec fn inv(self, v: Cache) -> bool {
        true
    }
}

/// The response cache that listeners and resolvers share.
pub struct SharedCache {
    shards: Vec<RwLock<Cache, AnyCache>>,
}

impl SharedCache {
    #[verifier::type_invariant]
    spec fn well_formed(&self) -> bool {
        self.shards@.len() > 0
    }

    /// The number of shards.
    pub closed spec fn shard_count(&self) -> nat {
        self.shards@.len()
    }

    /// An empty cache of `shards` shards; of one, where `shards` is zero.
    pub fn new(shards: usize) -> (cache: SharedCache)
        ensures
            cache.shard_count() == if shards == 0 {
                1
            } else {
                shards as nat
            },
    {
        let count: usize = if shards == 0 {
            1
        } else {
            shards
        };
        let mut locks: Vec<RwLock<Cache, AnyCache>> = Vec::new();
        let mut i: usize = 0;
        while i < count
            invariant
                i <= count,
                locks@.len() == i,
            decreases count - i,
        {
            locks.push(RwLock::new(Cache::new(), Ghost(AnyCache)));
            i = i + 1;
        }
        SharedCache { shards: locks }
    }

    /// Takes the read lock of the shard that `key` lives in. The caller
    /// gives it back with `release_read`.
    pub(crate) fn read_shard(&self, key: &CacheKey) -> (shard: ReadHandle<'_, Cache, AnyCache>)
        ensures
            shard.rwlock() == self.lock_of(key@),
    {
        proof { use_type_invariant(self); }
        self.shards[shard_index(key, self.shards.len())].acquire_read()
    }

    /// A copy of the entry stored under `key`, stale or not. Whatever other
    /// threads store meanwhile, what comes back is one whole entry, and an
    /// answer to the question that `key` stands for.
    pub fn lookup(&self, key: &CacheKey) -> (found: Option<CacheEntry>)
        ensures
            found matches Some(entry) ==> answers(entry.packet@, key@),
    {
        let shard = self.read_shard(key);
        let found = match shard.borrow().lookup(key) {
            Some(entry) => Some(
                CacheEntry {
                    packet: copy_bytes(entry.packet.as_slice()),
                    expires_at: entry.expires_at,
                },
            ),
            None => None,
        };
        shard.release_read();
        found
    }

    /// Stores `packet` under `key`, in place of whatever is stored under it,
    /// to go stale `ttl` seconds after `now`. Other threads may store a
    /// newer answer under the same key at any moment after, so nothing is
    /// said here of what a later lookup finds.
    pub fn insert(&self, key: CacheKey, packet: Vec<u8>, ttl: u32, now: u64)
        requires
            answers(packet@, key@),
            now + ttl <= u64::MAX,
    {
        proof {
            use_type_invariant(self);
        }
        let index: usize = shard_index(&key, self.shards.len());
        let (mut cache, shard) = self.shards[index].acquire_write();
        cache.insert(key, packet, ttl, now);
        shard.release_write(cache);
    }

    /// Stores `packet` under `key` as `insert` does, if it is an answer to
    /// the question that `key` stands for and its expiry instant can be
    /// told; else stores nothing. Says which of the two it did.
    pub fn insert_checked(&self, key: CacheKey, packet: Vec<u8>, ttl: u32, now: u64) -> (accepted:
        bool)
        ensures
            accepted == (answers(packet@, key@) && now + ttl <= u64::MAX),
    {
        if !is_answer_to(packet.as_slice(), &key) || now > u64::MAX - ttl as u64 {
            return false;
        }
        self.insert(key, packet, ttl, now);
        true
    }

    /// The lock of the shard that `key` lives in: the one that the key's
    /// hash picks out of the shards there are.
    pub closed spec fn lock_of(&self, key: KeyModel) -> RwLock<Cache, AnyCache> {
        self.shards@[shard_of(key, self.shards@.len()) as int]
    }
}

} // verus!
