//! A fixed-capacity, concurrent, sharded cache in front of a pluggable
//! loading strategy.
//!
//! The cache owns a fixed array of slots, each guarded by its own
//! reader-writer lock, and maps a key to a slot by hashing. A read takes a
//! shared lock and returns the cached value if it conforms to the key;
//! otherwise the slot is reloaded under an exclusive lock. All loading is
//! serialized through one process-wide lock around the strategy, so a
//! strategy may keep internal mutable state without locking of its own.

use core::marker::PhantomData;
use vstd::prelude::*;
use vstd::rwlock::{ReadHandle, RwLock, WriteHandle};

pub mod write_batch;

pub use write_batch::WriteBatch;

verus! {

/// A cache strategy implementation. Provides the cache's key, value and
/// error types, a mechanism to load new values into the cache, and a
/// conformance test that detects key conflicts.
pub trait CacheStrategy {
    type Key;

    type Val;

    type Err;

    /// Whether `val` legitimately belongs to `key`. A stored value for which
    /// this is false is a cache key conflict and is reloaded on access.
    spec fn spec_match(key: Self::Key, val: Self::Val) -> bool;

    /// Loads the value for the given key. Runs with exclusive access to the
    /// strategy, so implementations may mutate their own state freely. A
    /// value just produced for `key` must conform to `key`: the cache relies
    /// on this without re-verifying it after a fresh load.
    fn load(&mut self, key: &Self::Key) -> (r: Result<Self::Val, Self::Err>)
        ensures
            r is Ok ==> Self::spec_match(*key, r->Ok_0),
    ;

    /// Checks if the given key corresponds to the given value. If not (i.e.,
    /// `false` returned), one assumes a cache key conflict.
    fn match_kv(key: &Self::Key, val: &Self::Val) -> (r: bool)
        ensures
            r == Self::spec_match(*key, *val),
    ;
}

/// The hashing and equality discipline for cache keys. The hash decides
/// which slot a key addresses; the equality test is what the write batch
/// uses to recognise a key it already holds.
pub trait KeyHasher<K> {
    /// The hash as a mathematical function of the key.
    spec fn hash_of(key: K) -> u64;

    /// Computes the hash of a key.
    fn hash(key: &K) -> (r: u64)
        ensures
            r == Self::hash_of(*key),
    ;

    /// Decides equality of two keys.
    fn key_eq(a: &K, b: &K) -> (r: bool)
        ensures
            r == (*a == *b),
    ;
}

/// The cache over a given [`CacheStrategy`].
#[verifier::reject_recursive_types(S)]
pub struct Cache<S, H> where S: CacheStrategy, H: KeyHasher<S::Key> {
    entries: Vec<RwLock<Option<S::Val>, spec_fn(Option<S::Val>) -> bool>>,
    strategy: RwLock<S, spec_fn(S) -> bool>,
    hasher: PhantomData<H>,
}

impl<S, H> Cache<S, H> where S: CacheStrategy, H: KeyHasher<S::Key> {
    /// Number of slots; fixed at construction.
    pub closed spec fn capacity(&self) -> nat {
        self.entries@.len()
    }

    /// The cache is well-formed: it has at least one slot, every slot lock
    /// admits any optional value (a slot may hold a value that no longer
    /// conforms, until an access detects the conflict and reloads), and the
    /// strategy lock admits any strategy state.
    pub closed spec fn wf(&self) -> bool {
        &&& self.entries@.len() > 0
        &&& forall|i: int, v: Option<S::Val>|
            0 <= i < self.entries@.len() ==> #[trigger] self.entries@[i].inv(v)
        &&& forall|s: S| #[trigger] self.strategy.inv(s)
    }

    /// The slot index a key addresses: its hash modulo the capacity.
    pub open spec fn spec_slot(&self, key: S::Key) -> int {
        H::hash_of(key) as int % self.capacity() as int
    }

    /// Every key addresses a valid slot: its slot index lies within the
    /// capacity. Two keys contend for one slot exactly when their hashes
    /// agree modulo the capacity.
    pub proof fn lemma_slot_in_range(&self, key: S::Key)
        requires
            self.wf(),
        ensures
            0 <= self.spec_slot(key) < self.capacity(),
    {
    }

    /// Constructs a new cache with `CAPACITY` slots, all initially empty.
    pub fn new<const CAPACITY: usize>(strategy: S) -> (c: Cache<S, H>)
        requires
            CAPACITY > 0,
        ensures
            c.wf(),
            c.capacity() == CAPACITY,
    {
        let mut entries: Vec<RwLock<Option<S::Val>, spec_fn(Option<S::Val>) -> bool>> =
            Vec::new();
        let mut i: usize = 0;
        while i < CAPACITY
            invariant
                i <= CAPACITY,
                entries@.len() == i,
                forall|j: int, v: Option<S::Val>|
                    0 <= j < i ==> #[trigger] entries@[j].inv(v),
            decreases CAPACITY - i,
        {
            entries.push(RwLock::new(None, Ghost(|v: Option<S::Val>| true)));
            i = i + 1;
        }
        Cache {
            entries,
            strategy: RwLock::new(strategy, Ghost(|s: S| true)),
            hasher: PhantomData,
        }
    }

    /// Computes the slot index for the given key.
    fn slot_index(&self, key: &S::Key) -> (i: usize)
        requires
            self.wf(),
        ensures
            i == self.spec_slot(*key),
            i < self.capacity(),
    {
        let h = H::hash(key);
        let m = h % (self.entries.len() as u64);
        m as usize
    }

    /// Loads a value for the given key through the strategy, which is held
    /// exclusively for the duration of the call: only one load runs at any
    /// time, regardless of which slot it targets.
    fn load(&self, key: &S::Key) -> (r: Result<S::Val, S::Err>)
        requires
            self.wf(),
        ensures
            r is Ok ==> S::spec_match(*key, r->Ok_0),
    {
        let (mut strategy, handle) = self.strategy.acquire_write();
        let r = strategy.load(key);
        handle.release_write(strategy);
        r
    }

    /// Acquires the value by the given key, for read.
    ///
    /// On a hit the returned guard shares the slot with other readers. On a
    /// miss or a conflict, the shared lock is released, the slot is reloaded
    /// under an exclusive lock, and a fresh shared lock is returned. If a
    /// concurrent writer takes the slot for another key between the reload
    /// and the shared re-acquisition, the slot is secured exclusively once
    /// more, so that the returned guard always holds a conforming value.
    pub fn read<'a>(&'a self, key: &S::Key) -> (r: Result<ReadRef<'a, S::Val>, S::Err>)
        requires
            self.wf(),
        ensures
            r is Ok ==> r->Ok_0.wf() && S::spec_match(*key, r->Ok_0.value()),
    {
        let i = self.slot_index(key);
        let lock = &self.entries[i];

        // Optimistic phase: probe the slot under a shared lock.
        let handle = lock.acquire_read();
        let hit = match handle.borrow() {
            Some(v) => S::match_kv(key, v),
            None => false,
        };
        if hit {
            return Ok(ReadRef { inner: ReadRefInner::Shared(handle) });
        }

        // One needs to unlock the read guard to acquire the write guard to
        // perform the load. Otherwise, it'd deadlock.
        handle.release_read();
        let (prev, wh) = lock.acquire_write();
        match self.load(key) {
            Ok(v) => wh.release_write(Some(v)),
            Err(e) => {
                // A failed load leaves the slot exactly as it was.
                wh.release_write(prev);
                return Err(e);
            },
        }

        // Take a new shared lock to return.
        let handle = lock.acquire_read();
        let hit = match handle.borrow() {
            Some(v) => S::match_kv(key, v),
            None => false,
        };
        if hit {
            return Ok(ReadRef { inner: ReadRefInner::Shared(handle) });
        }
        handle.release_read();

        // A writer for a colliding key overtook us between the reload and
        // the shared re-acquisition. Hold the slot exclusively instead: the
        // guard then cannot be invalidated before it is returned.
        let (prev, wh) = lock.acquire_write();
        let hit = match &prev {
            Some(v) => S::match_kv(key, v),
            None => false,
        };
        if hit {
            let v = match prev {
                Some(v) => v,
                None => vstd::pervasive::unreached(),
            };
            return Ok(ReadRef { inner: ReadRefInner::Owned(v, wh) });
        }
        match self.load(key) {
            Ok(v) => Ok(ReadRef { inner: ReadRefInner::Owned(v, wh) }),
            Err(e) => {
                wh.release_write(prev);
                Err(e)
            },
        }
    }

    /// Acquires the value by the given key, for write.
    ///
    /// The exclusive lock is taken directly, with no optimistic phase, since
    /// the caller intends to mutate. The emptiness/conformance test runs
    /// while the exclusive lock is already held, so a caller that lost a
    /// race finds the slot populated and skips the load entirely.
    pub fn write<'a>(&'a self, key: &S::Key) -> (r: Result<WriteRef<'a, S::Val>, S::Err>)
        requires
            self.wf(),
        ensures
            r is Ok ==> r->Ok_0.wf() && S::spec_match(*key, r->Ok_0.value()),
    {
        let i = self.slot_index(key);
        let lock = &self.entries[i];
        let (prev, wh) = lock.acquire_write();
        let hit = match &prev {
            Some(v) => S::match_kv(key, v),
            None => false,
        };
        if hit {
            let v = match prev {
                Some(v) => v,
                None => vstd::pervasive::unreached(),
            };
            return Ok(WriteRef { val: v, handle: wh });
        }
        match self.load(key) {
            Ok(v) => Ok(WriteRef { val: v, handle: wh }),
            Err(e) => {
                // A failed load leaves the slot exactly as it was.
                wh.release_write(prev);
                Err(e)
            },
        }
    }

    /// Returns a copy of the current strategy: a clone, in the sense of
    /// `S::Clone`, of the strategy state at the moment the strategy lock
    /// was held.
    pub fn clone_strategy(&self) -> (s: S) where S: Clone
        requires
            self.wf(),
        ensures
            exists|s0: S| #[trigger] call_ensures(S::clone, (&s0,), s),
    {
        let handle = self.strategy.acquire_read();
        let s = handle.borrow().clone();
        handle.release_read();
        s
    }

    /// Returns the inner strategy, consuming the cache. Blocks until every
    /// outstanding guard on the strategy has been released.
    pub fn into_strategy(self) -> S {
        let Cache { entries: _, strategy, hasher: _ } = self;
        strategy.into_inner()
    }

    /// Opens a new, empty write batch over this cache.
    pub fn write_batch<'a>(&'a self) -> (b: WriteBatch<'a, S, H>)
        requires
            self.wf(),
        ensures
            b.wf(),
            b@.len() == 0,
            b.cache() == self,
    {
        WriteBatch::new(self)
    }
}

/// A read-only shared view over a cache entry's value. Holding it keeps the
/// slot's lock alive; [`ReadRef::release`] is the only way to give it back.
#[verifier::reject_recursive_types(V)]
pub struct ReadRef<'a, V> {
    inner: ReadRefInner<'a, V>,
}

/// In the common case a reader shares the slot's lock. A reader that had to
/// re-secure a contended slot holds it exclusively, together with the value
/// it will put back on release.
#[verifier::reject_recursive_types(V)]
enum ReadRefInner<'a, V> {
    Shared(ReadHandle<'a, Option<V>, spec_fn(Option<V>) -> bool>),
    Owned(V, WriteHandle<'a, Option<V>, spec_fn(Option<V>) -> bool>),
}

impl<'a, V> ReadRef<'a, V> {
    /// A shared guard stands over a populated slot; an exclusive one can put
    /// any value back into its lock.
    pub closed spec fn wf(&self) -> bool {
        match self.inner {
            ReadRefInner::Shared(h) => h.view() is Some,
            ReadRefInner::Owned(v, h) => forall|o: Option<V>| #[trigger] h.rwlock().inv(o),
        }
    }

    /// The value the guard stands over.
    pub closed spec fn value(&self) -> V {
        match self.inner {
            ReadRefInner::Shared(h) => h.view()->0,
            ReadRefInner::Owned(v, h) => v,
        }
    }

    /// Borrows the guarded value.
    pub fn get(&self) -> (v: &V)
        requires
            self.wf(),
        ensures
            *v == self.value(),
    {
        match &self.inner {
            ReadRefInner::Shared(h) => match h.borrow() {
                Some(v) => v,
                None => vstd::pervasive::unreached(),
            },
            ReadRefInner::Owned(v, _) => v,
        }
    }

    /// Releases the underlying slot lock.
    pub fn release(self)
        requires
            self.wf(),
    {
        match self.inner {
            ReadRefInner::Shared(h) => h.release_read(),
            ReadRefInner::Owned(v, h) => h.release_write(Some(v)),
        }
    }
}

/// A write exclusive view over a cache entry's value. Holding it keeps the
/// slot's exclusive lock alive; [`WriteRef::release`] stores the value back
/// into the slot and gives the lock back.
#[verifier::reject_recursive_types(V)]
pub struct WriteRef<'a, V> {
    val: V,
    handle: WriteHandle<'a, Option<V>, spec_fn(Option<V>) -> bool>,
}

impl<'a, V> WriteRef<'a, V> {
    /// The guard can put any value back into its lock.
    pub closed spec fn wf(&self) -> bool {
        forall|o: Option<V>| #[trigger] self.handle.rwlock().inv(o)
    }

    /// The value the guard currently holds.
    pub closed spec fn value(&self) -> V {
        self.val
    }

    /// Borrows the guarded value.
    pub fn get(&self) -> (v: &V)
        ensures
            *v == self.value(),
    {
        &self.val
    }

    /// Replaces the guarded value in place.
    pub fn set(&mut self, v: V)
        ensures
            final(self).value() == v,
            old(self).wf() ==> final(self).wf(),
    {
        self.val = v;
    }

    /// Stores the held value back into the slot and releases the exclusive
    /// lock.
    pub fn release(self)
        requires
            self.wf(),
    {
        let WriteRef { val, handle } = self;
        handle.release_write(Some(val));
    }
}

} // verus!
