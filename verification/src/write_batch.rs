//! An accumulator of exclusively held cache entries, grouped to be flushed
//! together.

use vstd::prelude::*;

use crate::{Cache, CacheStrategy, KeyHasher, WriteRef};

verus! {

/// A write batch represents a collection of write cache entries that are
/// grouped to be flushed together.
///
/// The batch holds one exclusive guard per distinct key touched, so repeated
/// writes to a key reuse the guard and never re-trigger a load. The batch
/// must be consumed through [`WriteBatch::flush_all`]: that is the only
/// operation that gives the held guards back, and a batch that is abandoned
/// instead keeps its slots exclusively locked, so every later access to them
/// blocks. Two distinct keys that hash to the same slot must not be touched
/// within one batch: the second `write` would block forever on the slot the
/// batch itself holds.
#[verifier::reject_recursive_types(S)]
pub struct WriteBatch<'c, S, H> where S: CacheStrategy, H: KeyHasher<S::Key> {
    cache: &'c Cache<S, H>,
    entries: Vec<(S::Key, WriteRef<'c, S::Val>)>,
}

impl<'c, S, H> View for WriteBatch<'c, S, H> where S: CacheStrategy, H: KeyHasher<S::Key> {
    type V = Seq<(S::Key, S::Val)>;

    /// The keys the batch holds and the value currently accumulated for
    /// each, in first-write order.
    closed spec fn view(&self) -> Seq<(S::Key, S::Val)> {
        self.entries@.map_values(|e: (S::Key, WriteRef<'c, S::Val>)| (e.0, e.1.value()))
    }
}

impl<'c, S, H> WriteBatch<'c, S, H> where S: CacheStrategy, H: KeyHasher<S::Key> {
    /// The cache this batch writes through.
    pub closed spec fn cache(&self) -> &'c Cache<S, H> {
        self.cache
    }

    /// The batch is well-formed: its cache is, every held guard is, and no
    /// key is held twice.
    pub closed spec fn wf(&self) -> bool {
        &&& self.cache.wf()
        &&& forall|i: int| 0 <= i < self.entries@.len() ==> (#[trigger] self.entries@[i]).1.wf()
        &&& forall|i: int, j: int|
            0 <= i < j < self.entries@.len() ==> (#[trigger] self.entries@[i]).0 != (
            #[trigger] self.entries@[j]).0
    }

    /// A well-formed batch holds at most one guard per key: the keys of its
    /// view are pairwise distinct, so a flush delivers each distinct key's
    /// accumulated value exactly once.
    pub proof fn lemma_unique_keys(&self)
        requires
            self.wf(),
        ensures
            forall|i: int, j: int|
                0 <= i < j < self@.len() ==> (#[trigger] self@[i]).0 != (#[trigger] self@[j]).0,
    {
        assert forall|i: int, j: int|
            0 <= i < j < self@.len() implies (#[trigger] self@[i]).0 != (
        #[trigger] self@[j]).0 by {
            assert(self@[i].0 == self.entries@[i].0);
            assert(self@[j].0 == self.entries@[j].0);
        }
    }

    /// Constructs a new `WriteBatch`.
    pub(crate) fn new(cache: &'c Cache<S, H>) -> (b: WriteBatch<'c, S, H>)
        requires
            cache.wf(),
        ensures
            b.wf(),
            b@.len() == 0,
            b.cache() == cache,
    {
        WriteBatch { cache, entries: Vec::new() }
    }

    /// The position at which the batch already holds the given key, if any.
    fn position_of(&self, key: &S::Key) -> (r: Option<usize>)
        ensures
            match r {
                Some(i) => i < self.entries@.len() && self.entries@[i as int].0 == *key,
                None => forall|i: int|
                    0 <= i < self.entries@.len() ==> self.entries@[i].0 != *key,
            },
    {
        let mut i: usize = 0;
        while i < self.entries.len()
            invariant
                i <= self.entries@.len(),
                forall|j: int| 0 <= j < i ==> self.entries@[j].0 != *key,
            decreases self.entries@.len() - i,
        {
            let e = &self.entries[i];
            if H::key_eq(&e.0, key) {
                return Some(i);
            }
            i = i + 1;
        }
        None
    }

    /// Creates a scope on which the value corresponding to the given key may
    /// be modified. `f` receives the value accumulated so far — freshly
    /// loaded through the cache if the batch does not hold the key yet — and
    /// returns the value to store in its place, together with a result that
    /// is handed back to the caller.
    ///
    /// At most one exclusive guard per key is held for the entire life of
    /// the batch, so repeated `write` calls on the same key reuse the held
    /// guard and never re-trigger a load.
    pub fn write<F, R>(&mut self, key: &S::Key, f: F) -> (r: Result<R, S::Err>) where
        F: Fn(&S::Val) -> (S::Val, R),
        S::Key: Copy,

        requires
            old(self).wf(),
            forall|v: S::Val| #[trigger] f.requires((&v,)),
        ensures
            final(self).wf(),
            final(self).cache() == old(self).cache(),
            (exists|i: int|
                0 <= i < old(self)@.len() && (#[trigger] old(self)@[i]).0 == *key) ==> r is Ok,
            r is Err ==> final(self)@ == old(self)@,
            r is Ok ==> {
                ||| (exists|i: int|
                    {
                        &&& 0 <= i < old(self)@.len()
                        &&& old(self)@[i].0 == *key
                        &&& final(self)@ =~= old(self)@.update(i, (*key, final(self)@[i].1))
                        &&& call_ensures(f, (&old(self)@[i].1,), (final(self)@[i].1, r->Ok_0))
                    })
                ||| {
                    &&& (forall|i: int| 0 <= i < old(self)@.len() ==> old(self)@[i].0 != *key)
                    &&& final(self)@.len() == old(self)@.len() + 1
                    &&& final(self)@ =~= old(self)@.push((*key, final(self)@.last().1))
                    &&& exists|v0: S::Val|
                        {
                            &&& S::spec_match(*key, v0)
                            &&& call_ensures(f, (&v0,), (final(self)@.last().1, r->Ok_0))
                        }
                }
            },
    {
        match self.position_of(key) {
            Some(i) => {
                let ghost pre = self@;
                let e = &mut self.entries[i];
                let varg = e.1.get();
                let (v1, ret) = f(varg);
                e.1.set(v1);
                proof {
                    assert(self@ =~= pre.update(i as int, (*key, v1)));
                    assert(self@[i as int].1 == v1);
                    assert(call_ensures(f, (&pre[i as int].1,), (v1, ret)));
                    assert(exists|j: int|
                        {
                            &&& 0 <= j < pre.len()
                            &&& pre[j].0 == *key
                            &&& self@ =~= pre.update(j, (*key, self@[j].1))
                            &&& #[trigger] call_ensures(f, (&pre[j].1,), (self@[j].1, ret))
                        });
                }
                Ok(ret)
            },
            None => {
                let cache = self.cache;
                let mut wref = match cache.write(key) {
                    Ok(w) => w,
                    Err(e) => {
                        return Err(e);
                    },
                };
                let ghost v0 = wref.value();
                let varg = wref.get();
                let (v1, ret) = f(varg);
                wref.set(v1);
                self.entries.push((*key, wref));
                proof {
                    assert(self@ =~= old(self)@.push((*key, v1)));
                    assert(self@.last().1 == v1);
                    assert(call_ensures(f, (&v0,), (v1, ret)));
                    assert(exists|w: S::Val|
                        S::spec_match(*key, w) && #[trigger] call_ensures(
                            f,
                            (&w,),
                            (self@.last().1, ret),
                        ));
                }
                Ok(ret)
            },
        }
    }

    /// Whether `f` has accepted the value `v`: some `Ok` outcome of `f`
    /// on `v` is possible.
    pub open spec fn accepted<F, E>(f: F, v: S::Val) -> bool where F: Fn(&S::Val) -> Result<
        (),
        E,
    > {
        exists|d: Result<(), E>| d is Ok && #[trigger] call_ensures(f, (&v,), d)
    }

    /// Flushes all the modifications using the given function, which may
    /// fail. Every held value is delivered to `f` once and its slot lock
    /// released; the first error returned by `f` aborts the drain, and the
    /// guards not yet drained are released undelivered. Callers must ensure
    /// previous writes are reverted in case of any posterior errors in the
    /// batch sequence.
    pub fn flush_all<F, E>(self, f: F) -> (r: Result<(), E>) where
        F: Fn(&S::Val) -> Result<(), E>,

        requires
            self.wf(),
            forall|v: S::Val| #[trigger] f.requires((&v,)),
        ensures
            r is Ok ==> forall|i: int|
                0 <= i < self@.len() ==> Self::accepted(f, (#[trigger] self@[i]).1),
            r is Err ==> exists|i: int|
                0 <= i < self@.len() && #[trigger] call_ensures(f, (&self@[i].1,), r),
    {
        let ghost orig = self@;
        let WriteBatch { cache: _, entries } = self;
        let mut entries = entries;
        while entries.len() > 0
            invariant
                orig == self@,
                entries@.len() <= orig.len(),
                forall|i: int|
                    0 <= i < entries@.len() ==> (#[trigger] entries@[i]).1.wf() && (
                    entries@[i].0,
                    entries@[i].1.value(),
                    ) == orig[i],
                forall|i: int|
                    entries@.len() <= i < orig.len() ==> Self::accepted(
                        f,
                        (#[trigger] orig[i]).1,
                    ),
                forall|v: S::Val| #[trigger] f.requires((&v,)),
            decreases entries@.len(),
        {
            let (_, wref) = match entries.pop() {
                Some(e) => e,
                None => vstd::pervasive::unreached(),
            };
            let varg = wref.get();
            let res = f(varg);
            proof {
                let idx = entries@.len() as int;
                assert(call_ensures(f, (&orig[idx].1,), res));
            }
            wref.release();
            match res {
                Ok(_) => {
                    proof {
                        let idx = entries@.len() as int;
                        assert forall|i: int|
                            idx <= i < orig.len() implies Self::accepted(
                            f,
                            (#[trigger] orig[i]).1,
                        ) by {
                            if i == idx {
                                assert(call_ensures(f, (&orig[i].1,), res));
                            }
                        }
                    }
                },
                Err(e) => {
                    proof {
                        let idx = entries@.len() as int;
                        assert(res == Result::<(), E>::Err(e));
                        assert(call_ensures(f, (&orig[idx].1,), res));
                    }
                    // Guards not yet drained are released undelivered.
                    while entries.len() > 0
                        invariant
                            forall|i: int|
                                0 <= i < entries@.len() ==> (#[trigger] entries@[i]).1.wf(),
                        decreases entries@.len(),
                    {
                        let (_, w) = match entries.pop() {
                            Some(e2) => e2,
                            None => vstd::pervasive::unreached(),
                        };
                        w.release();
                    }
                    return Err(e);
                },
            }
        }
        proof {
            assert forall|i: int| 0 <= i < self@.len() implies Self::accepted(
                f,
                (#[trigger] self@[i]).1,
            ) by {
                assert(self@[i] == orig[i]);
                assert(Self::accepted(f, orig[i].1));
            }
        }
        Ok(())
    }
}

} // verus!
