//! The pool of connect-helpers.
//!
//! Helpers are kept under the wire form of their namespace: spawned on first
//! use, reused across connections, and evicted, with one retry, when they fail.

use vstd::prelude::*;

use crate::protocol::HelperFailure;
use crate::text::same_text;

verus! {

/// One helper and the namespace that it serves.
struct PoolEntry<H> {
    key: String,
    helper: H,
}

/// Helpers keyed by namespace wire form, at most one for each.
pub struct HelperPool<H> {
    entries: Vec<PoolEntry<H>>,
}

/// Whether a request that failed in this way is tried again: on the first attempt,
/// where the helper was lost.
pub open spec fn tried_again(attempt: nat, failure: HelperFailure) -> bool {
    attempt == 0 && failure is Lost
}

/// The pool after a request to the helper of `key` failed: a lost helper is
/// evicted, a helper that only refused is kept.
pub open spec fn pool_after<H>(
    pool: Map<Seq<char>, H>,
    key: Seq<char>,
    failure: HelperFailure,
) -> Map<Seq<char>, H> {
    if failure is Lost {
        pool.remove(key)
    } else {
        pool
    }
}

/// Whether asking the pool for the helper of `key`, with `spawn` to make one, can
/// lead from the pool `before` to the pool `after` and the result `res`.
pub open spec fn kept_or_spawned<H, E, F: FnOnce() -> Result<H, E>>(
    before: Map<Seq<char>, H>,
    key: Seq<char>,
    spawn: F,
    after: Map<Seq<char>, H>,
    res: Result<&H, E>,
) -> bool {
    if before.dom().contains(key) {
        after == before && res == Ok::<&H, E>(&before[key])
    } else {
        exists|made: Result<H, E>| #[trigger]
            call_ensures(spawn, (), made) && match made {
                Ok(helper) => after == before.insert(key, helper) && res == Ok::<&H, E>(&helper),
                Err(e) => after == before && res == Err::<&H, E>(e),
            }
    }
}

impl<H> HelperPool<H> {
    /// Whether some entry of the pool has this key.
    closed spec fn has_key(self, key: Seq<char>) -> bool {
        exists|i: int| 0 <= i < self.entries@.len() && (#[trigger] self.entries@[i]).key@ == key
    }

    /// The helper of this key.
    closed spec fn helper_of(self, key: Seq<char>) -> H {
        let i = choose|i: int|
            0 <= i < self.entries@.len() && (#[trigger] self.entries@[i]).key@ == key;
        self.entries@[i].helper
    }

    /// No namespace has two helpers.
    pub closed spec fn wf(self) -> bool {
        forall|i: int, j: int|
            0 <= i < j < self.entries@.len() ==> (#[trigger] self.entries@[i]).key@ != (
            #[trigger] self.entries@[j]).key@
    }
}

impl<H> View for HelperPool<H> {
    type V = Map<Seq<char>, H>;

    closed spec fn view(&self) -> Map<Seq<char>, H> {
        Map::new(|key: Seq<char>| self.has_key(key), |key: Seq<char>| self.helper_of(key))
    }
}

impl<H> HelperPool<H> {
    /// An empty pool.
    pub fn new() -> (pool: HelperPool<H>)
        ensures
            pool.wf(),
            pool@ == Map::<Seq<char>, H>::empty(),
    {
        let pool: HelperPool<H> = HelperPool { entries: Vec::new() };
        proof {
            assert(pool@ =~= Map::<Seq<char>, H>::empty());
        }
        pool
    }

    /// The position of the entry with this key, or the number of entries.
    fn find(&self, key: &str) -> (at: usize)
        ensures
            at <= self.entries@.len(),
            at < self.entries@.len() ==> self.entries@[at as int].key@ == key@,
            forall|i: int| 0 <= i < at ==> (#[trigger] self.entries@[i]).key@ != key@,
    {
        let mut at: usize = 0;
        while at < self.entries.len() && !same_text(self.entries[at].key.as_str(), key)
            invariant
                at <= self.entries@.len(),
                forall|i: int| 0 <= i < at ==> (#[trigger] self.entries@[i]).key@ != key@,
            decreases self.entries@.len() - at,
        {
            at = at + 1;
        }
        at
    }

    /// The helper for the namespace of wire form `key`, if there is one.
    pub fn get(&self, key: &str) -> (helper: Option<&H>)
        requires
            self.wf(),
        ensures
            helper == if self@.dom().contains(key@) {
                Some(&self@[key@])
            } else {
                None
            },
    {
        let at: usize = self.find(key);
        if at < self.entries.len() {
            proof {
                assert(self.has_key(key@));
                assert(self@.dom().contains(key@));
            }
            Some(&self.entries[at].helper)
        } else {
            None
        }
    }

    /// The helper for the namespace of wire form `key`: the one that is kept, or
    /// else the one that `spawn` makes, which is kept from then on. If `spawn`
    /// fails, the pool stays as it is. While a helper is kept, `spawn` is not
    /// called.
    pub fn get_or_spawn<E, F: FnOnce() -> Result<H, E>>(&mut self, key: &str, spawn: F) -> (res:
        Result<&H, E>)
        requires
            old(self).wf(),
            !old(self)@.dom().contains(key@) ==> call_requires(spawn, ()),
        ensures
            final(self).wf(),
            kept_or_spawned(old(self)@, key@, spawn, final(self)@, res),
    {
        let kept: bool = self.get(key).is_some();
        if !kept {
            match spawn() {
                Ok(helper) => {
                    let _none: Option<H> = self.insert(key.to_string(), helper);
                },
                Err(e) => {
                    return Err(e);
                },
            }
        }
        let at: usize = self.find(key);
        proof {
            assert(self@.dom().contains(key@));
            assert(self.has_key(key@));
            let b = choose|b: int|
                0 <= b < self.entries@.len() && (#[trigger] self.entries@[b]).key@ == key@;
            assert(at < self.entries@.len());
            assert(self.entries@[at as int].key@ == key@);
            assert(b == at);
            assert(self@[key@] == self.entries@[at as int].helper);
        }
        Ok(&self.entries[at].helper)
    }

    /// Keeps `helper` for the namespace of wire form `key`; a helper that was
    /// kept for it before is handed back.
    pub fn insert(&mut self, key: String, helper: H) -> (before: Option<H>)
        requires
            old(self).wf(),
        ensures
            final(self).wf(),
            final(self)@ == old(self)@.insert(key@, helper),
            before == if old(self)@.dom().contains(key@) {
                Some(old(self)@[key@])
            } else {
                None
            },
    {
        let before: Option<H> = self.remove(key.as_str());
        let ghost mid = *self;
        let ghost k = key@;
        self.entries.push(PoolEntry { key, helper });
        proof {
            let n = mid.entries@.len() as int;
            assert(self.entries@[n].key@ == k);
            assert(!mid@.dom().contains(k));
            assert(!mid.has_key(k));
            assert forall|other: Seq<char>| self.has_key(other) == (other == k || mid.has_key(other)) by {
                if mid.has_key(other) {
                    let i = choose|i: int|
                        0 <= i < n && (#[trigger] mid.entries@[i]).key@ == other;
                    assert(self.entries@[i].key@ == other);
                }
                if self.has_key(other) && other != k {
                    let i = choose|i: int|
                        0 <= i < self.entries@.len() && (#[trigger] self.entries@[i]).key@ == other;
                    assert(mid.entries@[i].key@ == other);
                }
            }
            assert forall|other: Seq<char>| mid.has_key(other) implies self.helper_of(other)
                == mid.helper_of(other) by {
                let i = choose|i: int|
                    0 <= i < self.entries@.len() && (#[trigger] self.entries@[i]).key@ == other;
                let j = choose|j: int| 0 <= j < n && (#[trigger] mid.entries@[j]).key@ == other;
                assert(self.entries@[j].key@ == other);
                assert(self.entries@[i].key@ == other);
                assert(i == j);
            }
            assert(self.helper_of(k) == helper) by {
                let i = choose|i: int|
                    0 <= i < self.entries@.len() && (#[trigger] self.entries@[i]).key@ == k;
                if i < n {
                    assert(mid.entries@[i].key@ == k);
                }
            }
            assert(mid@ == old(self)@.remove(k));
            assert forall|other: Seq<char>| self@.dom().contains(other) == old(self)@.insert(
                k,
                helper,
            ).dom().contains(other) by {
                assert(mid@.dom().contains(other) == mid.has_key(other));
            }
            assert forall|other: Seq<char>| self@.dom().contains(other) implies self@[other]
                == old(self)@.insert(k, helper)[other] by {
                if other != k {
                    assert(mid.has_key(other));
                    assert(mid@.dom().contains(other));
                    assert(mid@[other] == mid.helper_of(other));
                }
            }
            assert(self@ =~= old(self)@.insert(k, helper));
        }
        before
    }

    /// Takes the helper for the namespace of wire form `key` out of the pool.
    pub fn remove(&mut self, key: &str) -> (taken: Option<H>)
        requires
            old(self).wf(),
        ensures
            final(self).wf(),
            final(self)@ == old(self)@.remove(key@),
            taken == if old(self)@.dom().contains(key@) {
                Some(old(self)@[key@])
            } else {
                None
            },
    {
        let at: usize = self.find(key);
        let ghost was = *self;
        if at < self.entries.len() {
            let entry: PoolEntry<H> = self.entries.remove(at);
            proof {
                let p = at as int;
                assert(was.has_key(key@)) by {
                    assert(was.entries@[p].key@ == key@);
                }
                assert forall|i: int, j: int| 0 <= i < j < self.entries@.len() implies (
                #[trigger] self.entries@[i]).key@ != (#[trigger] self.entries@[j]).key@ by {
                    let a = if i < p {
                        i
                    } else {
                        i + 1
                    };
                    let b = if j < p {
                        j
                    } else {
                        j + 1
                    };
                    assert(self.entries@[i] == was.entries@[a]);
                    assert(self.entries@[j] == was.entries@[b]);
                }
                assert forall|other: Seq<char>| self.has_key(other) == (other != key@
                    && was.has_key(other)) by {
                    if self.has_key(other) {
                        let i = choose|i: int|
                            0 <= i < self.entries@.len() && (#[trigger] self.entries@[i]).key@
                                == other;
                        let a = if i < p {
                            i
                        } else {
                            i + 1
                        };
                        assert(self.entries@[i] == was.entries@[a]);
                        assert(was.entries@[p].key@ == key@);
                    }
                    if was.has_key(other) && other != key@ {
                        let a = choose|a: int|
                            0 <= a < was.entries@.len() && (#[trigger] was.entries@[a]).key@ == other;
                        let i = if a < p {
                            a
                        } else {
                            a - 1
                        };
                        assert(self.entries@[i] == was.entries@[a]);
                    }
                }
                assert forall|other: Seq<char>| self.has_key(other) implies self.helper_of(other)
                    == was.helper_of(other) by {
                    let i = choose|i: int|
                        0 <= i < self.entries@.len() && (#[trigger] self.entries@[i]).key@ == other;
                    let a = if i < p {
                        i
                    } else {
                        i + 1
                    };
                    assert(self.entries@[i] == was.entries@[a]);
                    let b = choose|b: int|
                        0 <= b < was.entries@.len() && (#[trigger] was.entries@[b]).key@ == other;
                    assert(was.entries@[a].key@ == other);
                    assert(was.entries@[b].key@ == other);
                    assert(a == b);
                }
                assert(self@ =~= was@.remove(key@));
                assert(was.helper_of(key@) == was.entries@[p].helper) by {
                    let b = choose|b: int|
                        0 <= b < was.entries@.len() && (#[trigger] was.entries@[b]).key@ == key@;
                    assert(was.entries@[p].key@ == key@);
                    assert(was.entries@[b].key@ == key@);
                    assert(b == p);
                }
            }
            Some(entry.helper)
        } else {
            proof {
                assert(!was.has_key(key@));
                assert(self@ =~= was@.remove(key@));
            }
            None
        }
    }

    /// Decides what follows when the helper for `key` failed a request on the
    /// given attempt, counted from 0. A lost helper is evicted, and on the first
    /// attempt the request is to be tried once more. A refusal stands, and the
    /// pool stays as it is.
    pub fn after_failure(&mut self, key: &str, attempt: u32, failure: HelperFailure) -> (again: bool)
        requires
            old(self).wf(),
        ensures
            final(self).wf(),
            again == tried_again(attempt as nat, failure),
            final(self)@ == pool_after(old(self)@, key@, failure),
    {
        match failure {
            HelperFailure::Lost => {
                let _lost: Option<H> = self.remove(key);
                attempt == 0
            },
            HelperFailure::Refused => false,
        }
    }
}

impl<H> Default for HelperPool<H> {
    /// An empty pool.
    fn default() -> (pool: HelperPool<H>)
        ensures
            pool.wf(),
            pool@ == Map::<Seq<char>, H>::empty(),
    {
        HelperPool::new()
    }
}

/// A helper is reused: after a request that got one, the next request on the same
/// namespace gets the same helper and leaves the pool as it is, whatever it would
/// spawn. As the helper is kept by then, nothing is spawned for it.
pub proof fn helper_is_reused<H, E, F: FnOnce() -> Result<H, E>, G: FnOnce() -> Result<H, E>>(
    pool: Map<Seq<char>, H>,
    key: Seq<char>,
    spawn: F,
    after: Map<Seq<char>, H>,
    res: Result<&H, E>,
    spawn_later: G,
    after_later: Map<Seq<char>, H>,
    res_later: Result<&H, E>,
)
    requires
        kept_or_spawned(pool, key, spawn, after, res),
        res is Ok,
        kept_or_spawned(after, key, spawn_later, after_later, res_later),
    ensures
        after.dom().contains(key),
        res == Ok::<&H, E>(&after[key]),
        res_later == res,
        after_later == after,
{
}

/// Asking for a helper never changes the helpers of other namespaces, and a
/// request that got none leaves the pool as it was.
pub proof fn other_helpers_stay<H, E, F: FnOnce() -> Result<H, E>>(
    pool: Map<Seq<char>, H>,
    key: Seq<char>,
    spawn: F,
    after: Map<Seq<char>, H>,
    res: Result<&H, E>,
    other: Seq<char>,
)
    requires
        kept_or_spawned(pool, key, spawn, after, res),
    ensures
        res is Err ==> after == pool,
        other != key ==> after.dom().contains(other) == pool.dom().contains(other),
        other != key && pool.dom().contains(other) ==> after[other] == pool[other],
{
}

/// A helper that is lost on the first attempt is replaced: the request is tried
/// again, and on a pool that no longer holds the helper, so that a fresh one is
/// spawned for it and, if that succeeds, kept in its place.
pub proof fn lost_helper_is_replaced<H, E, F: FnOnce() -> Result<H, E>>(
    pool: Map<Seq<char>, H>,
    key: Seq<char>,
    spawn: F,
    after: Map<Seq<char>, H>,
    res: Result<&H, E>,
)
    requires
        kept_or_spawned(pool_after(pool, key, HelperFailure::Lost), key, spawn, after, res),
    ensures
        tried_again(0, HelperFailure::Lost),
        !pool_after(pool, key, HelperFailure::Lost).dom().contains(key),
        exists|made: Result<H, E>| #[trigger]
            call_ensures(spawn, (), made) && match made {
                Ok(helper) => res == Ok::<&H, E>(&helper) && after == pool.insert(key, helper),
                Err(e) => res == Err::<&H, E>(e) && after == pool.remove(key),
            },
{
    let made = choose|made: Result<H, E>| #[trigger]
        call_ensures(spawn, (), made) && match made {
            Ok(helper) => after == pool.remove(key).insert(key, helper) && res == Ok::<&H, E>(
                &helper,
            ),
            Err(e) => after == pool.remove(key) && res == Err::<&H, E>(e),
        };
    if let Ok(helper) = made {
        assert(pool.remove(key).insert(key, helper) =~= pool.insert(key, helper));
    }
}

/// A request is tried at most twice: a failure on any attempt but the first is
/// final. A refusal is final on every attempt, and the helper that refused is
/// kept.
pub proof fn at_most_one_retry<H>(
    attempt: nat,
    failure: HelperFailure,
    pool: Map<Seq<char>, H>,
    key: Seq<char>,
)
    ensures
        attempt > 0 ==> !tried_again(attempt, failure),
        !tried_again(attempt, HelperFailure::Refused),
        pool_after(pool, key, HelperFailure::Refused) == pool,
{
}

} // verus!
