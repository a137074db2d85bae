use std::collections::HashMap;
use vstd::prelude::*;

verus! {

broadcast use vstd::std_specs::hash::group_hash_axioms;

/// The ids that may be issued from a pool of `size` items: `1..=size`.
pub open spec fn id_space(size: nat) -> Set<u64> {
    Set::new(|id: u64| 1 <= id && id <= size)
}

/// One draw from the ids `pool`, slot by slot: the id at slot
/// `seed % pool.len()` leaves, and the last id takes its slot.
pub open spec fn spec_draw(pool: Seq<u64>, seed: u64) -> (u64, Seq<u64>) {
    let idx = (seed as int) % (pool.len() as int);
    (pool[idx], pool.update(idx, pool.last()).drop_last())
}

/// `n` draws in a row with one seed: the ids drawn, in order, and the pool
/// that is left.
pub open spec fn draws(pool: Seq<u64>, seed: u64, n: nat) -> (Seq<u64>, Seq<u64>)
    decreases n,
{
    if n == 0 {
        (Seq::empty(), pool)
    } else {
        let prev = draws(pool, seed, (n - 1) as nat);
        (prev.0.push(spec_draw(prev.1, seed).0), spec_draw(prev.1, seed).1)
    }
}

/// Why a draw could not be made.
#[derive(Debug, Clone, Copy, PartialEq, Eq, Structural)]
pub enum DrawError {
    /// Every id of the pool has been issued.
    Exhausted,
}

/// The pool of item ids that have not been issued yet.
///
/// The pool is a permutation of all ids, of which the first `len` slots are
/// still active. Slot `i` holds `i + 1` unless it has been overridden by a
/// swap, so only the slots touched by earlier draws take storage.
pub struct Raffle {
    size: u64,
    len: u64,
    overrides: HashMap<u64, u64>,
    issued: Ghost<Set<u64>>,
}

impl View for Raffle {
    type V = Seq<u64>;

    /// The ids still in the pool, slot by slot.
    closed spec fn view(&self) -> Seq<u64> {
        Seq::new(self.len as nat, |i: int| self.slot(i))
    }
}

impl Raffle {
    /// The id that slot `i` holds.
    spec fn slot(&self, i: int) -> u64 {
        if self.overrides@.contains_key(i as u64) {
            self.overrides@[i as u64]
        } else {
            (i + 1) as u64
        }
    }

    /// How many items the pool was created with.
    pub closed spec fn size(&self) -> nat {
        self.size as nat
    }

    /// The ids that have been drawn so far.
    pub closed spec fn issued(&self) -> Set<u64> {
        self.issued@
    }

    pub closed spec fn wf(&self) -> bool {
        &&& self.len <= self.size
        &&& self.issued@.finite()
        &&& self.issued@.subset_of(id_space(self.size as nat))
        &&& self.issued@.len() + self.len == self.size
        &&& forall|i: int|
            0 <= i < self.len ==> {
                &&& id_space(self.size as nat).contains(#[trigger] self.slot(i))
                &&& !self.issued@.contains(self.slot(i))
            }
        &&& forall|i: int, j: int|
            0 <= i < self.len && 0 <= j < self.len && i != j ==> #[trigger] self.slot(i)
                != #[trigger] self.slot(j)
        &&& forall|id: u64|
            #[trigger] id_space(self.size as nat).contains(id) ==> self.issued@.contains(id)
                || exists|i: int| 0 <= i < self.len && self.slot(i) == id
    }

    /// A pool holding every id of `1..=size`.
    pub fn new(size: u64) -> (r: Raffle)
        ensures
            r.wf(),
            r.size() == size,
            r@.len() == size,
            r.issued() == Set::<u64>::empty(),
    {
        let r = Raffle { size, len: size, overrides: HashMap::new(), issued: Ghost(Set::empty()) };
        assert forall|id: u64| #[trigger] id_space(size as nat).contains(id) implies r.issued@.contains(
            id,
        ) || exists|i: int| 0 <= i < r.len && r.slot(i) == id by {
            assert(r.slot(id - 1) == id);
        }
        r
    }

    /// How many ids are left in the pool.
    pub fn len(&self) -> (n: u64)
        requires
            self.wf(),
        ensures
            n == self@.len(),
    {
        self.len
    }

    fn slot_value(&self, i: u64) -> (v: u64)
        requires
            i < self.size,
        ensures
            v == self.slot(i as int),
    {
        match self.overrides.get(&i) {
            Some(v) => *v,
            None => i + 1,
        }
    }

    /// Draws the id at slot `seed % len`: the last active id moves into that
    /// slot and the pool shrinks by one.
    ///
    /// `seed` is weak host entropy. The draw is only as unpredictable as the
    /// seed is: it does not stand against a party that controls scheduling.
    pub fn draw(&mut self, seed: u64) -> (r: Result<u64, DrawError>)
        requires
            old(self).wf(),
        ensures
            final(self).wf(),
            final(self).size() == old(self).size(),
            old(self)@.len() == 0 ==> r == Err::<u64, DrawError>(DrawError::Exhausted),
            old(self)@.len() == 0 ==> *final(self) == *old(self),
            old(self)@.len() > 0 ==> {
                let (id, rest) = spec_draw(old(self)@, seed);
                &&& r == Ok::<u64, DrawError>(id)
                &&& final(self)@ == rest
                &&& old(self)@.contains(id)
                &&& !old(self).issued().contains(id)
                &&& final(self).issued() == old(self).issued().insert(id)
            },
    {
        if self.len == 0 {
            return Err(DrawError::Exhausted);
        }
        let ghost pre = *self;
        let idx = seed % self.len;
        let last = self.len - 1;
        let id = self.slot_value(idx);
        let moved = self.slot_value(last);
        self.overrides.insert(idx, moved);
        if idx != last {
            self.overrides.remove(&last);
        }
        self.len = last;
        self.issued = Ghost(self.issued@.insert(id));
        proof {
            assert forall|i: int| 0 <= i < self.len implies self.slot(i) == if i == idx {
                pre.slot(last as int)
            } else {
                pre.slot(i)
            } by {}
            assert(self@ =~= pre@.update(idx as int, pre@.last()).drop_last());
            assert(pre@[idx as int] == id);
            assert forall|x: u64| #[trigger] id_space(self.size as nat).contains(x) implies self.issued@.contains(
                x,
            ) || exists|i: int| 0 <= i < self.len && self.slot(i) == x by {
                if !self.issued@.contains(x) {
                    let i = choose|i: int| 0 <= i < pre.len && pre.slot(i) == x;
                    if i == last {
                        assert(self.slot(idx as int) == x);
                    } else {
                        assert(self.slot(i) == x);
                    }
                }
            }
            assert forall|i: int, j: int|
                0 <= i < self.len && 0 <= j < self.len && i != j implies #[trigger] self.slot(i)
                != #[trigger] self.slot(j) by {
                let pi = if i == idx { last as int } else { i };
                let pj = if j == idx { last as int } else { j };
                assert(pre.slot(pi) != pre.slot(pj));
            }
            assert forall|i: int| 0 <= i < self.len implies {
                &&& id_space(self.size as nat).contains(#[trigger] self.slot(i))
                &&& !self.issued@.contains(self.slot(i))
            } by {
                let pi = if i == idx { last as int } else { i };
                assert(pre.slot(pi) != pre.slot(idx as int));
            }
        }
        Ok(id)
    }

    /// Makes `n` draws with one seed and returns the ids in the order drawn.
    pub fn draw_many(&mut self, seed: u64, n: u64) -> (ids: Vec<u64>)
        requires
            old(self).wf(),
            n <= old(self)@.len(),
        ensures
            final(self).wf(),
            final(self).size() == old(self).size(),
            (ids@, final(self)@) == draws(old(self)@, seed, n as nat),
            ids@.len() == n,
            final(self)@.len() == old(self)@.len() - n,
            ids@.no_duplicates(),
            forall|k: int| 0 <= k < ids@.len() ==> #[trigger] old(self)@.contains(ids@[k]),
            final(self).issued() == old(self).issued().union(ids@.to_set()),
            old(self).issued().disjoint(ids@.to_set()),
    {
        let ghost pool0 = self@;
        let ghost issued0 = self.issued();
        let ghost start = *self;
        let mut ids: Vec<u64> = Vec::new();
        let mut k: u64 = 0;
        while k < n
            invariant
                self.wf(),
                self.size() == old(self).size(),
                pool0 == old(self)@,
                issued0 == old(self).issued(),
                start.wf(),
                start@ == pool0,
                start.issued() == issued0,
                start.size() == self.size(),
                k <= n,
                n <= pool0.len(),
                self@.len() == pool0.len() - k,
                ids@.len() == k,
                (ids@, self@) == draws(pool0, seed, k as nat),
                ids@.no_duplicates(),
                forall|j: int| 0 <= j < ids@.len() ==> #[trigger] pool0.contains(ids@[j]),
                self.issued() == issued0.union(ids@.to_set()),
                issued0.disjoint(ids@.to_set()),
            decreases n - k,
        {
            let ghost before = self@;
            let r = self.draw(seed);
            let id = match r {
                Ok(id) => id,
                Err(_) => {
                    proof {
                        assert(false);
                    }
                    0
                },
            };
            proof {
                lemma_partition(self);
                assert(!issued0.union(ids@.to_set()).contains(id));
                assert(!ids@.contains(id)) by {
                    if ids@.contains(id) {
                        assert(ids@.to_set().contains(id));
                    }
                }
                assert(pool0.contains(id)) by {
                    if !pool0.contains(id) {
                        lemma_partition(&start);
                        assert(before.contains(id));
                        lemma_partition(&*self);
                        assert(id_space(self.size()).contains(id));
                        assert(pool0.to_set().union(issued0).contains(id));
                        assert(pool0.to_set().contains(id));
                    }
                }
            }
            let ghost ids_before = ids@;
            ids.push(id);
            k = k + 1;
            proof {
                ids_before.lemma_push_to_set_commute(id);
                assert(ids@ == ids_before.push(id));
                assert(ids@.drop_last() =~= draws(pool0, seed, (k - 1) as nat).0);
                assert forall|i: int, j: int| 0 <= i < j < ids@.len() implies ids@[i] != ids@[j] by {
                    if j == ids@.len() - 1 {
                        assert(ids@.drop_last().contains(ids@[i]));
                    }
                }
            }
        }
        ids
    }
}

proof fn lemma_spec_draw(pool: Seq<u64>, seed: u64)
    requires
        pool.len() > 0,
        pool.no_duplicates(),
    ensures
        ({
            let (id, rest) = spec_draw(pool, seed);
            &&& rest.len() == pool.len() - 1
            &&& rest.no_duplicates()
            &&& pool.contains(id)
            &&& !rest.contains(id)
            &&& forall|x: u64| rest.contains(x) ==> pool.contains(x)
        }),
{
    let idx = (seed as int) % (pool.len() as int);
    let last = pool.len() - 1;
    let (id, rest) = spec_draw(pool, seed);
    assert(pool[idx] == id);
    assert forall|i: int| 0 <= i < rest.len() implies rest[i] == if i == idx {
        pool[last]
    } else {
        pool[i]
    } by {}
    assert forall|i: int, j: int| 0 <= i < rest.len() && 0 <= j < rest.len() && i != j implies rest[i]
        != rest[j] by {
        let pi = if i == idx { last } else { i };
        let pj = if j == idx { last } else { j };
        assert(pool[pi] != pool[pj]);
    }
    assert forall|x: u64| rest.contains(x) implies pool.contains(x) by {
        let i = choose|i: int| 0 <= i < rest.len() && rest[i] == x;
        let pi = if i == idx { last } else { i };
        assert(pool[pi] == x);
    }
    if rest.contains(id) {
        let i = choose|i: int| 0 <= i < rest.len() && rest[i] == id;
        let pi = if i == idx { last } else { i };
        assert(pool[pi] == id);
    }
}

/// However many draws are made from a pool without repeated ids, no id is
/// drawn twice, every id drawn came from the pool and is no longer in it,
/// and the pool shrinks by one per draw, so that it is empty, and the next
/// draw fails, after as many draws as it had ids.
pub proof fn lemma_draws_unique(pool: Seq<u64>, seed: u64, n: nat)
    requires
        pool.no_duplicates(),
        n <= pool.len(),
    ensures
        ({
            let (ids, rest) = draws(pool, seed, n);
            &&& ids.len() == n
            &&& ids.no_duplicates()
            &&& rest.len() == pool.len() - n
            &&& rest.no_duplicates()
            &&& forall|k: int| 0 <= k < ids.len() ==> pool.contains(#[trigger] ids[k])
            &&& forall|k: int| 0 <= k < ids.len() ==> !rest.contains(#[trigger] ids[k])
            &&& forall|x: u64| rest.contains(x) ==> pool.contains(x)
        }),
    decreases n,
{
    if n > 0 {
        lemma_draws_unique(pool, seed, (n - 1) as nat);
        let (ids0, rest0) = draws(pool, seed, (n - 1) as nat);
        lemma_spec_draw(rest0, seed);
        let (id, rest) = spec_draw(rest0, seed);
        let ids = ids0.push(id);
        assert(draws(pool, seed, n) == (ids, rest));
        assert forall|k: int| 0 <= k < ids.len() implies !rest.contains(#[trigger] ids[k]) by {
            if k < ids0.len() {
                assert(ids[k] == ids0[k]);
                assert(!rest0.contains(ids0[k]));
            }
        }
        assert forall|k: int| 0 <= k < ids.len() implies pool.contains(#[trigger] ids[k]) by {
            if k < ids0.len() {
                assert(ids[k] == ids0[k]);
            }
        }
        assert forall|i: int, j: int| 0 <= i < ids.len() && 0 <= j < ids.len() && i != j implies ids[i]
            != ids[j] by {
            if i < ids0.len() && j < ids0.len() {
                assert(ids0[i] != ids0[j]);
            } else if i < ids0.len() {
                assert(!rest0.contains(ids0[i]));
            } else {
                assert(!rest0.contains(ids0[j]));
            }
        }
    }
}

/// Draws in a row, one per seed of `seeds`, in order: the ids drawn, and
/// the pool that is left. A run of calls of `Raffle::draw` is such a run.
pub open spec fn draws_with(pool: Seq<u64>, seeds: Seq<u64>) -> (Seq<u64>, Seq<u64>)
    decreases seeds.len(),
{
    if seeds.len() == 0 {
        (Seq::empty(), pool)
    } else {
        let prev = draws_with(pool, seeds.drop_last());
        (prev.0.push(spec_draw(prev.1, seeds.last()).0), spec_draw(prev.1, seeds.last()).1)
    }
}

/// Whatever the seeds, draws from a pool without repeated ids never give an
/// id twice; every id drawn came from the pool and is no longer in it; and
/// the pool shrinks by one per draw, so that after as many draws as it had
/// ids it is empty and the next draw fails.
pub proof fn lemma_draws_with_unique(pool: Seq<u64>, seeds: Seq<u64>)
    requires
        pool.no_duplicates(),
        seeds.len() <= pool.len(),
    ensures
        ({
            let (ids, rest) = draws_with(pool, seeds);
            &&& ids.len() == seeds.len()
            &&& ids.no_duplicates()
            &&& rest.len() == pool.len() - seeds.len()
            &&& rest.no_duplicates()
            &&& forall|k: int| 0 <= k < ids.len() ==> pool.contains(#[trigger] ids[k])
            &&& forall|k: int| 0 <= k < ids.len() ==> !rest.contains(#[trigger] ids[k])
            &&& forall|x: u64| rest.contains(x) ==> pool.contains(x)
        }),
    decreases seeds.len(),
{
    if seeds.len() > 0 {
        let init = seeds.drop_last();
        lemma_draws_with_unique(pool, init);
        let (ids0, rest0) = draws_with(pool, init);
        lemma_spec_draw(rest0, seeds.last());
        let (id, rest) = spec_draw(rest0, seeds.last());
        let ids = ids0.push(id);
        assert(draws_with(pool, seeds) == (ids, rest));
        assert forall|k: int| 0 <= k < ids.len() implies !rest.contains(#[trigger] ids[k]) by {
            if k < ids0.len() {
                assert(ids[k] == ids0[k]);
                assert(!rest0.contains(ids0[k]));
            }
        }
        assert forall|k: int| 0 <= k < ids.len() implies pool.contains(#[trigger] ids[k]) by {
            if k < ids0.len() {
                assert(ids[k] == ids0[k]);
            }
        }
        assert forall|i: int, j: int| 0 <= i < ids.len() && 0 <= j < ids.len() && i != j implies ids[i]
            != ids[j] by {
            if i < ids0.len() && j < ids0.len() {
                assert(ids0[i] != ids0[j]);
            } else if i < ids0.len() {
                assert(!rest0.contains(ids0[i]));
            } else {
                assert(!rest0.contains(ids0[j]));
            }
        }
    }
}

/// After any number of draws the ids still in the pool and the ids issued
/// are disjoint, together make up every id of the pool, and their counts add
/// up to the pool's size.
pub proof fn lemma_partition(r: &Raffle)
    requires
        r.wf(),
    ensures
        r@.to_set().disjoint(r.issued()),
        r@.to_set().union(r.issued()) == id_space(r.size()),
        r@.len() + r.issued().len() == r.size(),
        r@.no_duplicates(),
{
    assert(r@.to_set().union(r.issued()) =~= id_space(r.size())) by {
        assert forall|x: u64| #[trigger] id_space(r.size()).contains(x) implies r@.to_set().union(
            r.issued(),
        ).contains(x) by {
            if !r.issued().contains(x) {
                let i = choose|i: int| 0 <= i < r.len && r.slot(i) == x;
                assert(r@[i] == x);
            }
        }
        assert forall|x: u64| r@.to_set().contains(x) implies id_space(r.size()).contains(x) by {
            let i = choose|i: int| 0 <= i < r@.len() && r@[i] == x;
            assert(r.slot(i) == x);
        }
    }
    assert forall|x: u64| r@.to_set().contains(x) implies !r.issued().contains(x) by {
        let i = choose|i: int| 0 <= i < r@.len() && r@[i] == x;
        assert(r.slot(i) == x);
    }
    assert forall|i: int, j: int| 0 <= i < r@.len() && 0 <= j < r@.len() && i != j implies r@[i]
        != r@[j] by {
        assert(r.slot(i) != r.slot(j));
    }
}

} // verus!
