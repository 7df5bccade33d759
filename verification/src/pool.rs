//! A fixed set of slots that are handed out and given back.
use vstd::prelude::*;

verus! {

/// The lowest free slot from `from` on.
pub open spec fn first_free_from(free: Seq<bool>, from: int) -> Option<int>
    decreases free.len() - from,
{
    if from < 0 || from >= free.len() {
        None
    } else if free[from] {
        Some(from)
    } else {
        first_free_from(free, from + 1)
    }
}

/// The slot that is handed out next: the lowest free one.
pub open spec fn first_free(free: Seq<bool>) -> Option<int> {
    first_free_from(free, 0)
}

/// Which slots are free after the next one is handed out.
pub open spec fn after_allocation(free: Seq<bool>) -> Seq<bool> {
    match first_free(free) {
        Some(index) => free.update(index, false),
        None => free,
    }
}

pub struct PoolAllocator<T, const N: usize> {
    pool: [T; N],
    free: [u8; N],
    /// Stands for the pool in contracts. Every pool is made with the same value, but it does not
    /// show outside of this module: there it is known only that a pool keeps its id and that its
    /// guards carry it, so a guard is accepted on the pool that handed it out and on no other.
    id: Ghost<int>,
}

/// The right to use one slot of a pool, until it is dropped.
pub struct PoolAllocatorGuard<const N: usize> {
    index: usize,
    /// The id of the pool that the guard is of.
    pool: Ghost<int>,
}

impl<const N: usize> PoolAllocatorGuard<N> {
    #[verifier::type_invariant]
    spec fn in_pool(self) -> bool {
        self.index < N
    }

    /// The slot that the guard is for.
    pub closed spec fn slot(self) -> int {
        self.index as int
    }

    /// The id of the pool that the guard is of.
    pub closed spec fn pool_id(self) -> int {
        self.pool@
    }

    pub fn deref<'a, T>(&self, pool: &'a PoolAllocator<T, N>) -> (item: &'a T)
        requires
            self.pool_id() == pool.id(),
        ensures
            0 <= self.slot() < N,
            *item == pool.items()[self.slot()],
    {
        proof {
            use_type_invariant(self);
        }
        &pool.pool[self.index]
    }

    pub fn deref_mut<'a, T>(&self, pool: &'a mut PoolAllocator<T, N>) -> (item: &'a mut T)
        requires
            self.pool_id() == old(pool).id(),
        ensures
            final(pool).id() == old(pool).id(),
            0 <= self.slot() < N,
            old(pool).items().len() == N,
            *item == old(pool).items()[self.slot()],
            final(pool).items() == old(pool).items().update(self.slot(), *final(item)),
            final(pool).free() == old(pool).free(),
    {
        proof {
            use_type_invariant(self);
        }
        &mut pool.pool[self.index]
    }

    /// Gives the slot back.
    pub fn drop<T>(self, pool: &mut PoolAllocator<T, N>)
        requires
            self.pool_id() == old(pool).id(),
        ensures
            final(pool).id() == old(pool).id(),
            0 <= self.slot() < N,
            final(pool).items() == old(pool).items(),
            final(pool).free() == old(pool).free().update(self.slot(), true),
    {
        proof {
            use_type_invariant(&self);
        }
        pool.free[self.index] = 1;
        assert(pool.free() =~= old(pool).free().update(self.slot(), true));
    }
}

impl<T, const N: usize> PoolAllocator<T, N> {
    /// What the slots hold.
    pub closed spec fn items(self) -> Seq<T> {
        self.pool@
    }

    /// Which slots are free.
    pub closed spec fn free(self) -> Seq<bool> {
        Seq::new(N as nat, |i: int| self.free[i] == 1)
    }

    /// What stands for the pool, so that a guard can say which one it is of.
    pub closed spec fn id(self) -> int {
        self.id@
    }
}

impl<T: Copy, const N: usize> PoolAllocator<T, N> {
    pub fn new(init_array: [T; N]) -> (pool: PoolAllocator<T, N>)
        ensures
            pool.items() == init_array@,
            pool.free() == Seq::new(N as nat, |i: int| true),
    {
        PoolAllocator { pool: init_array, free: [1;N], id: Ghost(arbitrary()) }
    }
}

impl<T, const N: usize> PoolAllocator<T, N> {
    /// Hands out the lowest free slot, if there is one.
    pub fn allocate(&mut self) -> (guard: Option<PoolAllocatorGuard<N>>)
        ensures
            guard is Some <==> first_free(old(self).free()) is Some,
            guard matches Some(g) ==> first_free(old(self).free()) == Some(g.slot())
                && g.pool_id() == old(self).id(),
            final(self).id() == old(self).id(),
            final(self).items() == old(self).items(),
            final(self).free() == after_allocation(old(self).free()),
            old(self).free().len() == N,
            guard matches Some(g) ==> {
                &&& 0 <= g.slot() < N
                &&& old(self).free()[g.slot()]
                &&& forall|j: int| 0 <= j < g.slot() ==> !#[trigger] old(self).free()[j]
                &&& final(self).free() == old(self).free().update(g.slot(), false)
            },
            guard is None ==> {
                &&& forall|j: int| 0 <= j < N ==> !#[trigger] old(self).free()[j]
                &&& final(self).free() == old(self).free()
            },
    {
        proof {
            lemma_first_free_from(self.free(), 0);
        }
        let mut idx: usize = 0;
        while idx < N
            invariant
                idx <= N,
                *self == *old(self),
                first_free(self.free()) == first_free_from(self.free(), idx as int),
            decreases N - idx,
        {
            if self.free[idx] == 1 {
                self.free[idx] = 0;
                assert(self.free() =~= after_allocation(old(self).free()));
                proof {
                    lemma_first_free_from(old(self).free(), 0);
                }
                return Some(PoolAllocatorGuard { index: idx, pool: Ghost(self.id@) });
            }
            idx = idx + 1;
        }
        None
    }
}

proof fn lemma_first_free_from(free: Seq<bool>, from: int)
    requires
        0 <= from <= free.len(),
    ensures
        match first_free_from(free, from) {
            Some(index) => from <= index < free.len() && free[index] && forall|j: int|
                from <= j < index ==> !#[trigger] free[j],
            None => forall|j: int| from <= j < free.len() ==> !#[trigger] free[j],
        },
    decreases free.len() - from,
{
    if from < free.len() && !free[from] {
        lemma_first_free_from(free, from + 1);
    }
}

/// The slot handed out is a free one and the lowest, and the pool is exhausted only when no slot
/// is free.
pub proof fn law_allocation_takes_lowest_free_slot(free: Seq<bool>)
    ensures
        match first_free(free) {
            Some(index) => 0 <= index < free.len() && free[index] && forall|j: int|
                0 <= j < index ==> !#[trigger] free[j],
            None => forall|j: int| 0 <= j < free.len() ==> !#[trigger] free[j],
        },
{
    lemma_first_free_from(free, 0);
}

/// A slot that was handed out is not handed out again before it is given back.
pub proof fn law_slot_has_one_holder(free: Seq<bool>)
    requires
        first_free(free) is Some,
    ensures
        first_free(after_allocation(free)) != first_free(free),
{
    lemma_first_free_from(free, 0);
    lemma_first_free_from(after_allocation(free), 0);
}

/// Giving a slot back undoes its allocation.
pub proof fn law_drop_undoes_allocation(free: Seq<bool>)
    requires
        first_free(free) is Some,
    ensures
        after_allocation(free).update(first_free(free)->0, true) == free,
{
    lemma_first_free_from(free, 0);
}

/// A slot that is given back can be handed out again.
pub proof fn law_dropped_slot_can_be_allocated(free: Seq<bool>, slot: int)
    requires
        0 <= slot < free.len(),
    ensures
        first_free(free.update(slot, true)) matches Some(index) && index <= slot,
{
    lemma_first_free_from(free.update(slot, true), 0);
    assert(free.update(slot, true)[slot]);
}

/// Which slots are free after `count` allocations and no drop.
pub open spec fn after_allocations(free: Seq<bool>, count: nat) -> Seq<bool>
    decreases count,
{
    if count == 0 {
        free
    } else {
        after_allocation(after_allocations(free, (count - 1) as nat))
    }
}

/// A pool of `n` free slots hands out each of them once, in order, and then nothing.
pub proof fn law_fresh_pool_hands_out_each_slot(n: nat, count: nat)
    requires
        count <= n,
    ensures
        first_free(after_allocations(Seq::new(n, |i: int| true), count)) == if count < n {
            Some(count as int)
        } else {
            None
        },
{
    let free = after_allocations(Seq::new(n, |i: int| true), count);
    lemma_used_from_below(n, count);
    lemma_first_free_from(free, 0);
    if count < n {
        assert(free[count as int]);
    }
}

proof fn lemma_used_from_below(n: nat, count: nat)
    requires
        count <= n,
    ensures
        after_allocations(Seq::new(n, |i: int| true), count) == Seq::new(n, |i: int| i >= count),
    decreases count,
{
    if count == 0 {
        assert(Seq::new(n, |i: int| true) =~= Seq::new(n, |i: int| i >= count));
    } else {
        let before = after_allocations(Seq::new(n, |i: int| true), (count - 1) as nat);
        lemma_used_from_below(n, (count - 1) as nat);
        lemma_first_free_from(before, 0);
        assert(before[count - 1]);
        assert(after_allocation(before) =~= Seq::new(n, |i: int| i >= count));
    }
}

/// What can happen to a pool: a slot is asked for, or one of the guards that are held is dropped,
/// counted from the one that is held longest.
pub enum PoolEvent {
    Allocate,
    Drop(int),
}

/// A pool in use: which slots are free, and the slots of the guards that are held, in the order in
/// which they were handed out.
pub struct PoolUse {
    pub free: Seq<bool>,
    pub held: Seq<int>,
}

impl PoolUse {
    /// A pool of `n` slots of which none is in use yet.
    pub open spec fn fresh(n: nat) -> PoolUse {
        PoolUse { free: Seq::new(n, |i: int| true), held: Seq::empty() }
    }

    /// The pool after an event.
    pub open spec fn after(self, event: PoolEvent) -> PoolUse {
        match event {
            PoolEvent::Allocate => PoolUse {
                free: after_allocation(self.free),
                held: match first_free(self.free) {
                    Some(slot) => self.held.push(slot),
                    None => self.held,
                },
            },
            PoolEvent::Drop(k) => if 0 <= k < self.held.len() {
                PoolUse {
                    free: self.free.update(self.held[k], true),
                    held: self.held.remove(k),
                }
            } else {
                self
            },
        }
    }

    /// The pool after a run of events, oldest first.
    pub open spec fn after_all(self, events: Seq<PoolEvent>) -> PoolUse
        decreases events.len(),
    {
        if events.len() == 0 {
            self
        } else {
            self.after_all(events.drop_last()).after(events.last())
        }
    }

    /// Whether no two guards are for the same slot, every guard is for a slot of the pool, and the
    /// slots without a guard are the free ones.
    pub open spec fn consistent(self) -> bool {
        &&& forall|j: int, k: int| 0 <= j < k < self.held.len() ==> self.held[j] != self.held[k]
        &&& forall|k: int| 0 <= k < self.held.len() ==> 0 <= #[trigger] self.held[k]
            < self.free.len()
        &&& forall|i: int|
            0 <= i < self.free.len() ==> #[trigger] self.free[i] == !self.held.contains(i)
    }
}

proof fn lemma_event_keeps_consistency(pool: PoolUse, event: PoolEvent)
    requires
        pool.consistent(),
    ensures
        pool.after(event).consistent(),
        pool.after(event).free.len() == pool.free.len(),
{
    let after = pool.after(event);
    lemma_first_free_from(pool.free, 0);
    match event {
        PoolEvent::Allocate => {
            if let Some(slot) = first_free(pool.free) {
                assert forall|i: int| 0 <= i < after.free.len() implies #[trigger] after.free[i]
                    == !after.held.contains(i) by {
                    if i == slot {
                        assert(after.held[pool.held.len() as int] == slot);
                    } else if pool.held.contains(i) {
                        let k = choose|k: int| 0 <= k < pool.held.len() && pool.held[k] == i;
                        assert(after.held[k] == i);
                    }
                }
            }
        },
        PoolEvent::Drop(k) => {
            if 0 <= k < pool.held.len() {
                assert forall|i: int| 0 <= i < after.free.len() implies #[trigger] after.free[i]
                    == !after.held.contains(i) by {
                    assert(pool.free[i] == !pool.held.contains(i));
                    if pool.held.contains(i) && i != pool.held[k] {
                        let j = choose|j: int| 0 <= j < pool.held.len() && pool.held[j] == i;
                        assert(after.held[if j < k {
                            j
                        } else {
                            j - 1
                        }] == i);
                    }
                    if after.held.contains(i) {
                        let j = choose|j: int| 0 <= j < after.held.len() && after.held[j] == i;
                        assert(pool.held[if j < k {
                            j
                        } else {
                            j + 1
                        }] == i);
                    }
                }
            }
        },
    }
}

proof fn lemma_run_is_consistent(n: nat, events: Seq<PoolEvent>)
    ensures
        PoolUse::fresh(n).after_all(events).consistent(),
        PoolUse::fresh(n).after_all(events).free.len() == n,
    decreases events.len(),
{
    if events.len() > 0 {
        lemma_run_is_consistent(n, events.drop_last());
        lemma_event_keeps_consistency(
            PoolUse::fresh(n).after_all(events.drop_last()),
            events.last(),
        );
    }
}

/// After any run of allocations and drops the guards that are held are for slots of the pool, no
/// two of them for the same one, and the other slots are free. So no more guards are held than the
/// pool has slots, and it is exhausted exactly when every slot has its guard.
pub proof fn law_held_slots_are_distinct(n: nat, events: Seq<PoolEvent>)
    ensures
        ({
            let pool = PoolUse::fresh(n).after_all(events);
            &&& pool.consistent()
            &&& pool.free.len() == n
            &&& pool.held.len() <= n
            &&& first_free(pool.free) is None <==> pool.held.len() == n
        }),
{
    let pool = PoolUse::fresh(n).after_all(events);
    let all = vstd::set_lib::set_int_range(0, n as int);
    lemma_run_is_consistent(n, events);
    lemma_first_free_from(pool.free, 0);
    vstd::set_lib::lemma_int_range(0, n as int);
    pool.held.unique_seq_to_set();
    let held = pool.held.to_set();
    assert(held.subset_of(all));
    vstd::set_lib::lemma_len_subset(held, all);
    if pool.held.len() == n {
        vstd::set_lib::lemma_subset_equality(held, all);
        assert forall|i: int| 0 <= i < n implies !#[trigger] pool.free[i] by {
            assert(all.contains(i));
            assert(held.contains(i));
        }
    }
    if first_free(pool.free) is None {
        assert forall|i: int| all.contains(i) implies held.contains(i) by {
            assert(!pool.free[i]);
        }
        assert(held =~= all);
    }
}

/// An allocation takes one slot out of the free ones and leaves all others as they are.
pub proof fn law_allocation_takes_one_slot(free: Seq<bool>, i: int)
    requires
        0 <= i < free.len(),
    ensures
        after_allocation(free).len() == free.len(),
        first_free(free) == Some(i) ==> free[i] && !after_allocation(free)[i],
        first_free(free) != Some(i) ==> after_allocation(free)[i] == free[i],
        first_free(free) is None ==> !free[i],
{
    lemma_first_free_from(free, 0);
}

} // verus!
