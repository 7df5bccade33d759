//! Memory that is handed out once and never given back.
use vstd::prelude::*;

verus! {

/// Keeps track of a buffer of `N` bytes that is handed out from front to back.
///
/// Reserving takes `&mut self`: whoever shares an allocator has to keep an interrupt from reserving
/// in the middle of another reservation.
pub struct BumpAllocator<const N: usize> {
    head: usize,
}

/// Whether `offset` is the first place from `head` on that is aligned, in a buffer at address
/// `base`.
pub open spec fn is_placed(base: int, head: int, align: int, offset: int) -> bool {
    &&& head <= offset < head + align
    &&& (base + offset) % align == 0
}

impl<const N: usize> BumpAllocator<N> {
    /// The bytes handed out so far.
    pub closed spec fn head(self) -> nat {
        self.head as nat
    }

    pub fn new() -> (allocator: BumpAllocator<N>)
        ensures
            allocator.head() == 0,
    {
        BumpAllocator { head: 0 }
    }

    /// Reserves room for a `T` and returns its place in the buffer, which lies at address `base`.
    ///
    /// The place is moved up to the alignment of `T`, but what is skipped is not counted as handed
    /// out, and the place may reach past the end of the buffer: a caller checks that it fits.
    pub fn allocate<T>(&mut self, base: usize) -> (offset: usize)
        requires
            old(self).head() < N,
            base + old(self).head() <= usize::MAX,
            old(self).head() + vstd::layout::size_of::<T>() <= usize::MAX,
            old(self).head() + vstd::layout::align_of::<T>() <= usize::MAX,
        ensures
            is_placed(
                base as int,
                old(self).head() as int,
                vstd::layout::align_of::<T>() as int,
                offset as int,
            ),
            final(self).head() == old(self).head() + vstd::layout::size_of::<T>(),
            (base + offset) % vstd::layout::align_of::<T>() as int == 0,
            old(self).head() <= offset < old(self).head() + vstd::layout::align_of::<T>(),
    {
        broadcast use vstd::layout::align_nonzero;

        let size: usize = core::mem::size_of::<T>();
        let align: usize = core::mem::align_of::<T>();
        let over: usize = (base + self.head) % align;
        let offset: usize = if over == 0 {
            self.head
        } else {
            self.head + (align - over)
        };
        proof {
            let address = base + self.head;
            vstd::arithmetic::div_mod::lemma_fundamental_div_mod(address, align as int);
            if over != 0 {
                let next = address / align as int + 1;
                assert(base + offset == align * next) by (nonlinear_arith)
                    requires
                        address == align * (address / align as int) + over,
                        base + offset == address + align - over,
                        next == address / align as int + 1,
                ;
                vstd::arithmetic::div_mod::lemma_mod_multiples_basic(next, align as int);
                assert(align * next == next * align) by (nonlinear_arith);
            }
        }
        self.head = self.head + size;
        offset
    }

    pub fn capacity(&self) -> (bytes: usize)
        ensures
            bytes == N,
    {
        N
    }

    /// The bytes that are left.
    pub fn free(&self) -> (bytes: usize)
        requires
            self.head() <= N,
        ensures
            bytes == N - self.head(),
    {
        N - self.head
    }
}

/// There is one place for a reservation.
#[verifier::spinoff_prover]
pub proof fn law_place_is_unique(base: int, head: int, align: int, left: int, right: int)
    requires
        is_placed(base, head, align, left),
        is_placed(base, head, align, right),
    ensures
        left == right,
{
    let (low, high) = if left <= right {
        (left, right)
    } else {
        (right, left)
    };
    vstd::arithmetic::div_mod::lemma_mod_equivalence(base + high, base + low, align);
    vstd::arithmetic::div_mod::lemma_small_mod((high - low) as nat, align as nat);
}

/// Two reservations in a row share no byte as long as the second is moved up for its alignment by
/// no less than the first was, or one of them is empty, or the first was moved up past the second.
/// In every other case they overlap, because what is skipped in front of the first is not counted
/// as handed out.
pub proof fn law_reservations_keep_apart(
    base: int,
    head: int,
    first_size: int,
    first_align: int,
    first: int,
    second_size: int,
    second_align: int,
    second: int,
)
    requires
        is_placed(base, head, first_align, first),
        is_placed(base, head + first_size, second_align, second),
        0 <= first_size,
        0 <= second_size,
    ensures
        (forall|i: int|
            #![trigger is_in(i, first, first_size)]
            !(is_in(i, first, first_size) && is_in(i, second, second_size))) <==> {
            ||| first - head <= second - (head + first_size)
            ||| first_size == 0
            ||| second_size == 0
            ||| second + second_size <= first
        },
{
    let later = if first <= second {
        second
    } else {
        first
    };
    let apart = {
        ||| first - head <= second - (head + first_size)
        ||| first_size == 0
        ||| second_size == 0
        ||| second + second_size <= first
    };
    if !apart {
        assert(is_in(later, first, first_size) && is_in(later, second, second_size));
    }
}

/// Whether byte `i` lies in the reservation of `size` bytes at `offset`.
pub open spec fn is_in(i: int, offset: int, size: int) -> bool {
    offset <= i < offset + size
}

/// The head after a run of reservations (size, alignment) from the start on, oldest first: each
/// moves it by its size.
pub open spec fn head_after(run: Seq<(nat, nat)>) -> nat
    decreases run.len(),
{
    if run.len() == 0 {
        0
    } else {
        head_after(run.drop_last()) + run.last().0
    }
}

/// The sizes of a run of reservations, added up.
pub open spec fn sum_of_sizes(run: Seq<(nat, nat)>) -> nat
    decreases run.len(),
{
    if run.len() == 0 {
        0
    } else {
        run[0].0 + sum_of_sizes(run.drop_first())
    }
}

/// Whether `places` are the places of a run of reservations in a buffer at address `base`.
pub open spec fn are_placed(base: int, run: Seq<(nat, nat)>, places: Seq<int>) -> bool {
    &&& places.len() == run.len()
    &&& forall|k: int|
        0 <= k < run.len() ==> is_placed(
            base,
            head_after(run.take(k)) as int,
            (#[trigger] run[k]).1 as int,
            places[k],
        )
}

/// Whether reservation `k` of a run is not moved up for its alignment.
pub open spec fn is_unpadded(base: int, run: Seq<(nat, nat)>, k: int) -> bool {
    (base + head_after(run.take(k))) % run[k].1 as int == 0
}

/// After any run of reservations the bytes handed out are the sum of their sizes, so what is left
/// of a buffer is its capacity less that sum.
pub proof fn law_head_is_sum_of_sizes(run: Seq<(nat, nat)>)
    ensures
        head_after(run) == sum_of_sizes(run),
    decreases run.len(),
{
    if run.len() == 1 {
        reveal_with_fuel(head_after, 2);
        reveal_with_fuel(sum_of_sizes, 2);
    } else if run.len() > 1 {
        law_head_is_sum_of_sizes(run.drop_last());
        law_head_is_sum_of_sizes(run.drop_first());
        law_head_is_sum_of_sizes(run.drop_first().drop_last());
        assert(run.drop_first().drop_last() =~= run.drop_last().drop_first());
    }
}

proof fn lemma_head_moves_up(run: Seq<(nat, nat)>, j: int, k: int)
    requires
        0 <= j < k <= run.len(),
    ensures
        head_after(run.take(j)) + run[j].0 <= head_after(run.take(k)),
    decreases k - j,
{
    assert(run.take(k).drop_last() =~= run.take(k - 1));
    if j < k - 1 {
        lemma_head_moves_up(run, j, k - 1);
    }
}

proof fn lemma_aligned_head_is_place(base: int, head: int, align: int, place: int)
    requires
        is_placed(base, head, align, place),
        (base + head) % align == 0,
    ensures
        place == head,
{
    law_place_is_unique(base, head, align, place, head);
}

proof fn lemma_head_after_one_more(run: Seq<(nat, nat)>, k: int)
    requires
        0 <= k < run.len(),
    ensures
        head_after(run.take(k + 1)) == head_after(run.take(k)) + run[k].0,
        head_after(run.take(k + 1)) <= head_after(run),
{
    assert(run.take(k + 1).drop_last() =~= run.take(k));
    assert(run.take(run.len() as int) =~= run);
    if k + 1 < run.len() {
        lemma_head_moves_up(run, k + 1, run.len() as int);
    }
}

/// A reservation that needs no padding lies right at the head, and takes the bytes up to where the
/// head then goes.
#[verifier::spinoff_prover]
pub proof fn law_unpadded_place_is_head(
    base: int,
    run: Seq<(nat, nat)>,
    places: Seq<int>,
    k: int,
)
    requires
        are_placed(base, run, places),
        0 <= k < run.len(),
        is_unpadded(base, run, k),
    ensures
        places[k] == head_after(run.take(k)),
        places[k] + run[k].0 == head_after(run.take(k + 1)),
        head_after(run.take(k + 1)) <= head_after(run),
{
    lemma_aligned_head_is_place(
        base,
        head_after(run.take(k)) as int,
        run[k].1 as int,
        places[k],
    );
    lemma_head_after_one_more(run, k);
}

/// A reservation shares no byte with any earlier one that needed no padding, however many lie
/// between them. So in a run without padding all reservations keep apart.
#[verifier::spinoff_prover]
pub proof fn law_unpadded_reservations_keep_apart(
    base: int,
    run: Seq<(nat, nat)>,
    places: Seq<int>,
    j: int,
    k: int,
)
    requires
        are_placed(base, run, places),
        0 <= j < k < run.len(),
        is_unpadded(base, run, j),
    ensures
        places[j] + run[j].0 <= places[k],
        forall|i: int|
            #![trigger is_in(i, places[j], run[j].0 as int)]
            !(is_in(i, places[j], run[j].0 as int) && is_in(i, places[k], run[k].0 as int)),
{
    law_unpadded_place_is_head(base, run, places, j);
    lemma_head_moves_up(run, j, k);
    assert(is_placed(base, head_after(run.take(k)) as int, run[k].1 as int, places[k]));
}

/// A buffer after the bytes of a value were written at `place`.
pub open spec fn written(memory: Seq<u8>, place: int, bytes: Seq<u8>) -> Seq<u8> {
    Seq::new(
        memory.len(),
        |i: int|
            if is_in(i, place, bytes.len() as int) {
                bytes[i - place]
            } else {
                memory[i]
            },
    )
}

/// Writing a value at its place keeps the values at the places of all earlier reservations that
/// needed no padding, and the value can be read back.
pub proof fn law_write_keeps_earlier_values(
    base: int,
    run: Seq<(nat, nat)>,
    places: Seq<int>,
    j: int,
    k: int,
    memory: Seq<u8>,
    bytes: Seq<u8>,
)
    requires
        are_placed(base, run, places),
        0 <= j < k < run.len(),
        is_unpadded(base, run, j),
        bytes.len() == run[k].0,
        places[k] + run[k].0 <= memory.len(),
    ensures
        written(memory, places[k], bytes).subrange(places[k], places[k] + run[k].0) == bytes,
        written(memory, places[k], bytes).subrange(places[j], places[j] + run[j].0)
            == memory.subrange(places[j], places[j] + run[j].0),
{
    law_unpadded_reservations_keep_apart(base, run, places, j, k);
    assert(is_placed(base, head_after(run.take(j)) as int, run[j].1 as int, places[j]));
    assert(is_placed(base, head_after(run.take(k)) as int, run[k].1 as int, places[k]));
    let after = written(memory, places[k], bytes);
    assert(after.subrange(places[k], places[k] + run[k].0) =~= bytes);
    assert(after.subrange(places[j], places[j] + run[j].0) =~= memory.subrange(
        places[j],
        places[j] + run[j].0,
    ));
}

/// The place of a reservation is the lowest aligned one from the head on: it is aligned, and no
/// aligned address lies between the head and it.
pub proof fn law_place_is_lowest_aligned(base: int, head: int, align: int, place: int, lower: int)
    requires
        is_placed(base, head, align, place),
    ensures
        head <= place,
        (base + place) % align == 0,
        head <= lower < place ==> (base + lower) % align != 0,
{
    if head <= lower < place && (base + lower) % align == 0 {
        law_place_is_unique(base, head, align, place, lower);
    }
}

} // verus!
