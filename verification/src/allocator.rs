use vstd::prelude::*;
use vstd::arithmetic::power2::{pow2, lemma_pow2_pos, lemma_pow2_strictly_increases, lemma2_to64};
use vstd::bits::{lemma_usize_low_bits_mask_is_mod, low_bits_mask};

verus! {

/// Size in bytes of the heap handed to the allocator at start-up.
pub const HEAP_SIZE: usize = 0x2000000;

/// A bump allocator: it hands out consecutive regions of its heap and takes
/// the whole heap back once every allocation has been freed.
pub struct Dummy {
    heap_start: usize,
    heap_end: usize,
    next: usize,
    allocations: usize,
}

/// What a `Dummy` holds, as numbers.
pub struct HeapState {
    pub heap_start: nat,
    pub heap_end: nat,
    pub next: nat,
    pub allocations: nat,
}

impl View for Dummy {
    type V = HeapState;

    closed spec fn view(&self) -> HeapState {
        HeapState {
            heap_start: self.heap_start as nat,
            heap_end: self.heap_end as nat,
            next: self.next as nat,
            allocations: self.allocations as nat,
        }
    }
}

impl HeapState {
    /// The next free byte lies between the heap's two ends.
    pub open spec fn wf(self) -> bool {
        self.heap_start <= self.next <= self.heap_end
    }

    /// An allocation of `size` bytes fits between the next free byte and
    /// the end of the heap.
    pub open spec fn fits(self, size: nat) -> bool {
        self.next + size <= self.heap_end
    }

    /// The state after an allocation of `size` bytes and the address it
    /// returns: the next free byte, or 0 (the null address) and no change
    /// where it does not fit.
    pub open spec fn alloc_step(self, size: nat) -> (HeapState, nat) {
        if self.fits(size) {
            (HeapState { next: self.next + size, allocations: self.allocations + 1, ..self }, self.next)
        } else {
            (self, 0)
        }
    }

    /// The state after a deallocation: one allocation fewer, and the whole
    /// heap free again once none is left.
    pub open spec fn dealloc_step(self) -> HeapState
        recommends
            self.allocations > 0,
    {
        let allocations = (self.allocations - 1) as nat;
        HeapState {
            allocations,
            next: if allocations == 0 { self.heap_start } else { self.next },
            ..self
        }
    }

    /// The state after `init` with a heap of `size` bytes at `start`.
    pub open spec fn init_step(self, start: nat, size: nat) -> HeapState {
        let end = if start + size > usize::MAX { usize::MAX as nat } else { start + size };
        HeapState { heap_start: start, heap_end: end, next: start, ..self }
    }
}

impl Dummy {
    #[verifier::type_invariant]
    spec fn bounds(self) -> bool {
        self.heap_start <= self.next <= self.heap_end
    }

    /// An allocator with an empty heap at address 0.
    pub fn new() -> (d: Self)
        ensures
            d@ == (HeapState { heap_start: 0, heap_end: 0, next: 0, allocations: 0 }),
            d@.wf(),
    {
        Dummy { heap_start: 0, heap_end: 0, next: 0, allocations: 0 }
    }

    /// Gives the allocator the heap of `heap_size` bytes at address
    /// `heap_start` (its end saturates at the top of the address space).
    /// The count of live allocations is kept.
    pub fn init(&mut self, heap_start: usize, heap_size: usize)
        ensures
            final(self)@ == old(self)@.init_step(heap_start as nat, heap_size as nat),
            final(self)@.wf(),
    {
        let heap_end = heap_start.saturating_add(heap_size);
        *self = Dummy { heap_start, heap_end, next: heap_start, allocations: self.allocations };
    }

    /// Allocates `size` bytes: returns the next free address and moves it
    /// on by `size`, or returns 0 and changes nothing where the heap has no
    /// room left.
    pub fn allocate(&mut self, size: usize) -> (r: usize)
        requires
            old(self)@.next + size <= usize::MAX,
            old(self)@.fits(size as nat) ==> old(self)@.allocations < usize::MAX,
        ensures
            (final(self)@, r as nat) == old(self)@.alloc_step(size as nat),
            final(self)@.wf(),
    {
        proof {
            use_type_invariant(&*self);
        }
        let alloc_start = self.next;
        let alloc_end = alloc_start + size;
        if alloc_end > self.heap_end {
            0
        } else {
            *self = Dummy {
                heap_start: self.heap_start,
                heap_end: self.heap_end,
                next: alloc_end,
                allocations: self.allocations + 1,
            };
            alloc_start
        }
    }

    /// Frees an allocation. The bump allocator only counts: once no
    /// allocation is left the whole heap is free again.
    pub fn dealloc(&mut self, _ptr: usize, _size: usize)
        requires
            old(self)@.allocations > 0,
        ensures
            final(self)@ == old(self)@.dealloc_step(),
            final(self)@.wf(),
    {
        proof {
            use_type_invariant(&*self);
        }
        let allocations = self.allocations - 1;
        let next = if allocations == 0 { self.heap_start } else { self.next };
        *self = Dummy { heap_start: self.heap_start, heap_end: self.heap_end, next, allocations };
    }
}

impl Dummy {
    /// Every number an allocator holds is a `usize`.
    pub proof fn lemma_fields_fit(&self)
        ensures
            self@.heap_start <= usize::MAX,
            self@.heap_end <= usize::MAX,
            self@.next <= usize::MAX,
            self@.allocations <= usize::MAX,
    {
    }

    /// The next free address.
    pub fn next(&self) -> (r: usize)
        ensures
            r == self@.next,
    {
        self.next
    }

    /// The number of live allocations.
    pub fn allocations(&self) -> (r: usize)
        ensures
            r == self@.allocations,
    {
        self.allocations
    }

    /// The end of the heap.
    pub fn heap_end(&self) -> (r: usize)
        ensures
            r == self@.heap_end,
    {
        self.heap_end
    }
}

/// Every state an allocator reaches keeps its next free byte inside the
/// heap: `init`, an allocation and a deallocation all keep it there.
pub proof fn lemma_steps_keep_next_in_heap(s: HeapState, start: nat, size: nat)
    requires
        start <= usize::MAX,
        s.wf(),
    ensures
        s.init_step(start, size).wf(),
        s.alloc_step(size).0.wf(),
        s.allocations > 0 ==> s.dealloc_step().wf(),
{
}

/// A successful allocation lies inside the heap, from the returned address
/// on for `size` bytes.
pub proof fn lemma_alloc_within_heap(s: HeapState, size: nat)
    requires
        s.wf(),
        s.fits(size),
    ensures
        s.heap_start <= s.alloc_step(size).1,
        s.alloc_step(size).1 + size == s.alloc_step(size).0.next,
        s.alloc_step(size).0.next <= s.heap_end,
        s.alloc_step(size).0.wf(),
{
}

/// The regions `a` and `b`, each an address and a length, do not overlap.
pub open spec fn disjoint(a: (nat, nat), b: (nat, nat)) -> bool {
    a.0 + a.1 <= b.0 || b.0 + b.1 <= a.0
}

/// `live` lists the allocations not yet freed, as address and length: one
/// for each counted allocation, each inside the heap below the next free
/// byte, and no two overlapping.
pub open spec fn live_blocks(s: HeapState, live: Seq<(nat, nat)>) -> bool {
    &&& s.wf()
    &&& live.len() == s.allocations
    &&& forall|i: int| 0 <= i < live.len() ==> s.heap_start <= #[trigger] live[i].0 && live[i].0 + live[i].1 <= s.next
    &&& forall|i: int, j: int| 0 <= i < live.len() && 0 <= j < live.len() && i != j ==> disjoint(#[trigger] live[i], #[trigger] live[j])
}

/// A heap given to an allocator with no live allocation has none.
pub proof fn lemma_init_has_no_live_blocks(s: HeapState, start: nat, size: nat)
    requires
        start <= usize::MAX,
        s.allocations == 0,
    ensures
        live_blocks(s.init_step(start, size), Seq::empty()),
{
}

/// A successful allocation does not overlap any live allocation, and it
/// joins them: the allocator then counts exactly the live allocations
/// again.
pub proof fn lemma_alloc_keeps_live_blocks_disjoint(s: HeapState, live: Seq<(nat, nat)>, size: nat)
    requires
        live_blocks(s, live),
        s.fits(size),
    ensures
        forall|i: int| 0 <= i < live.len() ==> disjoint(#[trigger] live[i], (s.alloc_step(size).1, size)),
        live_blocks(s.alloc_step(size).0, live.push((s.alloc_step(size).1, size))),
{
    let t = s.alloc_step(size).0;
    let l2 = live.push((s.next, size));
    assert forall|i: int, j: int| 0 <= i < l2.len() && 0 <= j < l2.len() && i != j implies disjoint(
        #[trigger] l2[i],
        #[trigger] l2[j],
    ) by {
        if i < live.len() && j < live.len() {
            assert(disjoint(live[i], live[j]));
        } else if i < live.len() {
            assert(live[i].0 + live[i].1 <= s.next);
        } else {
            assert(live[j].0 + live[j].1 <= s.next);
        }
    }
    assert forall|i: int| 0 <= i < l2.len() implies t.heap_start <= #[trigger] l2[i].0 && l2[i].0 + l2[i].1
        <= t.next by {
        if i < live.len() {
            assert(s.heap_start <= live[i].0 && live[i].0 + live[i].1 <= s.next);
        }
    }
}

/// Freeing a live allocation keeps the count equal to the live allocations
/// left, and never takes it below zero: there is an allocation to free.
pub proof fn lemma_dealloc_keeps_live_blocks(s: HeapState, live: Seq<(nat, nat)>, k: int)
    requires
        live_blocks(s, live),
        0 <= k < live.len(),
    ensures
        s.allocations > 0,
        live_blocks(s.dealloc_step(), live.remove(k)),
{
    let t = s.dealloc_step();
    let l2 = live.remove(k);
    assert forall|i: int| 0 <= i < l2.len() implies t.heap_start <= #[trigger] l2[i].0 && l2[i].0 + l2[i].1
        <= t.next by {
        let i0 = if i < k { i } else { i + 1 };
        assert(l2[i] == live[i0]);
        assert(s.heap_start <= live[i0].0 && live[i0].0 + live[i0].1 <= s.next);
    }
    assert forall|i: int, j: int| 0 <= i < l2.len() && 0 <= j < l2.len() && i != j implies disjoint(
        #[trigger] l2[i],
        #[trigger] l2[j],
    ) by {
        let i0 = if i < k { i } else { i + 1 };
        let j0 = if j < k { j } else { j + 1 };
        assert(l2[i] == live[i0]);
        assert(l2[j] == live[j0]);
        assert(disjoint(live[i0], live[j0]));
    }
}

/// An allocation succeeds exactly where it fits below the end of the heap;
/// it then returns the next free address, moves that address on by `size`
/// and counts one more allocation. Otherwise it returns 0 and changes
/// nothing. The heap's ends never change.
pub proof fn lemma_alloc_step_fields(s: HeapState, size: nat)
    ensures
        s.next + size <= s.heap_end ==> {
            &&& s.alloc_step(size).1 == s.next
            &&& s.alloc_step(size).0.next == s.next + size
            &&& s.alloc_step(size).0.allocations == s.allocations + 1
        },
        s.next + size > s.heap_end ==> s.alloc_step(size).1 == 0 && s.alloc_step(size).0 == s,
        s.alloc_step(size).0.heap_start == s.heap_start,
        s.alloc_step(size).0.heap_end == s.heap_end,
{
}

/// A deallocation counts one allocation fewer. While allocations remain
/// live it leaves the next free address where it was; once the last one
/// is freed the next free address goes back to the start of the heap. The
/// heap's ends never change.
pub proof fn lemma_dealloc_step_fields(s: HeapState)
    requires
        s.allocations > 0,
    ensures
        s.dealloc_step().allocations == s.allocations - 1,
        s.allocations > 1 ==> s.dealloc_step().next == s.next,
        s.allocations == 1 ==> s.dealloc_step().next == s.heap_start,
        s.dealloc_step().heap_start == s.heap_start,
        s.dealloc_step().heap_end == s.heap_end,
{
}

/// `init` sets the heap to `size` bytes from `start`, its end saturating
/// at the top of the address space, with the next free address at its
/// start; it keeps the count of allocations.
pub proof fn lemma_init_step_fields(s: HeapState, start: nat, size: nat)
    ensures
        s.init_step(start, size).heap_start == start,
        s.init_step(start, size).heap_end == if start + size <= usize::MAX {
            start + size
        } else {
            usize::MAX as nat
        },
        s.init_step(start, size).next == start,
        s.init_step(start, size).allocations == s.allocations,
{
}

/// Two successive allocations that both succeed do not overlap: the second
/// starts where the first one ends.
pub proof fn lemma_successive_allocs_disjoint(s: HeapState, size1: nat, size2: nat)
    requires
        s.wf(),
        s.fits(size1),
        s.alloc_step(size1).0.fits(size2),
    ensures
        s.alloc_step(size1).1 + size1 == s.alloc_step(size1).0.alloc_step(size2).1,
{
}

/// An allocation that does not fit leaves the allocator as it was.
pub proof fn lemma_failed_alloc_changes_nothing(s: HeapState, size: nat)
    requires
        !s.fits(size),
    ensures
        s.alloc_step(size) == (s, 0nat),
{
}

/// Allocating into an allocator with no live allocation and freeing that
/// allocation again leaves the whole heap free, as before.
pub proof fn lemma_alloc_then_dealloc_frees_heap(s: HeapState, size: nat)
    requires
        s.wf(),
        s.allocations == 0,
        s.fits(size),
    ensures
        s.alloc_step(size).0.dealloc_step() == (HeapState { next: s.heap_start, ..s }),
        s.next == s.heap_start ==> s.alloc_step(size).0.dealloc_step() == s,
{
}

/// For `a` equal to 2 to the power `k`, the low bits below `a` of `x` are
/// its remainder modulo `a`.
proof fn lemma_mask_is_mod(x: usize, a: usize, k: nat)
    requires
        k < usize::BITS,
        a == pow2(k),
    ensures
        x & ((a - 1) as usize) == x % a,
{
    lemma_pow2_pos(k);
    lemma_usize_low_bits_mask_is_mod(x, k);
    assert(low_bits_mask(k) == a - 1);
}

/// Two multiples of `a` that are less than `a` apart are equal.
proof fn lemma_multiples_apart(r: int, m: int, a: int)
    requires
        a > 0,
        r % a == 0,
        m % a == 0,
        m < r ==> r - m < a,
    ensures
        r <= m,
{
    if m < r {
        assert(r == a * (r / a)) by (nonlinear_arith)
            requires
                a > 0,
                r % a == 0,
        ;
        assert(m == a * (m / a)) by (nonlinear_arith)
            requires
                a > 0,
                m % a == 0,
        ;
        assert(false) by (nonlinear_arith)
            requires
                r == a * (r / a),
                m == a * (m / a),
                m < r,
                r - m < a,
                a > 0,
        ;
    }
}

/// Is `n` a power of two?
pub open spec fn is_power_of_two(n: usize) -> bool {
    exists|k: nat| pow2(k) == n
}

/// Aligns `addr` upwards to `align`, which must be a power of two: the
/// least multiple of `align` that is at least `addr`.
pub fn align_up(addr: usize, align: usize) -> (r: usize)
    requires
        is_power_of_two(align),
        addr + align - 1 <= usize::MAX,
    ensures
        r % align == 0,
        addr <= r < addr + align,
        r == (addr + align - 1) / (align as int) * align,
        forall|m: int| addr <= m && #[trigger] (m % (align as int)) == 0 ==> r <= m,
{
    let ghost k = choose|k: nat| pow2(k) == align;
    proof {
        lemma_pow2_pos(k);
        lemma2_to64();
        if k > usize::BITS {
            lemma_pow2_strictly_increases(usize::BITS as nat, k);
        }
    }
    let mask: usize = align - 1;
    let s: usize = addr + mask;
    let r = s & !mask;
    proof {
        assert((s & !mask) + (s & mask) == s) by (bit_vector);
        assert((s & mask) <= mask) by (bit_vector);
        assert(r & mask == 0) by (bit_vector)
            requires
                r == s & !mask,
        ;
        lemma_mask_is_mod(r, align, k);
        lemma_mask_is_mod(s, align, k);
        assert(s == (s / align) * align + s % align) by (nonlinear_arith)
            requires
                align > 0,
        ;
        assert forall|m: int| addr <= m && #[trigger] (m % (align as int)) == 0 implies r <= m by {
            lemma_multiples_apart(r as int, m, align as int);
        }
    }
    r
}


#[verifier::external_type_specification]
#[verifier::external_body]
#[verifier::reject_recursive_types(T)]
pub struct ExSpinMutex<T: ?Sized>(spin::Mutex<T>);

#[verifier::external_type_specification]
#[verifier::external_body]
#[verifier::reject_recursive_types(T)]
pub struct ExSpinMutexGuard<'a, T: ?Sized + 'a>(spin::MutexGuard<'a, T>);

/// Calls `spin::Mutex::new`, which puts `inner` behind a spin lock that is
/// not held. Nothing is stated of the result: what the mutex holds lives
/// behind interior mutability, which no contract here can follow.
#[verifier::external_body]
fn spin_mutex_new<A>(inner: A) -> spin::Mutex<A> {
    spin::Mutex::new(inner)
}

/// Calls `spin::Mutex::lock`, which spins until the lock is free, takes it
/// and returns a guard that releases it when dropped. Nothing is stated of
/// the guard, and the call does not return while another guard of the same
/// mutex is alive.
#[verifier::external_body]
fn spin_mutex_lock<A>(m: &spin::Mutex<A>) -> spin::MutexGuard<'_, A> {
    m.lock()
}

/// A wrapper around `spin::Mutex` to permit trait implementations.
#[verifier::reject_recursive_types(A)]
pub struct Locked<A> {
    inner: spin::Mutex<A>,
}

impl<A> Locked<A> {
    /// Puts `inner` behind a spin lock.
    pub fn new(inner: A) -> Self {
        Locked { inner: spin_mutex_new(inner) }
    }

    /// Takes the lock, spinning until it is free.
    pub fn lock(&self) -> spin::MutexGuard<'_, A> {
        spin_mutex_lock(&self.inner)
    }
}

} // verus!
