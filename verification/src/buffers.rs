//! The flat buffers the renderer reads straight out of memory, and the
//! particle ring.
//!
//! A `RecordBuffer` is a fixed block of `capacity` records of `stride` values
//! each, filled from the front; once full, further records are dropped rather
//! than overwriting anything. The render instances, the minimap blips and the
//! per-frame sound events are all kept this way. The `ParticleRing` instead
//! overwrites its oldest slot when it wraps.
use vstd::prelude::*;

verus! {

/// A record block: `count` records of `stride` values at the front of `data`.
pub struct RecordBuffer<T> {
    data: Vec<T>,
    stride: usize,
    capacity: usize,
    count: usize,
}

/// `data` with the `stride` values of `record` written over record slot `at`.
pub open spec fn with_record<T>(data: Seq<T>, stride: int, at: int, record: Seq<T>) -> Seq<T> {
    Seq::new(
        data.len(),
        |k: int|
            if at * stride <= k < at * stride + stride {
                record[k - at * stride]
            } else {
                data[k]
            },
    )
}

impl<T: Copy> RecordBuffer<T> {
    /// Every value of the block, records back to back.
    pub closed spec fn values(&self) -> Seq<T> {
        self.data@
    }

    /// Values per record.
    pub closed spec fn stride_spec(&self) -> int {
        self.stride as int
    }

    /// Records the block can hold.
    pub closed spec fn capacity_spec(&self) -> int {
        self.capacity as int
    }

    /// Records written since the last reset.
    pub closed spec fn count_spec(&self) -> int {
        self.count as int
    }

    /// The block is exactly `capacity` records long and never holds more than
    /// that.
    pub open spec fn wf(&self) -> bool {
        &&& self.stride_spec() > 0
        &&& self.values().len() == self.capacity_spec() * self.stride_spec()
        &&& 0 <= self.count_spec() <= self.capacity_spec()
    }

    /// An empty block of `capacity` records of `stride` values, every value
    /// starting at `fill`.
    pub fn new(capacity: usize, stride: usize, fill: T) -> (b: Self)
        requires
            stride > 0,
            capacity * stride <= usize::MAX,
        ensures
            b.wf(),
            b.stride_spec() == stride,
            b.capacity_spec() == capacity,
            b.count_spec() == 0,
            b.values() == Seq::new((capacity * stride) as nat, |k: int| fill),
    {
        let total = capacity * stride;
        let mut data: Vec<T> = Vec::new();
        let mut k: usize = 0;
        while k < total
            invariant
                k <= total,
                data@.len() == k,
                forall|m: int| 0 <= m < k ==> data@[m] == fill,
            decreases total - k,
        {
            data.push(fill);
            k = k + 1;
        }
        assert(data@ =~= Seq::new((capacity * stride) as nat, |m: int| fill));
        RecordBuffer { data, stride, capacity, count: 0 }
    }

    /// Records written since the last reset.
    pub fn count(&self) -> (n: usize)
        ensures
            n == self.count_spec(),
    {
        self.count
    }

    /// Records the block can hold.
    pub fn capacity(&self) -> (n: usize)
        ensures
            n == self.capacity_spec(),
    {
        self.capacity
    }

    /// Values per record.
    pub fn stride(&self) -> (n: usize)
        ensures
            n == self.stride_spec(),
    {
        self.stride
    }

    /// Value `k` of the block.
    pub fn value(&self, k: usize) -> (v: T)
        requires
            self.wf(),
            k < self.values().len(),
        ensures
            v == self.values()[k as int],
    {
        self.data[k]
    }

    /// Starts a new frame: the block is empty again. Old values stay in place
    /// until overwritten, which is harmless because only `count` records are
    /// ever read.
    pub fn reset(&mut self)
        requires
            old(self).wf(),
        ensures
            final(self).wf(),
            final(self).count_spec() == 0,
            final(self).values() == old(self).values(),
            final(self).stride_spec() == old(self).stride_spec(),
            final(self).capacity_spec() == old(self).capacity_spec(),
    {
        self.count = 0;
    }

    /// Appends one record. When the block is already full the record is
    /// dropped and nothing changes.
    pub fn push(&mut self, record: &[T])
        requires
            old(self).wf(),
            record@.len() == old(self).stride_spec(),
        ensures
            final(self).wf(),
            final(self).stride_spec() == old(self).stride_spec(),
            final(self).capacity_spec() == old(self).capacity_spec(),
            old(self).count_spec() >= old(self).capacity_spec() ==> final(self).count_spec()
                == old(self).count_spec() && final(self).values() == old(self).values(),
            old(self).count_spec() < old(self).capacity_spec() ==> final(self).count_spec()
                == old(self).count_spec() + 1 && final(self).values() == with_record(
                old(self).values(),
                old(self).stride_spec(),
                old(self).count_spec(),
                record@,
            ),
    {
        if self.count >= self.capacity {
            return;
        }
        let stride = self.stride;
        let total = self.data.len();
        proof {
            assert(self.count * stride + stride <= self.capacity * stride) by (nonlinear_arith)
                requires
                    self.count < self.capacity,
                    stride > 0,
            ;
        }
        let base = self.count * stride;
        let mut k: usize = 0;
        while k < stride
            invariant
                self.wf(),
                stride == self.stride_spec(),
                self.stride_spec() == old(self).stride_spec(),
                self.capacity_spec() == old(self).capacity_spec(),
                self.count_spec() == old(self).count_spec(),
                self.count_spec() < self.capacity_spec(),
                base == self.count_spec() * stride,
                base + stride <= total,
                total == self.values().len(),
                record@.len() == stride,
                k <= stride,
                self.values().len() == old(self).values().len(),
                forall|m: int|
                    0 <= m < self.values().len() ==> self.values()[m] == (if base <= m < base
                        + k {
                        record@[m - base]
                    } else {
                        old(self).values()[m]
                    }),
            decreases stride - k,
        {
            self.data.set(base + k, record[k]);
            k = k + 1;
        }
        self.count = self.count + 1;
        assert(self.values() =~= with_record(
            old(self).values(),
            old(self).stride_spec(),
            old(self).count_spec(),
            record@,
        ));
    }
}

/// A fixed ring of particle slots; each spawn takes the slot after the last
/// one taken, overwriting whatever was there.
pub struct ParticleRing<T> {
    slots: Vec<T>,
    head: usize,
}

impl<T: Copy> ParticleRing<T> {
    /// Every slot.
    pub closed spec fn slots_spec(&self) -> Seq<T> {
        self.slots@
    }

    /// Slot the next spawn takes.
    pub closed spec fn head_spec(&self) -> int {
        self.head as int
    }

    /// The ring has at least one slot and the head names one of them.
    pub open spec fn wf(&self) -> bool {
        &&& self.slots_spec().len() > 0
        &&& 0 <= self.head_spec() < self.slots_spec().len()
    }

    /// A ring of `size` slots, all `fill`, with the head at slot 0.
    pub fn new(size: usize, fill: T) -> (r: Self)
        requires
            size > 0,
        ensures
            r.wf(),
            r.head_spec() == 0,
            r.slots_spec() == Seq::new(size as nat, |k: int| fill),
    {
        let mut slots: Vec<T> = Vec::new();
        let mut k: usize = 0;
        while k < size
            invariant
                k <= size,
                slots@.len() == k,
                forall|m: int| 0 <= m < k ==> slots@[m] == fill,
            decreases size - k,
        {
            slots.push(fill);
            k = k + 1;
        }
        assert(slots@ =~= Seq::new(size as nat, |m: int| fill));
        ParticleRing { slots, head: 0 }
    }

    /// Slot count.
    pub fn len(&self) -> (n: usize)
        ensures
            n == self.slots_spec().len(),
    {
        self.slots.len()
    }

    /// Slot the next spawn will take.
    pub fn head(&self) -> (h: usize)
        ensures
            h == self.head_spec(),
    {
        self.head
    }

    /// Slot `k`.
    pub fn slot(&self, k: usize) -> (v: T)
        requires
            k < self.slots_spec().len(),
        ensures
            v == self.slots_spec()[k as int],
    {
        self.slots[k]
    }

    /// Overwrites slot `k` in place, as the integrator does each tick.
    pub fn set_slot(&mut self, k: usize, v: T)
        requires
            old(self).wf(),
            k < old(self).slots_spec().len(),
        ensures
            final(self).wf(),
            final(self).head_spec() == old(self).head_spec(),
            final(self).slots_spec() == old(self).slots_spec().update(k as int, v),
    {
        self.slots.set(k, v);
    }

    /// Spawns `v` into the head slot and moves the head on, wrapping to slot
    /// 0 after the last. Returns the slot that was written.
    pub fn spawn(&mut self, v: T) -> (at: usize)
        requires
            old(self).wf(),
        ensures
            final(self).wf(),
            at == old(self).head_spec(),
            final(self).slots_spec() == old(self).slots_spec().update(at as int, v),
            final(self).head_spec() == (old(self).head_spec() + 1) % (old(
                self,
            ).slots_spec().len() as int),
    {
        let at = self.head;
        let size = self.slots.len();
        self.slots.set(at, v);
        self.head = (at + 1) % size;
        at
    }
}

/// Where the head of a ring of `n` slots stands after `k` spawns from `head`.
pub open spec fn head_after(head: int, n: int, k: nat) -> int
    decreases k,
{
    if k == 0 {
        head
    } else {
        (head_after(head, n, (k - 1) as nat) + 1) % n
    }
}

/// Spawning walks the head through the slots in turn: after `k` spawns it
/// stands `k` slots on (wrapping), so `n` spawns into a ring of `n` bring it
/// back where it started, having written every slot once.
pub proof fn lemma_ring_walk(head: int, n: int, k: nat)
    requires
        n > 0,
        0 <= head < n,
    ensures
        head_after(head, n, k) == (head + k) % n,
        head_after(head, n, n as nat) == head,
{
    lemma_ring_steps(head, n, k);
    lemma_ring_steps(head, n, n as nat);
    vstd::arithmetic::div_mod::lemma_mod_add_multiples_vanish(head, n);
    vstd::arithmetic::div_mod::lemma_small_mod(head as nat, n as nat);
    assert(n + head == head + n);
}

proof fn lemma_ring_steps(head: int, n: int, k: nat)
    requires
        n > 0,
        0 <= head < n,
    ensures
        head_after(head, n, k) == (head + k) % n,
    decreases k,
{
    if k > 0 {
        lemma_ring_steps(head, n, (k - 1) as nat);
        vstd::arithmetic::div_mod::lemma_add_mod_noop_right(1, head + k - 1, n);
        assert(1 + (head + k - 1) == head + k);
    } else {
        vstd::arithmetic::div_mod::lemma_small_mod(head as nat, n as nat);
    }
}

/// The lowest slot whose flag is clear, if any; this is how creatures, orbs
/// and projectiles find room when they spawn.
pub fn first_free(alive: &Vec<bool>) -> (slot: Option<usize>)
    ensures
        match slot {
            Some(i) => i < alive@.len() && !alive@[i as int] && forall|k: int|
                0 <= k < i ==> alive@[k],
            None => forall|k: int| 0 <= k < alive@.len() ==> alive@[k],
        },
{
    let mut i: usize = 0;
    while i < alive.len()
        invariant
            i <= alive@.len(),
            forall|k: int| 0 <= k < i ==> alive@[k],
        decreases alive@.len() - i,
    {
        if !alive[i] {
            return Some(i);
        }
        i = i + 1;
    }
    None
}

} // verus!
