//! Firmware-memory allocators: a bump cursor over one virtual-address
//! range, plus the garbage accounting the manager's collection
//! thresholds read.

use vstd::prelude::*;

verus! {

/// Sum of the byte sizes of a garbage list.
pub open spec fn sum_bytes(s: Seq<usize>) -> int
    decreases s.len(),
{
    if s.len() == 0 {
        0
    } else {
        s[0] + sum_bytes(s.drop_first())
    }
}

/// A garbage list splits into any prefix and the rest.
pub proof fn lemma_sum_split(s: Seq<usize>, i: int)
    requires
        0 <= i <= s.len(),
    ensures
        sum_bytes(s) == sum_bytes(s.take(i)) + sum_bytes(s.skip(i)),
    decreases i,
{
    if i == 0 {
        assert(s.take(0) =~= Seq::<usize>::empty());
        assert(s.skip(0) =~= s);
    } else {
        lemma_sum_split(s.drop_first(), i - 1);
        assert(s.take(i).drop_first() =~= s.drop_first().take(i - 1));
        assert(s.skip(i) =~= s.drop_first().skip(i - 1));
        assert(sum_bytes(s.take(i)) == s[0] + sum_bytes(s.drop_first().take(i - 1)));
    }
}

/// Extending a prefix by one element adds that element's size.
pub proof fn lemma_sum_take_succ(s: Seq<usize>, i: int)
    requires
        0 <= i < s.len(),
    ensures
        sum_bytes(s.take(i + 1)) == sum_bytes(s.take(i)) + s[i],
    decreases i,
{
    if i == 0 {
        assert(s.take(1).drop_first() =~= Seq::<usize>::empty());
        assert(s.take(0) =~= Seq::<usize>::empty());
    } else {
        lemma_sum_take_succ(s.drop_first(), i - 1);
        assert(s.take(i + 1).drop_first() =~= s.drop_first().take(i));
        assert(s.take(i).drop_first() =~= s.drop_first().take(i - 1));
    }
}

/// Every element is a size, so sums never go negative.
pub proof fn lemma_sum_nonneg(s: Seq<usize>)
    ensures
        sum_bytes(s) >= 0,
    decreases s.len(),
{
    if s.len() > 0 {
        lemma_sum_nonneg(s.drop_first());
    }
}

/// One firmware-memory allocator: a bump cursor over `[base, top)` and
/// the list of freed objects not yet returned to the firmware.
pub struct Allocator {
    pub base: u64,
    pub top: u64,
    pub cursor: u64,
    /// Byte sizes of freed objects awaiting a firmware cache flush.
    pub garbage: Vec<usize>,
}

impl Allocator {
    pub open spec fn inv(self) -> bool {
        &&& self.base <= self.cursor <= self.top
        &&& sum_bytes(self.garbage@) <= usize::MAX
    }

    pub fn new(base: u64, top: u64) -> (r: Allocator)
        requires
            base <= top,
        ensures
            r.inv(),
            r == (Allocator { base, top, cursor: base, garbage: r.garbage }),
            r.garbage@ == Seq::<usize>::empty(),
    {
        Allocator { base, top, cursor: base, garbage: Vec::new() }
    }

    /// Carve the next `size` bytes out of the range; `None` once the
    /// range is exhausted.
    pub fn alloc_object(&mut self, size: u64) -> (r: Option<u64>)
        requires
            old(self).inv(),
        ensures
            final(self).inv(),
            final(self).garbage@ == old(self).garbage@,
            final(self).base == old(self).base,
            final(self).top == old(self).top,
            match r {
                Some(va) => {
                    &&& va == old(self).cursor
                    &&& final(self).cursor == old(self).cursor + size
                    &&& old(self).cursor + size <= old(self).top
                },
                None => *final(self) == *old(self) && old(self).cursor + size > old(self).top,
            },
    {
        if size <= self.top - self.cursor {
            let va = self.cursor;
            self.cursor = self.cursor + size;
            Some(va)
        } else {
            None
        }
    }

    /// Record a freed object of `bytes` bytes as garbage.
    pub fn add_garbage(&mut self, bytes: usize)
        requires
            old(self).inv(),
            sum_bytes(old(self).garbage@) + bytes <= usize::MAX,
        ensures
            final(self).inv(),
            final(self).garbage@ == old(self).garbage@.push(bytes),
            *final(self) == (Allocator { garbage: final(self).garbage, ..*old(self) }),
    {
        proof {
            lemma_sum_split(self.garbage@.push(bytes), self.garbage@.len() as int);
            assert(self.garbage@.push(bytes).take(self.garbage@.len() as int) =~= self.garbage@);
            assert(self.garbage@.push(bytes).skip(self.garbage@.len() as int) =~= seq![bytes]);
            assert(seq![bytes].drop_first() =~= Seq::<usize>::empty());
            assert(sum_bytes(Seq::<usize>::empty()) == 0);
            assert(sum_bytes(seq![bytes]) == bytes + sum_bytes(seq![bytes].drop_first()));
        }
        self.garbage.push(bytes);
    }

    /// The garbage accounting: how many objects await collection and
    /// how many bytes they hold.
    pub fn garbage(&self) -> (r: (usize, usize))
        requires
            self.inv(),
        ensures
            r.0 == self.garbage.len(),
            r.1 == sum_bytes(self.garbage@),
    {
        let mut bytes: usize = 0;
        let mut i: usize = 0;
        proof {
            assert(self.garbage@.take(0) =~= Seq::<usize>::empty());
        }
        while i < self.garbage.len()
            invariant
                self.inv(),
                i <= self.garbage.len(),
                bytes == sum_bytes(self.garbage@.take(i as int)),
            decreases self.garbage.len() - i,
        {
            proof {
                lemma_sum_take_succ(self.garbage@, i as int);
                lemma_sum_split(self.garbage@, i + 1);
                lemma_sum_nonneg(self.garbage@.skip(i + 1));
            }
            bytes = bytes + self.garbage[i];
            i = i + 1;
        }
        proof {
            assert(self.garbage@.take(self.garbage.len() as int) =~= self.garbage@);
        }
        (self.garbage.len(), bytes)
    }

    /// Collect the `count` oldest garbage objects, after the firmware
    /// cache was flushed.
    pub fn collect_garbage(&mut self, count: usize)
        requires
            old(self).inv(),
            count <= old(self).garbage.len(),
        ensures
            final(self).inv(),
            final(self).garbage@ == old(self).garbage@.skip(count as int),
            *final(self) == (Allocator { garbage: final(self).garbage, ..*old(self) }),
    {
        proof {
            lemma_sum_split(self.garbage@, count as int);
            lemma_sum_nonneg(self.garbage@.take(count as int));
        }
        let mut tail = self.garbage.split_off(count);
        core::mem::swap(&mut self.garbage, &mut tail);
        proof {
            assert(self.garbage@ =~= old(self).garbage@.skip(count as int));
        }
    }
}

/// The five kernel-half allocators, one per virtual-address range class.
pub struct KernelAllocators {
    /// Cached, firmware-private structures.
    pub private: Allocator,
    /// Uncached structures mutated by both sides.
    pub shared: Allocator,
    /// Uncached structures the firmware only reads.
    pub shared_ro: Allocator,
    /// Structures visible to both the GPU and the firmware.
    pub gpu: Allocator,
    /// Structures the GPU reads and the firmware owns.
    pub gpu_ro: Allocator,
}

impl KernelAllocators {
    pub open spec fn inv(self) -> bool {
        &&& self.private.inv()
        &&& self.shared.inv()
        &&& self.shared_ro.inv()
        &&& self.gpu.inv()
        &&& self.gpu_ro.inv()
    }
}

} // verus!
