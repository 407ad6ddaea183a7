//! DMA fence model: completion fences ordered by (context, sequence
//! number), with signalling and error propagation as plain state.

use vstd::prelude::*;
use crate::DriverError;

verus! {

/// State of one DMA fence: a point on a timeline (`context`) identified
/// by a sequence number, which is signalled at most once and may carry
/// an error.
#[derive(Clone, Copy, Debug, PartialEq, Eq, Structural)]
pub struct Fence {
    pub context: u64,
    pub seqno: u64,
    pub signaled: bool,
    pub error: i32,
}

impl Fence {
    pub fn new(context: u64, seqno: u64) -> (r: Fence)
        ensures
            r == (Fence { context, seqno, signaled: false, error: 0 }),
    {
        Fence { context, seqno, signaled: false, error: 0 }
    }
}

/// Common interface of every kind of fence object.
pub trait RawDmaFence: Sized {
    /// The underlying fence state.
    spec fn fence_view(&self) -> Fence;

    /// Signal completion of this fence.
    fn signal(&mut self)
        ensures
            final(self).fence_view() == (Fence { signaled: true, ..old(self).fence_view() }),
    ;

    /// Record an error on this fence; the error is visible once signalled.
    fn set_error(&mut self, error: i32)
        ensures
            final(self).fence_view() == (Fence { error, ..old(self).fence_view() }),
    ;
}

impl RawDmaFence for Fence {
    open spec fn fence_view(&self) -> Fence {
        *self
    }

    fn signal(&mut self) {
        self.signaled = true;
    }

    fn set_error(&mut self, error: i32) {
        self.error = error;
    }
}

/// Driver hooks a concrete fence type provides.
pub trait FenceOps: Sized {
    /// Called when a waiter first needs the fence to signal; returns
    /// false when the fence can no longer signal.
    fn enable_signaling(&mut self) -> bool;

    /// Whether the fence is already signalled without waiting.
    fn signaled(&self) -> bool;
}

/// A driver-specific fence: the raw fence state plus driver data.
pub struct FenceObject<T: FenceOps> {
    pub fence: Fence,
    pub inner: T,
}

impl<T: FenceOps> RawDmaFence for FenceObject<T> {
    open spec fn fence_view(&self) -> Fence {
        self.fence
    }

    fn signal(&mut self) {
        self.fence.signaled = true;
    }

    fn set_error(&mut self, error: i32) {
        self.fence.error = error;
    }
}

/// A uniquely owned driver-specific fence object.
pub struct UniqueFence<T: FenceOps>(pub FenceObject<T>);

impl<T: FenceOps> RawDmaFence for UniqueFence<T> {
    open spec fn fence_view(&self) -> Fence {
        self.0.fence
    }

    fn signal(&mut self) {
        self.0.fence.signaled = true;
    }

    fn set_error(&mut self, error: i32) {
        self.0.fence.error = error;
    }
}

/// A driver-specific fence object shared with user space.
pub struct UserFence<T: FenceOps>(pub FenceObject<T>);

impl<T: FenceOps> RawDmaFence for UserFence<T> {
    open spec fn fence_view(&self) -> Fence {
        self.0.fence
    }

    fn signal(&mut self) {
        self.0.fence.signaled = true;
    }

    fn set_error(&mut self, error: i32) {
        self.0.fence.error = error;
    }
}

impl<T: FenceOps> UniqueFence<T> {
    /// Hand the unique fence out as a shared user fence.
    pub fn into_user(self) -> (r: UserFence<T>)
        ensures
            r.fence_view() == self.fence_view(),
    {
        UserFence(self.0)
    }
}

/// An array of fence timelines; every fence minted on a timeline gets
/// the next sequence number of that timeline.
pub struct FenceContexts {
    pub start: u64,
    pub count: u32,
    pub seqnos: Vec<u64>,
}

impl FenceContexts {
    pub open spec fn inv(self) -> bool {
        &&& self.seqnos.len() == self.count
        &&& self.start + self.count <= u64::MAX
    }

    /// Create `count` timelines numbered from `start`.
    pub fn new(start: u64, count: u32) -> (r: FenceContexts)
        requires
            start + count <= u64::MAX,
        ensures
            r.inv(),
            r.start == start,
            r.count == count,
            forall|i: int| 0 <= i < count ==> r.seqnos@[i] == 0,
    {
        let mut seqnos: Vec<u64> = Vec::new();
        let mut i: u32 = 0;
        while i < count
            invariant
                i <= count,
                seqnos.len() == i,
                forall|j: int| 0 <= j < i ==> seqnos@[j] == 0,
            decreases count - i,
        {
            seqnos.push(0);
            i = i + 1;
        }
        FenceContexts { start, count, seqnos }
    }

    /// Mint the next fence on timeline `context`.
    ///
    /// Fails with `Invalid` when the timeline index is out of range.
    /// Successive fences on one timeline carry strictly increasing
    /// sequence numbers.
    pub fn new_fence<T: FenceOps>(&mut self, context: u32, inner: T) -> (r: Result<
        UniqueFence<T>,
        DriverError,
    >)
        requires
            old(self).inv(),
            forall|i: int| 0 <= i < old(self).seqnos.len() ==> old(self).seqnos@[i] < u64::MAX,
        ensures
            final(self).inv(),
            final(self).start == old(self).start,
            final(self).count == old(self).count,
            r is Err <==> context >= old(self).count,
            r is Err ==> *final(self) == *old(self) && r == Err::<UniqueFence<T>, DriverError>(
                DriverError::Invalid,
            ),
            r matches Ok(f) ==> {
                &&& f.fence_view() == (Fence {
                    context: (old(self).start + context) as u64,
                    seqno: old(self).seqnos@[context as int],
                    signaled: false,
                    error: 0,
                })
                &&& final(self).seqnos@ == old(self).seqnos@.update(
                    context as int,
                    (old(self).seqnos@[context as int] + 1) as u64,
                )
            },
    {
        if context >= self.count {
            return Err(DriverError::Invalid);
        }
        let seqno = self.seqnos[context as usize];
        self.seqnos.set(context as usize, seqno + 1);
        Ok(UniqueFence(FenceObject {
            fence: Fence { context: self.start + context as u64, seqno, signaled: false, error: 0 },
            inner,
        }))
    }
}

/// A fence chain: links sorted by sequence number, each link signalling
/// every sequence number up to its own.
pub struct FenceChain {
    pub links: Vec<Fence>,
}

impl FenceChain {
    pub open spec fn inv(self) -> bool {
        forall|i: int, j: int|
            0 <= i < j < self.links.len() ==> #[trigger] self.links@[i].seqno
                < #[trigger] self.links@[j].seqno
    }

    pub fn new() -> (r: FenceChain)
        ensures
            r.links@ == Seq::<Fence>::empty(),
            r.inv(),
    {
        FenceChain { links: Vec::new() }
    }

    /// Append a link; its sequence number must extend the chain.
    pub fn add_link(&mut self, fence: Fence)
        requires
            old(self).inv(),
            old(self).links.len() > 0 ==> old(self).links@[old(self).links.len() - 1].seqno
                < fence.seqno,
        ensures
            final(self).links@ == old(self).links@.push(fence),
            final(self).inv(),
    {
        self.links.push(fence);
    }

    /// Advance to the link that will signal `seqno`: the first link
    /// whose sequence number is at least `seqno`. `None` when every
    /// link signals earlier sequence numbers.
    pub fn find_seqno(&self, seqno: u64) -> (r: Option<Fence>)
        requires
            self.inv(),
        ensures
            match r {
                Some(f) => {
                    &&& exists|i: int|
                        0 <= i < self.links.len() && self.links@[i] == f && f.seqno >= seqno
                            && (forall|j: int| 0 <= j < i ==> #[trigger] self.links@[j].seqno < seqno)
                },
                None => forall|i: int| 0 <= i < self.links.len() ==> #[trigger] self.links@[i].seqno < seqno,
            },
    {
        let mut i: usize = 0;
        while i < self.links.len()
            invariant
                i <= self.links.len(),
                forall|j: int| 0 <= j < i ==> #[trigger] self.links@[j].seqno < seqno,
            decreases self.links.len() - i,
        {
            if self.links[i].seqno >= seqno {
                return Some(self.links[i]);
            }
            i = i + 1;
        }
        None
    }
}

} // verus!
