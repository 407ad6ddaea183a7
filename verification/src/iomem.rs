//! Memory-mapped I/O regions and resource flags, modeled as plain
//! state: a region is a byte array with bounds-checked 32-bit access.

use vstd::prelude::*;
use crate::DriverError;

verus! {

/// Little-endian value of four bytes.
pub open spec fn spec_le32(b0: u8, b1: u8, b2: u8, b3: u8) -> int {
    b0 + b1 * 0x100 + b2 * 0x1_0000 + b3 * 0x100_0000
}

/// A raw, exclusively-owned memory region described by its physical
/// address and size.
#[derive(Clone, Copy, Debug, PartialEq, Eq, Structural)]
pub struct Mem {
    pub ptr: usize,
    pub size: usize,
}

impl Mem {
    pub fn try_new(ptr: usize, size: usize) -> (r: Result<Mem, DriverError>)
        ensures
            ptr == 0 ==> r == Err::<Mem, DriverError>(DriverError::NoEntry),
            ptr != 0 ==> r == Ok::<Mem, DriverError>((Mem { ptr, size })),
    {
        if ptr == 0 {
            return Err(DriverError::NoEntry);
        }
        Ok(Mem { ptr, size })
    }

    /// The base address of the region.
    pub fn ptr(&self) -> (r: usize)
        ensures
            r == self.ptr,
    {
        self.ptr
    }

    /// The size of the region in bytes.
    pub fn size(&self) -> (r: usize)
        ensures
            r == self.size,
    {
        self.size
    }
}

/// A mapped MMIO region: the bytes as the device presents them.
pub struct IoMem {
    pub data: Vec<u8>,
}

impl IoMem {
    pub fn new(size: usize) -> (r: IoMem)
        ensures
            r.data.len() == size,
            forall|i: int| 0 <= i < size ==> r.data@[i] == 0,
    {
        let mut data: Vec<u8> = Vec::new();
        let mut i: usize = 0;
        while i < size
            invariant
                i <= size,
                data.len() == i,
                forall|j: int| 0 <= j < i ==> data@[j] == 0,
            decreases size - i,
        {
            data.push(0);
            i = i + 1;
        }
        IoMem { data }
    }

    /// Read one little-endian 32-bit word.
    pub fn readl_relaxed(&self, off: usize) -> (r: u32)
        requires
            off + 4 <= self.data.len(),
        ensures
            r == spec_le32(
                self.data@[off as int],
                self.data@[off + 1],
                self.data@[off + 2],
                self.data@[off + 3],
            ),
    {
        (self.data[off] as u32) + (self.data[off + 1] as u32) * 0x100 + (self.data[off + 2] as u32)
            * 0x1_0000 + (self.data[off + 3] as u32) * 0x100_0000
    }

    /// Write one little-endian 32-bit word.
    pub fn writel_relaxed(&mut self, value: u32, off: usize)
        requires
            off + 4 <= old(self).data.len(),
        ensures
            final(self).data.len() == old(self).data.len(),
            final(self).data@[off as int] == value % 0x100,
            final(self).data@[off + 1] == (value / 0x100) % 0x100,
            final(self).data@[off + 2] == (value / 0x1_0000) % 0x100,
            final(self).data@[off + 3] == (value / 0x100_0000) % 0x100,
            forall|i: int|
                0 <= i < old(self).data.len() && !(off <= i < off + 4) ==> final(self).data@[i]
                    == old(self).data@[i],
    {
        self.data.set(off, (value % 0x100) as u8);
        self.data.set(off + 1, ((value / 0x100) % 0x100) as u8);
        self.data.set(off + 2, ((value / 0x1_0000) % 0x100) as u8);
        self.data.set(off + 3, ((value / 0x100_0000) % 0x100) as u8);
    }
}

/// Resource flags, a bitmask.
#[derive(Clone, Copy, Debug, PartialEq, Eq, Structural)]
pub struct Flags(pub u64);

impl Flags {
    /// Whether every bit of `flags` is set in `self`.
    pub fn contains(&self, flags: Flags) -> (r: bool)
        ensures
            r == (self.0 & flags.0 == flags.0),
    {
        self.0 & flags.0 == flags.0
    }

    /// The union of two flag sets.
    pub fn union(&self, other: Flags) -> (r: Flags)
        ensures
            r.0 == self.0 | other.0,
    {
        Flags(self.0 | other.0)
    }
}

} // verus!
