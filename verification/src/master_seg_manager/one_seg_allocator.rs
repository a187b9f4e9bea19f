//! One contiguous memory segment of a node, and the blocks allocated in it.

use super::msg_pack::{SegmentDeviceDescription, SegmentDeviceID};
use vstd::prelude::*;

verus! {

/// A block that a segment's allocator handed out: `start_addr` is the offset in the segment, `size`
/// the bytes that it really occupies.
#[derive(Clone, Copy)]
pub struct Region {
    pub start_addr: u64,
    pub size: u64,
}

/// What a segment's allocator answered to one request, and the bytes that it had in use then.
#[derive(Clone, Copy)]
pub struct AllocationOutcome {
    pub used: u64,
    pub region: Option<Region>,
}

/// The number under which a segment's allocator is kept outside this library. No two allocators have
/// the same number.
pub type AllocatorID = u64;

/// An allocator that was created for a segment, with the capacity that it reports.
#[derive(Clone, Copy, Debug)]
pub struct CreatedAllocator {
    pub id: AllocatorID,
    pub total_size: u64,
}

/// `size` bytes of value stored in a block of `capcity` bytes.
///
/// `addr` is the offset in the segment and `base` the segment's base address. The block is in use
/// until its holder gives it up: the functions of this library hand every allocation that they let
/// go of back to their caller, which frees it once nobody holds it, by the allocator that it is from.
#[derive(Clone, Copy)]
pub struct Allocation {
    pub addr: u64,
    pub size: u64,
    pub capcity: u64,
    pub base: u64,
    /// The allocator that the block is from.
    pub allocator: AllocatorID,
    /// Cache capacity was set aside for the block on its node: whoever frees it gives that back.
    pub lease_reserved: bool,
}

impl Allocation {
    pub fn new(addr: u64, size: u64, capcity: u64, allocator: &OneSegAllocator) -> (allocation: Self)
        ensures
            allocation == (Allocation {
                addr,
                size,
                capcity,
                base: allocator.base_addr,
                allocator: allocator.id,
                lease_reserved: false,
            }),
    {
        Allocation {
            addr,
            size,
            capcity,
            base: allocator.base_addr,
            allocator: allocator.id,
            lease_reserved: false,
        }
    }

    /// The block with cache capacity set aside for it.
    pub open spec fn reserved(self) -> Allocation {
        Allocation { lease_reserved: true, ..self }
    }

    /// Notes that cache capacity was set aside for the block, to be given back when it is freed.
    pub fn set_on_drop(&mut self)
        ensures
            *final(self) == old(self).reserved(),
    {
        self.lease_reserved = true;
    }

    /// Returns the addr of the allocation.
    pub fn addr(&self) -> (addr: u64)
        ensures
            addr == self.addr,
    {
        self.addr
    }

    /// Returns the value size of the allocation.
    pub fn size(&self) -> (size: u64)
        ensures
            size == self.size,
    {
        self.size
    }

    /// Returns the capacity size of the allocation.
    pub fn capcity(&self) -> (capcity: u64)
        ensures
            capcity == self.capcity,
    {
        self.capcity
    }

    /// Returns the base address of the underlying segment.
    pub fn base_addr(&self) -> (base: u64)
        ensures
            base == self.base,
    {
        self.base
    }

    /// The two are in the same block.
    pub open spec fn shares_block(self, other: Allocation) -> bool {
        self.allocator == other.allocator && self.addr == other.addr
    }

    /// Whether the two are in the same block.
    pub fn same_block(&self, other: &Allocation) -> (same: bool)
        ensures
            same == self.shares_block(*other),
    {
        self.allocator == other.allocator && self.addr == other.addr
    }

    /// The absolute address fits in the address space.
    pub open spec fn addressable(self) -> bool {
        self.base + self.addr <= u64::MAX
    }

    /// The block fits in the address space, and its capacity in a signed number.
    pub open spec fn sound(self) -> bool {
        self.addressable() && self.capcity <= i64::MAX
    }

    /// Absolute address of the block.
    pub fn absolute(&self) -> (abs: u64)
        requires
            self.addressable(),
        ensures
            abs == self.base + self.addr,
    {
        self.base + self.addr
    }
}

/// A single contiguous memory region. Its blocks are managed by an allocator outside this library;
/// `total_size` is the capacity that the allocator reported.
pub struct OneSegAllocator {
    pub seg_device_id: SegmentDeviceID,
    pub seg_device_desc: SegmentDeviceDescription,
    pub base_addr: u64,
    pub id: AllocatorID,
    pub total_size: u64,
}

impl OneSegAllocator {
    pub fn new(
        seg_device_id: SegmentDeviceID,
        seg_device_desc: SegmentDeviceDescription,
        base_addr: u64,
        created: CreatedAllocator,
    ) -> (allocator: Self)
        ensures
            allocator == (OneSegAllocator {
                seg_device_id,
                seg_device_desc,
                base_addr,
                id: created.id,
                total_size: created.total_size,
            }),
    {
        OneSegAllocator {
            seg_device_id,
            seg_device_desc,
            base_addr,
            id: created.id,
            total_size: created.total_size,
        }
    }

    pub fn duplicate(&self) -> (copy: Self)
        ensures
            copy == *self,
    {
        OneSegAllocator {
            seg_device_id: self.seg_device_id.clone(),
            seg_device_desc: self.seg_device_desc,
            base_addr: self.base_addr,
            id: self.id,
            total_size: self.total_size,
        }
    }

    /// The allocation of `size` bytes in `region`.
    pub open spec fn allocation(self, size: u64, region: Region) -> Allocation {
        Allocation {
            addr: region.start_addr,
            size,
            capcity: region.size,
            base: self.base_addr,
            allocator: self.id,
            lease_reserved: false,
        }
    }

    /// Turns the answer to a request for `size` bytes into an allocation.
    pub fn allocate(&self, size: u64, outcome: &AllocationOutcome) -> (allocation: Option<
        Allocation,
    >)
        ensures
            allocation == match outcome.region {
                Some(region) => Some(self.allocation(size, region)),
                None => None,
            },
    {
        match outcome.region {
            Some(region) => Some(Allocation::new(region.start_addr, size, region.size, self)),
            None => None,
        }
    }

    /// Returns total capacity (bytes) of this segment.
    pub fn total_size_bytes(&self) -> (total: u64)
        ensures
            total == self.total_size,
    {
        self.total_size
    }

    /// Bytes left when `used` are in use.
    pub fn free_size_bytes(&self, used: u64) -> (free: u64)
        ensures
            free == if used <= self.total_size {
                self.total_size - used
            } else {
                0
            },
    {
        self.total_size.saturating_sub(used)
    }
}

} // verus!
