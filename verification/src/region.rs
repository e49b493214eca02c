//! Bookkeeping for mapped regions.
//!
//! The mapping and unmapping calls themselves are made by the embedding
//! program; this module tracks the numbers those calls work with: the base
//! address and length one mapping owns, and the aligned window that the
//! aligned allocator trims an oversized mapping down to.

use vstd::prelude::*;

verus! {

use crate::align::{
    align_down_int,
    align_pointer_value_down,
    is_power_of_two,
    lemma_align_down_properties,
    lemma_power_of_two_pos,
};

/// Tracks exclusive ownership of one mapped address range: the address and
/// length handed back by a successful mapping call.
///
/// The type cannot be copied or cloned, and `release` consumes it, so one
/// owner gives up its range at most once; the embedding program unmaps a
/// range exactly when `release` hands it back.
pub struct MmapOwner {
    mmap_pointer: usize,
    size: usize,
}

impl MmapOwner {
    /// The tracked base address.
    pub closed spec fn spec_pointer(&self) -> usize {
        self.mmap_pointer
    }

    /// The tracked length in bytes.
    pub closed spec fn spec_size(&self) -> usize {
        self.size
    }

    /// A mapping call never returns the null address.
    pub open spec fn wf(&self) -> bool {
        self.spec_pointer() != 0
    }

    /// Takes ownership of the range `[mmap_pointer, mmap_pointer + size)`.
    pub fn new(mmap_pointer: usize, size: usize) -> (r: Self)
        requires
            mmap_pointer != 0,
        ensures
            r.spec_pointer() == mmap_pointer,
            r.spec_size() == size,
            r.wf(),
    {
        Self { mmap_pointer, size }
    }

    /// The address of the owned range, for handing to the system calls that
    /// write to or unmap it.
    pub fn get_mut(&self) -> (r: usize)
        ensures
            r == self.spec_pointer(),
    {
        self.mmap_pointer
    }

    /// The length of the owned range in bytes.
    pub fn size(&self) -> (r: usize)
        ensures
            r == self.spec_size(),
    {
        self.size
    }

    /// Gives the range up, consuming the owner: the address and length come
    /// back exactly once, for the one unmapping call.
    pub fn release(self) -> (r: (usize, usize))
        ensures
            r.0 == self.spec_pointer(),
            r.1 == self.spec_size(),
    {
        (self.mmap_pointer, self.size)
    }
}

/// The aligned window inside an oversized mapping of `size + alignment`
/// bytes starting at `raw_base`: the window base, and the lengths of the
/// unused prefix and suffix to unmap.
pub struct AlignedLayout {
    pub aligned_base: usize,
    pub prefix_len: usize,
    pub suffix_len: usize,
}

/// What a correct trim of the oversized mapping `[raw_base, raw_base + size
/// + alignment)` looks like: the window base is aligned and the prefix,
/// window and suffix tile the original mapping exactly.
pub open spec fn aligned_layout_wf(
    layout: AlignedLayout,
    alignment: usize,
    size: usize,
    raw_base: usize,
) -> bool {
    &&& layout.aligned_base % alignment == 0
    &&& raw_base <= layout.aligned_base
    &&& layout.aligned_base + size <= raw_base + size + alignment
    &&& layout.prefix_len == layout.aligned_base - raw_base
    &&& layout.aligned_base + size + layout.suffix_len == raw_base + size + alignment
    &&& layout.prefix_len + layout.suffix_len + size == size + alignment
}

/// Computes the aligned window inside the oversized mapping at `raw_base`,
/// preferring the highest aligned base whose window of `size` bytes still
/// fits — consecutive mappings from a kernel that grows the address space
/// downward are then more likely to be contiguous.
pub fn plan_aligned_trim(alignment: usize, size: usize, raw_base: usize) -> (layout:
    AlignedLayout)
    requires
        is_power_of_two(alignment),
        size > 0,
        raw_base + size + alignment <= usize::MAX,
    ensures
        aligned_layout_wf(layout, alignment, size, raw_base),
        layout.aligned_base == align_down_int(alignment as int, raw_base + alignment),
{
    proof {
        lemma_power_of_two_pos(alignment);
    }
    let total = size + alignment;
    let allocation_end = raw_base + total;
    let aligned_base = align_pointer_value_down(alignment, allocation_end - size);
    proof {
        lemma_align_down_properties(alignment as int, raw_base + alignment);
    }
    let prefix_len = aligned_base - raw_base;
    let suffix_len = allocation_end - (aligned_base + size);
    AlignedLayout { aligned_base, prefix_len, suffix_len }
}

} // verus!
