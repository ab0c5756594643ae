use core::sync::atomic::{AtomicU64, Ordering};
use std::sync::Arc;

use vstd::prelude::*;

use crate::config::{align_with_page_size, spec_align_up, GlobalConf, PAGE_SIZE_1G, PAGE_SIZE_2M};
use crate::error::Error;

verus! {

/// Relies on rand::random: a draw from the thread-local generator. Nothing
/// is promised of the value; callers reduce it into range themselves.
pub assume_specification<T>[ rand::random::<T> ]() -> (r: T)
    where
        rand::distributions::Standard: rand::distributions::Distribution<T>,
;

/// The first candidate base address handed out by a fresh registry.
pub const FIRST_BASE_VADDR: u64 = 0x1_0000_0000;

/// Process-scoped allocation registry: the monotonically advancing address
/// cursor and the segment-id counter. The harness creates exactly one and
/// threads it through every region creation, so no two regions ever receive
/// overlapping address ranges or the same segment id.
pub struct MemRegistry {
    next_vaddr: u64,
    next_segment_id: u16,
}

impl MemRegistry {
    /// The next base address the cursor will hand out.
    pub closed spec fn spec_next_vaddr(&self) -> u64 {
        self.next_vaddr
    }

    /// The next segment id the counter will hand out.
    pub closed spec fn spec_next_segment_id(&self) -> u16 {
        self.next_segment_id
    }

    pub fn new() -> (r: MemRegistry)
        ensures
            r.spec_next_vaddr() == FIRST_BASE_VADDR,
            r.spec_next_segment_id() == 0,
    {
        MemRegistry { next_vaddr: FIRST_BASE_VADDR, next_segment_id: 0 }
    }

    /// The current address cursor, for observation only.
    pub fn next_vaddr(&self) -> (r: u64)
        ensures
            r == self.spec_next_vaddr(),
    {
        self.next_vaddr
    }

    /// How many segment ids have been handed out so far.
    pub fn segments_created(&self) -> (r: u16)
        ensures
            r == self.spec_next_segment_id(),
    {
        self.next_segment_id
    }

    /// Claims the next `size` bytes of address space and advances the cursor.
    fn next_base_vaddr(&mut self, size: usize) -> (r: u64)
        requires
            old(self).spec_next_vaddr() + size <= u64::MAX,
        ensures
            r == old(self).spec_next_vaddr(),
            final(self).spec_next_vaddr() == old(self).spec_next_vaddr() + size,
            final(self).spec_next_segment_id() == old(self).spec_next_segment_id(),
    {
        let vaddr = self.next_vaddr;
        self.next_vaddr = vaddr + size as u64;
        vaddr
    }

    /// Hands out the next process-unique segment id, never reusing one.
    fn next_segment_id(&mut self) -> (r: u16)
        requires
            old(self).spec_next_segment_id() < u16::MAX,
        ensures
            r == old(self).spec_next_segment_id(),
            final(self).spec_next_segment_id() == old(self).spec_next_segment_id() + 1,
            final(self).spec_next_vaddr() == old(self).spec_next_vaddr(),
    {
        let id = self.next_segment_id;
        self.next_segment_id = id + 1;
        id
    }
}

/// A contiguous reservation on one NUMA node, carved into `num_elems`
/// elements of `elem_size` bytes each. The backing bytes are owned by the
/// segment and released exactly once, when the segment is destroyed.
pub struct MemSegment {
    node_id: u16,
    segment_id: u16,
    next_block_id: u32,
    base_vaddr: u64,
    elem_size: usize,
    num_elems: usize,
    size: usize,
    mem: Vec<u8>,
}

impl View for MemSegment {
    type V = Seq<u8>;

    /// The bytes the segment currently holds.
    closed spec fn view(&self) -> Seq<u8> {
        self.mem@
    }
}

impl MemSegment {
    pub closed spec fn spec_node_id(&self) -> u16 {
        self.node_id
    }

    pub closed spec fn spec_segment_id(&self) -> u16 {
        self.segment_id
    }

    pub closed spec fn spec_next_block_id(&self) -> u32 {
        self.next_block_id
    }

    pub closed spec fn spec_base_vaddr(&self) -> u64 {
        self.base_vaddr
    }

    pub closed spec fn spec_elem_size(&self) -> usize {
        self.elem_size
    }

    pub closed spec fn spec_num_elems(&self) -> usize {
        self.num_elems
    }

    pub closed spec fn spec_size(&self) -> usize {
        self.size
    }

    /// Structural invariant: the backing bytes cover the whole reservation,
    /// the elements fit inside it, and every address of the reservation fits
    /// in the address space.
    pub open spec fn wf(&self) -> bool {
        &&& self@.len() == self.spec_size()
        &&& self.spec_elem_size() > 0
        &&& self.spec_num_elems() > 0
        &&& self.spec_num_elems() * self.spec_elem_size() <= self.spec_size()
        &&& self.spec_base_vaddr() + self.spec_size() <= u64::MAX
    }

    /// True when everything but the per-region block counter and the bytes
    /// is unchanged.
    pub open spec fn same_layout(&self, other: &MemSegment) -> bool {
        &&& self.spec_node_id() == other.spec_node_id()
        &&& self.spec_segment_id() == other.spec_segment_id()
        &&& self.spec_base_vaddr() == other.spec_base_vaddr()
        &&& self.spec_elem_size() == other.spec_elem_size()
        &&& self.spec_num_elems() == other.spec_num_elems()
        &&& self.spec_size() == other.spec_size()
    }

    /// Reserves `align_up(num_elems * elem_size, page_size)` bytes of address
    /// space at the next cursor position, bound to `node_id`. The cursor is
    /// advanced before the large-page check, exactly as the address claim
    /// precedes the mapping attempt, so a failed creation still consumes its
    /// address range. Fails with `Error::Resource` when large pages are
    /// enabled with a page size other than 2 MiB or 1 GiB.
    pub fn new(
        registry: &mut MemRegistry,
        conf: &GlobalConf,
        node_id: u16,
        num_elems: usize,
        elem_size: usize,
    ) -> (r: Result<MemSegment, Error>)
        requires
            conf.wf(),
            num_elems > 0,
            elem_size > 0,
            num_elems * elem_size + conf.page_size <= usize::MAX,
            old(registry).spec_next_vaddr() + spec_align_up(
                (num_elems * elem_size) as int,
                conf.page_size as int,
            ) <= u64::MAX,
            old(registry).spec_next_segment_id() < u16::MAX,
        ensures
            ({
                let aligned = spec_align_up((num_elems * elem_size) as int, conf.page_size as int);
                match r {
                    Ok(seg) => {
                        &&& !(conf.huge_enabled && conf.page_size != PAGE_SIZE_2M
                            && conf.page_size != PAGE_SIZE_1G)
                        &&& seg.wf()
                        &&& seg.spec_node_id() == node_id
                        &&& seg.spec_elem_size() == elem_size
                        &&& seg.spec_num_elems() == num_elems
                        &&& seg.spec_size() == aligned
                        &&& seg.spec_base_vaddr() == old(registry).spec_next_vaddr()
                        &&& seg.spec_segment_id() == old(registry).spec_next_segment_id()
                        &&& seg.spec_next_block_id() == 0
                        &&& seg@ == Seq::new(aligned as nat, |i: int| 0u8)
                        &&& final(registry).spec_next_vaddr() == old(registry).spec_next_vaddr()
                            + aligned
                        &&& final(registry).spec_next_segment_id() == old(
                            registry,
                        ).spec_next_segment_id() + 1
                    },
                    Err(e) => {
                        &&& e == Error::Resource
                        &&& conf.huge_enabled && conf.page_size != PAGE_SIZE_2M
                            && conf.page_size != PAGE_SIZE_1G
                        &&& final(registry).spec_next_vaddr() == old(registry).spec_next_vaddr()
                            + aligned
                        &&& final(registry).spec_next_segment_id() == old(
                            registry,
                        ).spec_next_segment_id()
                    },
                }
            }),
    {
        let total = num_elems * elem_size;
        let aligned_memory_size = align_with_page_size(conf, total);
        let base_vaddr = registry.next_base_vaddr(aligned_memory_size);

        if conf.huge_enabled && conf.page_size != PAGE_SIZE_2M && conf.page_size != PAGE_SIZE_1G {
            return Err(Error::Resource);
        }

        let mem = vec![0u8; aligned_memory_size];
        let segment_id = registry.next_segment_id();
        proof {
            assert forall|i: int| 0 <= i < aligned_memory_size implies mem@[i] == 0u8 by {
                assert(cloned(0u8, mem@[i]));
            }
            assert(mem@ =~= Seq::new(aligned_memory_size as nat, |i: int| 0u8));
        }

        Ok(
            MemSegment {
                node_id,
                segment_id,
                next_block_id: 0,
                base_vaddr,
                elem_size,
                num_elems,
                size: aligned_memory_size,
                mem,
            },
        )
    }

    /// Releases the reservation. Ownership makes the release happen exactly
    /// once; the registry cursor stays where it is, so the address range is
    /// never handed out again.
    pub fn destroy(self) {
    }

    /// Whether `addr` falls inside this segment's reservation.
    pub open spec fn contains_addr(&self, addr: u64) -> bool {
        self.spec_base_vaddr() <= addr < self.spec_base_vaddr() + self.spec_size()
    }

    /// Hands out a block of `size` bytes at a pseudo-randomly chosen element
    /// slot, stamped with the next per-region sequence number.
    pub fn random_alloc(&mut self, size: usize) -> (r: MemBlock)
        requires
            old(self).wf(),
            size <= old(self).spec_elem_size(),
            size <= u16::MAX,
        ensures
            final(self).wf(),
            final(self).same_layout(old(self)),
            final(self)@ == old(self)@,
            final(self).spec_next_block_id() == vstd::wrapping::u32_specs::wrapping_add(
                old(self).spec_next_block_id(),
                1u32,
            ),
            r.valid_for(old(self)),
            r.valid_for(final(self)),
            r.len == size,
            r.block_id == spec_block_id(
                old(self).spec_node_id(),
                old(self).spec_segment_id(),
                old(self).spec_next_block_id(),
            ),
            exists|slot: int|
                0 <= slot < old(self).spec_num_elems() && r.start == #[trigger] spec_slot_addr(
                    old(self),
                    slot,
                ),
    {
        let slot = rand::random::<usize>() % self.num_elems;
        let ghost entry = *self;
        let r = self.alloc_at(slot, size);
        proof {
            assert(r.start == spec_slot_addr(&entry, slot as int));
        }
        r
    }

    /// Hands out a block of `size` bytes at element slot
    /// `order % num_elems`, stamped with the next per-region sequence number.
    pub fn sequence_alloc(&mut self, order: usize, size: usize) -> (r: MemBlock)
        requires
            old(self).wf(),
            size <= old(self).spec_elem_size(),
            size <= u16::MAX,
        ensures
            final(self).wf(),
            final(self).same_layout(old(self)),
            final(self)@ == old(self)@,
            final(self).spec_next_block_id() == vstd::wrapping::u32_specs::wrapping_add(
                old(self).spec_next_block_id(),
                1u32,
            ),
            r.valid_for(old(self)),
            r.valid_for(final(self)),
            r.len == size,
            r.block_id == spec_block_id(
                old(self).spec_node_id(),
                old(self).spec_segment_id(),
                old(self).spec_next_block_id(),
            ),
            r.start == old(self).spec_base_vaddr() + (order % old(self).spec_num_elems()) * old(
                self,
            ).spec_elem_size(),
    {
        let slot = order % self.num_elems;
        self.alloc_at(slot, size)
    }

    /// Builds the block descriptor for element slot `slot` and advances the
    /// per-region sequence number, wrapping when it overflows.
    fn alloc_at(&mut self, slot: usize, size: usize) -> (r: MemBlock)
        requires
            old(self).wf(),
            slot < old(self).spec_num_elems(),
            size <= old(self).spec_elem_size(),
            size <= u16::MAX,
        ensures
            final(self).wf(),
            final(self).same_layout(old(self)),
            final(self)@ == old(self)@,
            final(self).spec_next_block_id() == vstd::wrapping::u32_specs::wrapping_add(
                old(self).spec_next_block_id(),
                1u32,
            ),
            r.valid_for(old(self)),
            r.valid_for(final(self)),
            r.len == size,
            r.block_id == spec_block_id(
                old(self).spec_node_id(),
                old(self).spec_segment_id(),
                old(self).spec_next_block_id(),
            ),
            r.start == old(self).spec_base_vaddr() + slot * old(self).spec_elem_size(),
    {
        proof {
            lemma_slot_offset_bounds(
                slot as int,
                self.num_elems as int,
                self.elem_size as int,
            );
        }
        let next_block_id = self.next_block_id;
        self.next_block_id = next_block_id.wrapping_add(1);
        let offset = slot * self.elem_size;
        MemBlock {
            node_id: self.node_id,
            len: size as u16,
            segment_id: self.segment_id as u32,
            block_id: ((self.node_id as u64) << 48) | ((self.segment_id as u64) << 32) | (
            next_block_id as u64),
            start: self.base_vaddr + offset as u64,
        }
    }

    /// One byte of the segment's contents, for inspection.
    pub fn read_byte(&self, offset: usize) -> (r: u8)
        requires
            offset < self@.len(),
        ensures
            r == self@[offset as int],
    {
        self.mem[offset]
    }

    /// The NUMA node this segment is bound to.
    pub fn node_id(&self) -> (r: u16)
        ensures
            r == self.spec_node_id(),
    {
        self.node_id
    }

    /// The process-unique segment id.
    pub fn segment_id(&self) -> (r: u16)
        ensures
            r == self.spec_segment_id(),
    {
        self.segment_id
    }

    /// The base address of the reservation.
    pub fn base_vaddr(&self) -> (r: u64)
        ensures
            r == self.spec_base_vaddr(),
    {
        self.base_vaddr
    }

    /// The size of one element in bytes.
    pub fn elem_size(&self) -> (r: usize)
        ensures
            r == self.spec_elem_size(),
    {
        self.elem_size
    }

    /// How many elements the reservation is carved into.
    pub fn num_elems(&self) -> (r: usize)
        ensures
            r == self.spec_num_elems(),
    {
        self.num_elems
    }

    /// The total reserved size in bytes, page-aligned.
    pub fn size(&self) -> (r: usize)
        ensures
            r == self.spec_size(),
    {
        self.size
    }

    /// The per-region sequence number the next block will carry.
    pub fn next_block_id(&self) -> (r: u32)
        ensures
            r == self.spec_next_block_id(),
    {
        self.next_block_id
    }

    /// Stores one byte into the reservation; the mapping is read-write.
    pub fn write_byte(&mut self, offset: usize, value: u8)
        requires
            offset < old(self)@.len(),
        ensures
            final(self)@ == old(self)@.update(offset as int, value),
            final(self).same_layout(old(self)),
            final(self).spec_next_block_id() == old(self).spec_next_block_id(),
            old(self).wf() ==> final(self).wf(),
    {
        self.mem[offset] = value;
    }
}

/// The address of element slot `slot` within `seg`.
pub open spec fn spec_slot_addr(seg: &MemSegment, slot: int) -> int {
    seg.spec_base_vaddr() + slot * seg.spec_elem_size()
}

/// The 64-bit globally unique block id: node id in the top 16 bits, segment
/// id in the next 16, and the per-region sequence number in the low 32.
pub open spec fn spec_block_id(node_id: u16, segment_id: u16, counter: u32) -> u64 {
    ((node_id as u64) << 48) | ((segment_id as u64) << 32) | (counter as u64)
}

/// A borrowed descriptor into a `MemSegment`: never separately allocated or
/// freed, and never valid past the destruction of its segment.
#[derive(Debug, Clone, Copy, PartialEq, Eq, Structural)]
pub struct MemBlock {
    pub node_id: u16,
    pub len: u16,
    pub segment_id: u32,
    pub block_id: u64,
    pub start: u64,
}

impl MemBlock {
    /// The block's byte offset from its segment's base address.
    pub open spec fn offset_in(&self, seg: &MemSegment) -> int {
        self.start - seg.spec_base_vaddr()
    }

    /// The block describes a range that lies entirely within `seg`.
    pub open spec fn valid_for(&self, seg: &MemSegment) -> bool {
        &&& self.segment_id == seg.spec_segment_id() as u32
        &&& self.node_id == seg.spec_node_id()
        &&& seg.spec_base_vaddr() <= self.start
        &&& self.offset_in(seg) + self.len <= seg.spec_size()
        &&& self.len <= seg.spec_elem_size()
    }

    /// Copies `min(self.len, block.len)` bytes from this block to `block`,
    /// in 64-byte chunks with the remainder handled separately, and adds the
    /// number of bytes moved to `moved_bytes` (wrapping on overflow). The two
    /// blocks must belong to different segments; a same-segment transfer is a
    /// caller error.
    pub fn move_to(
        &self,
        block: &MemBlock,
        src_seg: &MemSegment,
        dst_seg: &mut MemSegment,
        moved_bytes: &mut u64,
    ) -> (n: usize)
        requires
            src_seg.wf(),
            old(dst_seg).wf(),
            self.valid_for(src_seg),
            block.valid_for(old(dst_seg)),
            self.segment_id != block.segment_id,
        ensures
            n == vstd::math::min(self.len as int, block.len as int),
            final(dst_seg).wf(),
            final(dst_seg).same_layout(old(dst_seg)),
            final(dst_seg).spec_next_block_id() == old(dst_seg).spec_next_block_id(),
            final(dst_seg)@.len() == old(dst_seg)@.len(),
            forall|i: int|
                0 <= i < old(dst_seg)@.len() ==> final(dst_seg)@[i] == (if block.offset_in(
                    old(dst_seg),
                ) <= i < block.offset_in(old(dst_seg)) + n {
                    src_seg@[self.offset_in(src_seg) + (i - block.offset_in(old(dst_seg)))]
                } else {
                    old(dst_seg)@[i]
                }),
            *final(moved_bytes) == vstd::wrapping::u64_specs::wrapping_add(
                *old(moved_bytes),
                n as u64,
            ),
    {
        let n16 = if self.len <= block.len {
            self.len
        } else {
            block.len
        };
        let len = n16 as usize;
        let src_off = (self.start - src_seg.base_vaddr) as usize;
        let dst_off = (block.start - dst_seg.base_vaddr) as usize;

        let ghost entry_mem = dst_seg.mem@;
        let ghost entry_seg = *dst_seg;

        let mut copied: usize = 0;
        while copied + 64 <= len
            invariant
                copied <= len,
                len <= u16::MAX,
                dst_seg.mem@.len() <= usize::MAX,
                src_seg.wf(),
                src_off + len <= src_seg.mem@.len(),
                dst_off + len <= dst_seg.mem@.len(),
                dst_seg.mem@.len() == entry_mem.len(),
                dst_seg.same_layout(&entry_seg),
                dst_seg.spec_next_block_id() == entry_seg.spec_next_block_id(),
                dst_seg.spec_size() == entry_seg.spec_size(),
                forall|i: int|
                    0 <= i < entry_mem.len() ==> dst_seg.mem@[i] == (if dst_off <= i < dst_off
                        + copied {
                        src_seg.mem@[src_off + (i - dst_off)]
                    } else {
                        entry_mem[i]
                    }),
            decreases len - copied,
        {
            let mut j: usize = 0;
            while j < 64
                invariant
                    j <= 64,
                    copied + 64 <= len,
                    len <= u16::MAX,
                    dst_seg.mem@.len() <= usize::MAX,
                    src_seg.wf(),
                    src_off + len <= src_seg.mem@.len(),
                    dst_off + len <= dst_seg.mem@.len(),
                    dst_seg.mem@.len() == entry_mem.len(),
                    dst_seg.same_layout(&entry_seg),
                    dst_seg.spec_next_block_id() == entry_seg.spec_next_block_id(),
                    dst_seg.spec_size() == entry_seg.spec_size(),
                    forall|i: int|
                        0 <= i < entry_mem.len() ==> dst_seg.mem@[i] == (if dst_off <= i < dst_off
                            + copied + j {
                            src_seg.mem@[src_off + (i - dst_off)]
                        } else {
                            entry_mem[i]
                        }),
                decreases 64 - j,
            {
                let b = src_seg.mem[src_off + copied + j];
                dst_seg.mem[dst_off + copied + j] = b;
                j += 1;
            }
            copied += 64;
        }

        while copied < len
            invariant
                copied <= len,
                len <= u16::MAX,
                dst_seg.mem@.len() <= usize::MAX,
                src_seg.wf(),
                src_off + len <= src_seg.mem@.len(),
                dst_off + len <= dst_seg.mem@.len(),
                dst_seg.mem@.len() == entry_mem.len(),
                dst_seg.same_layout(&entry_seg),
                dst_seg.spec_next_block_id() == entry_seg.spec_next_block_id(),
                dst_seg.spec_size() == entry_seg.spec_size(),
                forall|i: int|
                    0 <= i < entry_mem.len() ==> dst_seg.mem@[i] == (if dst_off <= i < dst_off
                        + copied {
                        src_seg.mem@[src_off + (i - dst_off)]
                    } else {
                        entry_mem[i]
                    }),
            decreases len - copied,
        {
            let b = src_seg.mem[src_off + copied];
            dst_seg.mem[dst_off + copied] = b;
            copied += 1;
        }

        *moved_bytes = moved_bytes.wrapping_add(len as u64);
        len
    }
}

/// Helper bound: an element slot's offset plus one whole element stays
/// inside the part of the region covered by elements.
proof fn lemma_slot_offset_bounds(slot: int, num_elems: int, elem_size: int)
    requires
        0 <= slot < num_elems,
        elem_size > 0,
    ensures
        0 <= slot * elem_size,
        slot * elem_size + elem_size <= num_elems * elem_size,
{
    assert(0 <= slot * elem_size) by (nonlinear_arith)
        requires
            0 <= slot,
            0 < elem_size,
    ;
    assert(slot * elem_size + elem_size <= num_elems * elem_size) by (nonlinear_arith)
        requires
            0 <= slot < num_elems,
            elem_size > 0,
    ;
}

/// Every block allocated from a region stays inside it: its length is at
/// most the region's element size and its address range lies entirely
/// within `[base, base + size)`.
pub proof fn lemma_block_within_region(b: MemBlock, seg: &MemSegment)
    requires
        seg.wf(),
        b.valid_for(seg),
    ensures
        b.len <= seg.spec_elem_size(),
        seg.spec_base_vaddr() <= b.start,
        b.start + b.len <= seg.spec_base_vaddr() + seg.spec_size(),
{
}

/// The process-wide byte-movement counter, shared by every worker through
/// cloned handles. Accumulation is relaxed and lock-free: the value only
/// feeds approximate throughput reporting, never a correctness decision,
/// so nothing is assumed about what a read returns.
pub struct MovementCounter {
    total: Arc<AtomicU64>,
}

impl Clone for MovementCounter {
    fn clone(&self) -> MovementCounter {
        MovementCounter { total: self.total.clone() }
    }
}

impl MovementCounter {
    /// A fresh counter starting at zero.
    pub fn new() -> MovementCounter {
        MovementCounter { total: Arc::new(AtomicU64::new(0)) }
    }

    /// Adds `n` moved bytes, wrapping on overflow.
    pub fn add(&self, n: u64) {
        self.total.fetch_add(n, Ordering::Relaxed);
    }

    /// A snapshot of the bytes moved so far, as some thread last left it.
    pub fn read(&self) -> u64 {
        self.total.load(Ordering::Relaxed)
    }
}

/// Address ranges are never reused: a region whose base was claimed at or
/// after the end of an earlier region's range shares no address with it.
/// The registry's cursor only ever advances, so any two distinct regions it
/// backs satisfy the premise in one order or the other.
pub proof fn lemma_regions_disjoint(a: &MemSegment, b: &MemSegment)
    requires
        a.spec_base_vaddr() + a.spec_size() <= b.spec_base_vaddr(),
    ensures
        forall|addr: u64| a.contains_addr(addr) ==> !b.contains_addr(addr),
{
}

} // verus!
