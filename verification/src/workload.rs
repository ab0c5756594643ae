use std::time::Instant;

use vstd::arithmetic::div_mod::{lemma_add_mod_noop, lemma_mod_sub_multiples_vanish, lemma_small_mod};
use vstd::prelude::*;

use crate::config::{spec_align_up, GlobalConf, PAGE_SIZE_1G, PAGE_SIZE_2M};
use crate::distr::PktSizeDistr;
use crate::error::Error;
use crate::limiter::{
    lemma_no_refill_same_instant, spec_is_pow10_scale, RateLimiter, CAPACITY_TOKENS,
    M_BIT_PER_SECOND, PRECISION_THRESHOLD,
};
use crate::region::{MemBlock, MemRegistry, MemSegment, MovementCounter};
use crate::worker::Worker;

verus! {

/// How many packets one run-once iteration batches at most.
pub const BATCH_SIZE: usize = 32;

/// The resolution of the monotonic clock the workload runs against.
pub const NANOS_PER_SEC: u64 = 1000000000;

#[verifier::external_type_specification]
#[verifier::external_body]
pub struct ExInstant(Instant);

/// Relies on std::time::Instant::now: an opaque reading of the monotonic
/// clock, taken when the worker is built.
#[verifier::external_body]
fn monotonic_now() -> (r: Instant) {
    Instant::now()
}

/// Relies on std::time::Instant::elapsed: the time since `start`, handed
/// back as nanoseconds. Nothing is promised of the value; the caller clamps
/// it against the limiter's last refill timestamp itself.
#[verifier::external_body]
fn elapsed_nanos(start: &Instant) -> (r: u64) {
    let elapsed = start.elapsed();
    elapsed.as_nanos() as u64
}

/// Which end of the movement picks its memory location at random and which
/// walks it sequentially: the first letter is the generator side, the
/// second the consumer side.
#[derive(Debug, Clone, Copy, PartialEq, Eq, Structural)]
pub enum MoveMentMode {
    R2R,
    R2S,
    S2R,
    S2S,
}

impl MoveMentMode {
    /// The mode's conventional two-sided spelling.
    pub fn as_str(&self) -> (r: &'static str)
        ensures
            r@.len() > 0,
    {
        proof {
            reveal_strlit("R2R");
            reveal_strlit("R2S");
            reveal_strlit("S2R");
            reveal_strlit("S2S");
        }
        match self {
            MoveMentMode::R2R => "R2R",
            MoveMentMode::R2S => "R2S",
            MoveMentMode::S2R => "S2R",
            MoveMentMode::S2S => "S2S",
        }
    }
}

/// The integers modulo two to the sixty-fourth, the ring the relaxed byte
/// counters accumulate in.
pub open spec fn spec_wrap64(a: int) -> int {
    a % 0x10000000000000000
}

/// How many bytes moving block `b` into a buffer of `buf` bytes copies.
pub open spec fn spec_move_len(b: MemBlock, buf: u16) -> int {
    vstd::math::min(b.len as int, buf as int)
}

/// The bytes a whole batch moves into buffers of `buf` bytes each.
pub open spec fn spec_batch_moved(s: Seq<MemBlock>, buf: u16) -> int
    decreases s.len(),
{
    if s.len() == 0 {
        0
    } else {
        spec_batch_moved(s.drop_last(), buf) + spec_move_len(s.last(), buf)
    }
}

/// Adding to a wrapped counter wraps the mathematical sum.
proof fn lemma_wrap64_step(prev: u64, base: int, n: u64)
    requires
        prev as int == spec_wrap64(base),
    ensures
        vstd::wrapping::u64_specs::wrapping_add(prev, n) as int == spec_wrap64(base + n),
{
    let m = 0x10000000000000000int;
    lemma_small_mod(n as nat, m as nat);
    lemma_add_mod_noop(base, n as int, m);
    if prev + n > u64::MAX {
        lemma_mod_sub_multiples_vanish(prev + n, m);
        lemma_small_mod((prev + n - m) as nat, m as nat);
    } else {
        lemma_small_mod((prev + n) as nat, m as nat);
    }
}

/// The generator role: draws packet sizes from the distribution, asks the
/// rate limiter for admission, and allocates one source block per admitted
/// packet from its own region, randomly or sequentially.
pub struct NetworkCard {
    random: bool,
    order: usize,
    seg: MemSegment,
    distr: PktSizeDistr,
    rate_limit: RateLimiter,
}

impl NetworkCard {
    /// The region source blocks come from.
    pub closed spec fn spec_seg(&self) -> MemSegment {
        self.seg
    }

    /// The admission gate.
    pub closed spec fn spec_rate_limit(&self) -> RateLimiter {
        self.rate_limit
    }

    /// The packet size distribution.
    pub closed spec fn spec_distr(&self) -> PktSizeDistr {
        self.distr
    }

    /// Whether source blocks are picked at random.
    pub closed spec fn spec_random(&self) -> bool {
        self.random
    }

    /// The region and limiter are sound and every packet the distribution
    /// can draw fits in one element.
    pub open spec fn wf(&self) -> bool {
        &&& self.spec_seg().wf()
        &&& self.spec_rate_limit().wf()
        &&& self.spec_distr().spec_max_size() <= self.spec_seg().spec_elem_size()
    }

    /// Fills `batch` with source blocks: packet sizes are drawn and passed
    /// through the rate limiter until the batch capacity is reached or
    /// admission is denied, then one block per admitted size is allocated.
    /// The batch holds exactly as many packets as the limiter admitted:
    /// the bucket is debited once per batched packet, and a batch below
    /// capacity means the next packet is not admitted at `tsc`. The
    /// limiter's refill timestamp moves to `tsc` even when everything is
    /// denied.
    pub fn poll(&mut self, tsc: u64, batch: &mut Vec<MemBlock>)
        requires
            old(self).wf(),
            tsc >= old(self).spec_rate_limit().spec_last_tsc(),
            old(batch)@.len() == 0,
        ensures
            final(self).wf(),
            final(self).spec_seg().same_layout(&old(self).spec_seg()),
            final(self).spec_seg()@ == old(self).spec_seg()@,
            final(self).spec_distr() == old(self).spec_distr(),
            final(self).spec_random() == old(self).spec_random(),
            final(self).spec_rate_limit().spec_last_tsc() == tsc,
            final(batch)@.len() <= BATCH_SIZE,
            final(self).spec_rate_limit().spec_available() == old(self).spec_rate_limit(
            ).spec_avail_after(tsc) - final(batch)@.len() * old(self).spec_rate_limit().spec_cost(
                old(self).spec_distr().spec_generate() as u64,
            ),
            final(batch)@.len() < BATCH_SIZE ==> !final(self).spec_rate_limit().spec_admits(
                tsc,
                old(self).spec_distr().spec_generate() as u64,
            ),
            forall|i: int|
                0 <= i < final(batch)@.len() ==> {
                    &&& (#[trigger] final(batch)@[i]).valid_for(&final(self).spec_seg())
                    &&& final(batch)@[i].len == old(self).spec_distr().spec_generate()
                },
    {
        let ghost entry = *self;
        let ghost size0 = entry.spec_distr().spec_generate() as u64;
        let ghost cost0 = entry.spec_rate_limit().spec_cost(size0);
        let ghost after0 = entry.spec_rate_limit().spec_avail_after(tsc);
        let mut batch_bytes: Vec<u16> = Vec::new();
        let mut denied = false;
        while !denied && batch_bytes.len() < BATCH_SIZE
            invariant
                batch_bytes@.len() <= BATCH_SIZE,
                self.seg == entry.seg,
                self.distr == entry.distr,
                self.random == entry.random,
                self.order == entry.order,
                entry.wf(),
                tsc >= entry.spec_rate_limit().spec_last_tsc(),
                size0 == entry.spec_distr().spec_generate() as u64,
                cost0 == entry.spec_rate_limit().spec_cost(size0),
                after0 == entry.spec_rate_limit().spec_avail_after(tsc),
                self.rate_limit.wf(),
                self.rate_limit.spec_scale() == entry.spec_rate_limit().spec_scale(),
                !denied && batch_bytes@.len() == 0 ==> self.rate_limit == entry.spec_rate_limit(),
                denied || batch_bytes@.len() > 0 ==> self.rate_limit.spec_last_tsc() == tsc
                    && self.rate_limit.spec_available() == after0 - batch_bytes@.len() * cost0,
                denied ==> !self.rate_limit.spec_admits(tsc, size0),
                forall|i: int|
                    0 <= i < batch_bytes@.len() ==> #[trigger] batch_bytes@[i]
                        == entry.spec_distr().spec_generate(),
            decreases BATCH_SIZE - batch_bytes@.len() + (if denied {
                0int
            } else {
                1int
            }),
        {
            let pkt_size = self.distr.generate();
            let ghost pre = self.rate_limit;
            proof {
                if batch_bytes@.len() > 0 {
                    // at the same timestamp nothing more accrues, so the
                    // bucket simply carries what the earlier calls left
                    lemma_no_refill_same_instant(&pre);
                }
            }
            if self.rate_limit.can_send(tsc, pkt_size as u64) {
                batch_bytes.push(pkt_size);
                proof {
                    let n = batch_bytes@.len() as int;
                    assert(n * cost0 == (n - 1) * cost0 + cost0) by (nonlinear_arith);
                }
            } else {
                denied = true;
                proof {
                    lemma_no_refill_same_instant(&self.rate_limit);
                }
            }
        }

        let ghost gated = self.rate_limit;
        proof {
            if !denied && batch_bytes@.len() == 0 {
                assert(batch_bytes@.len() < BATCH_SIZE);
                assert(false);
            }
        }

        let count = batch_bytes.len();
        let mut k: usize = 0;
        while k < count
            invariant
                0 <= k <= count,
                count == batch_bytes@.len(),
                count <= BATCH_SIZE,
                batch@.len() == k,
                self.seg.wf(),
                self.seg.same_layout(&entry.seg),
                self.seg@ == entry.seg@,
                self.distr == entry.distr,
                self.random == entry.random,
                self.rate_limit == gated,
                gated.wf(),
                gated.spec_last_tsc() == tsc,
                entry.wf(),
                forall|i: int|
                    0 <= i < batch_bytes@.len() ==> #[trigger] batch_bytes@[i]
                        == entry.spec_distr().spec_generate(),
                forall|i: int|
                    0 <= i < batch@.len() ==> {
                        &&& (#[trigger] batch@[i]).valid_for(&self.seg)
                        &&& batch@[i].len == entry.spec_distr().spec_generate()
                    },
            decreases count - k,
        {
            let pkt_size = batch_bytes[k];
            let block = if self.random {
                self.seg.random_alloc(pkt_size as usize)
            } else {
                self.seg.sequence_alloc(self.order, pkt_size as usize)
            };
            self.order = self.order.wrapping_add(1);
            batch.push(block);
            k += 1;
        }
    }
}

/// `mem` with `bytes` written at byte offset `off`.
pub open spec fn spec_overwrite(mem: Seq<u8>, off: int, bytes: Seq<u8>) -> Seq<u8> {
    Seq::new(
        mem.len(),
        |i: int|
            if off <= i < off + bytes.len() {
                bytes[i - off]
            } else {
                mem[i]
            },
    )
}

/// The destination contents after consuming a batch: block `i`'s first
/// `min(len, buf)` source bytes land in element slot `slots[i]`, in batch
/// order.
pub open spec fn spec_consumed(
    mem: Seq<u8>,
    src_mem: Seq<u8>,
    src_base: u64,
    blocks: Seq<MemBlock>,
    slots: Seq<int>,
    elem_size: int,
    buf: u16,
) -> Seq<u8>
    decreases blocks.len(),
{
    if blocks.len() == 0 || slots.len() == 0 {
        mem
    } else {
        let b = blocks[0];
        let src_off = b.start - src_base;
        let written = spec_overwrite(
            mem,
            slots[0] * elem_size,
            src_mem.subrange(src_off, src_off + spec_move_len(b, buf)),
        );
        spec_consumed(
            written,
            src_mem,
            src_base,
            blocks.drop_first(),
            slots.drop_first(),
            elem_size,
            buf,
        )
    }
}

/// Consuming one more block folds one more overwrite onto the end.
proof fn lemma_consumed_snoc(
    mem: Seq<u8>,
    src_mem: Seq<u8>,
    src_base: u64,
    blocks: Seq<MemBlock>,
    slots: Seq<int>,
    elem_size: int,
    buf: u16,
    b: MemBlock,
    s: int,
)
    requires
        blocks.len() == slots.len(),
    ensures
        spec_consumed(mem, src_mem, src_base, blocks.push(b), slots.push(s), elem_size, buf)
            == spec_overwrite(
            spec_consumed(mem, src_mem, src_base, blocks, slots, elem_size, buf),
            s * elem_size,
            src_mem.subrange(b.start - src_base, b.start - src_base + spec_move_len(b, buf)),
        ),
    decreases blocks.len(),
{
    if blocks.len() == 0 {
        let written = spec_overwrite(
            mem,
            s * elem_size,
            src_mem.subrange(b.start - src_base, b.start - src_base + spec_move_len(b, buf)),
        );
        assert(blocks.push(b)[0] == b);
        assert(slots.push(s)[0] == s);
        assert(blocks.push(b).drop_first() =~= Seq::<MemBlock>::empty());
        assert(slots.push(s).drop_first() =~= Seq::<int>::empty());
        assert(spec_consumed(
            written,
            src_mem,
            src_base,
            blocks.push(b).drop_first(),
            slots.push(s).drop_first(),
            elem_size,
            buf,
        ) == written);
        assert(spec_consumed(mem, src_mem, src_base, blocks, slots, elem_size, buf) == mem);
    } else {
        let src_off = blocks[0].start - src_base;
        let written = spec_overwrite(
            mem,
            slots[0] * elem_size,
            src_mem.subrange(src_off, src_off + spec_move_len(blocks[0], buf)),
        );
        assert(blocks.push(b)[0] == blocks[0]);
        assert(slots.push(s)[0] == slots[0]);
        assert(blocks.push(b).drop_first() =~= blocks.drop_first().push(b));
        assert(slots.push(s).drop_first() =~= slots.drop_first().push(s));
        lemma_consumed_snoc(
            written,
            src_mem,
            src_base,
            blocks.drop_first(),
            slots.drop_first(),
            elem_size,
            buf,
            b,
            s,
        );
        assert(spec_consumed(mem, src_mem, src_base, blocks.push(b), slots.push(s), elem_size, buf)
            == spec_consumed(
            written,
            src_mem,
            src_base,
            blocks.drop_first().push(b),
            slots.drop_first().push(s),
            elem_size,
            buf,
        ));
        assert(spec_consumed(mem, src_mem, src_base, blocks, slots, elem_size, buf)
            == spec_consumed(
            written,
            src_mem,
            src_base,
            blocks.drop_first(),
            slots.drop_first(),
            elem_size,
            buf,
        ));
    }
}

/// The order counter's value after `i` wrapping increments from `start`.
pub open spec fn spec_order_at(start: usize, i: nat) -> usize
    decreases i,
{
    if i == 0 {
        start
    } else {
        vstd::wrapping::usize_specs::wrapping_add(spec_order_at(start, (i - 1) as nat), 1)
    }
}

/// The consumer role: for every block handed over it allocates a same-size
/// destination block in its own region, randomly or sequentially, and moves
/// the bytes across.
pub struct Application {
    random: bool,
    order: usize,
    seg: MemSegment,
    buf_size: usize,
}

impl Application {
    /// The region destination blocks come from.
    pub closed spec fn spec_seg(&self) -> MemSegment {
        self.seg
    }

    /// The fixed size of every destination buffer.
    pub closed spec fn spec_buf_size(&self) -> usize {
        self.buf_size
    }

    /// Whether destination blocks are picked at random.
    pub closed spec fn spec_random(&self) -> bool {
        self.random
    }

    /// The sequential slot counter: the next destination slot in
    /// sequential mode is this value modulo the element count.
    pub closed spec fn spec_order(&self) -> usize {
        self.order
    }

    /// The region is sound and the buffer size fits both one element and a
    /// block length field.
    pub open spec fn wf(&self) -> bool {
        &&& self.spec_seg().wf()
        &&& 0 < self.spec_buf_size() <= self.spec_seg().spec_elem_size()
        &&& self.spec_buf_size() <= u16::MAX
    }

    /// Consumes the whole batch: each block gets a destination buffer in
    /// this role's region and its bytes are moved there, adding
    /// `min(block len, buffer size)` per block to `moved_bytes`, wrapping
    /// on overflow. The batch is left empty.
    pub fn do_recv(
        &mut self,
        batch: &mut Vec<MemBlock>,
        src_seg: &MemSegment,
        moved_bytes: &mut u64,
    )
        requires
            old(self).wf(),
            src_seg.wf(),
            forall|i: int|
                0 <= i < old(batch)@.len() ==> (#[trigger] old(batch)@[i]).valid_for(src_seg),
            src_seg.spec_segment_id() != old(self).spec_seg().spec_segment_id(),
        ensures
            final(self).wf(),
            final(self).spec_seg().same_layout(&old(self).spec_seg()),
            final(self).spec_buf_size() == old(self).spec_buf_size(),
            final(self).spec_random() == old(self).spec_random(),
            final(batch)@.len() == 0,
            *final(moved_bytes) as int == spec_wrap64(
                *old(moved_bytes) + spec_batch_moved(old(batch)@, old(self).spec_buf_size() as u16),
            ),
            exists|slots: Seq<int>|
                {
                    &&& slots.len() == old(batch)@.len()
                    &&& (forall|i: int|
                        0 <= i < slots.len() ==> 0 <= #[trigger] slots[i] < old(self).spec_seg().spec_num_elems())
                    &&& (!old(self).spec_random() ==> (forall|i: int|
                        0 <= i < slots.len() ==> #[trigger] slots[i] == (spec_order_at(
                            old(self).spec_order(),
                            i as nat,
                        ) as int) % (old(self).spec_seg().spec_num_elems() as int)))
                    &&& final(self).spec_seg()@ == #[trigger] spec_consumed(
                        old(self).spec_seg()@,
                        src_seg@,
                        src_seg.spec_base_vaddr(),
                        old(batch)@,
                        slots,
                        old(self).spec_seg().spec_elem_size() as int,
                        old(self).spec_buf_size() as u16,
                    )
                },
    {
        let ghost entry = *self;
        let ghost batch0 = batch@;
        let ghost moved0 = *moved_bytes;
        let ghost src_base = src_seg.spec_base_vaddr();
        let ghost elem = entry.seg.spec_elem_size() as int;
        let ghost num = entry.seg.spec_num_elems() as int;
        let ghost buf16 = entry.buf_size as u16;
        let ghost mut slots_g = Seq::<int>::empty();
        let count = batch.len();
        let mut k: usize = 0;
        proof {
            let m = 0x10000000000000000int;
            lemma_small_mod(moved0 as nat, m as nat);
            assert(batch0.take(0) =~= Seq::empty());
        }
        while k < count
            invariant
                0 <= k <= count,
                count == batch@.len(),
                batch@ == batch0,
                src_seg.wf(),
                self.seg.wf(),
                self.seg.same_layout(&entry.seg),
                self.buf_size == entry.buf_size,
                self.random == entry.random,
                entry.wf(),
                forall|i: int| 0 <= i < batch0.len() ==> (#[trigger] batch0[i]).valid_for(src_seg),
                src_seg.spec_segment_id() != self.seg.spec_segment_id(),
                *moved_bytes as int == spec_wrap64(
                    moved0 + spec_batch_moved(batch0.take(k as int), entry.buf_size as u16),
                ),
                src_base == src_seg.spec_base_vaddr(),
                elem == entry.seg.spec_elem_size() as int,
                num == entry.seg.spec_num_elems() as int,
                buf16 == entry.buf_size as u16,
                slots_g.len() == k,
                forall|i: int| 0 <= i < k ==> 0 <= #[trigger] slots_g[i] < num,
                !entry.spec_random() ==> (forall|i: int|
                    0 <= i < k ==> #[trigger] slots_g[i] == (spec_order_at(
                        entry.spec_order(),
                        i as nat,
                    ) as int) % num),
                self.order == spec_order_at(entry.spec_order(), k as nat),
                self.seg@ == spec_consumed(
                    entry.seg@,
                    src_seg@,
                    src_base,
                    batch0.take(k as int),
                    slots_g,
                    elem,
                    buf16,
                ),
            decreases count - k,
        {
            let block = batch[k];
            let ghost seg_pre = self.seg;
            let ghost mem_pre = self.seg@;
            let ghost order_pre = self.order;
            let target = if self.random {
                self.seg.random_alloc(self.buf_size)
            } else {
                self.seg.sequence_alloc(self.order, self.buf_size)
            };
            let ghost sl: int = if entry.spec_random() {
                choose|c: int|
                    0 <= c < seg_pre.spec_num_elems() && target.start
                        == crate::region::spec_slot_addr(&seg_pre, c)
            } else {
                (order_pre as int) % num
            };
            proof {
                assert(0 <= sl < num && target.start == seg_pre.spec_base_vaddr() + sl * elem);
                assert(target.offset_in(&self.seg) == sl * elem);
            }
            self.order = self.order.wrapping_add(1);
            let ghost moved_before = *moved_bytes;
            let moved = block.move_to(&target, src_seg, &mut self.seg, moved_bytes);
            proof {
                assert(batch0.take(k as int + 1).drop_last() =~= batch0.take(k as int));
                assert(moved == spec_move_len(block, entry.buf_size as u16));
                lemma_wrap64_step(
                    moved_before,
                    moved0 + spec_batch_moved(batch0.take(k as int), entry.buf_size as u16),
                    moved as u64,
                );
                // the move realizes exactly one overwrite of the slot
                let boff = block.start - src_base;
                assert(self.seg@ =~= spec_overwrite(
                    mem_pre,
                    sl * elem,
                    src_seg@.subrange(boff, boff + spec_move_len(block, buf16)),
                ));
                lemma_consumed_snoc(
                    entry.seg@,
                    src_seg@,
                    src_base,
                    batch0.take(k as int),
                    slots_g,
                    elem,
                    buf16,
                    block,
                    sl,
                );
                assert(batch0.take(k as int + 1) =~= batch0.take(k as int).push(block));
                slots_g = slots_g.push(sl);
            }
            k += 1;
        }
        proof {
            assert(batch0.take(count as int) =~= batch0);
            assert(self.seg@ == spec_consumed(
                entry.seg@,
                src_seg@,
                src_base,
                batch0,
                slots_g,
                elem,
                buf16,
            ));
        }
        batch.clear();
    }
}

/// One workload-generator worker: a generator role and a consumer role over
/// two regions on a pair of NUMA nodes, moving rate-limited batches of
/// packets between them and accumulating the bytes moved into the shared
/// movement counter.
pub struct SimpleWorker {
    lcore_id: u16,
    node_id: u16,
    peer_node_id: u16,
    nic: NetworkCard,
    app: Application,
    counter: MovementCounter,
    start: Instant,
}

impl SimpleWorker {
    /// The generator role.
    pub closed spec fn spec_nic(&self) -> NetworkCard {
        self.nic
    }

    /// The consumer role.
    pub closed spec fn spec_app(&self) -> Application {
        self.app
    }

    /// The logical core this worker is meant to run on.
    pub closed spec fn spec_lcore_id(&self) -> u16 {
        self.lcore_id
    }

    /// The node the generator role's region lives on.
    pub closed spec fn spec_node_id(&self) -> u16 {
        self.node_id
    }

    /// The node the consumer role's region lives on.
    pub closed spec fn spec_peer_node_id(&self) -> u16 {
        self.peer_node_id
    }

    /// What `new` builds for these arguments: the generator allocates at
    /// random exactly in the random-to modes and the consumer exactly in
    /// the to-random modes; each role owns a fresh region of
    /// `num_elems` elements of `elem_size` bytes on its own node; the
    /// consumer's buffers are one element each; the generator draws from
    /// the given distribution and gates on a limiter built for `bandwidth`
    /// megabits per second against the nanosecond clock.
    pub open spec fn spec_configured(
        &self,
        bandwidth: u32,
        num_elems: u32,
        elem_size: u32,
        node_id: u16,
        peer_node_id: u16,
        distr: PktSizeDistr,
        mode: MoveMentMode,
    ) -> bool {
        let limiter = self.spec_nic().spec_rate_limit();
        &&& self.spec_nic().spec_random() == (mode == MoveMentMode::R2R || mode
            == MoveMentMode::R2S)
        &&& self.spec_app().spec_random() == (mode == MoveMentMode::R2R || mode
            == MoveMentMode::S2R)
        &&& self.spec_nic().spec_distr() == distr
        &&& self.spec_nic().spec_seg().spec_node_id() == node_id
        &&& self.spec_nic().spec_seg().spec_num_elems() == num_elems
        &&& self.spec_nic().spec_seg().spec_elem_size() == elem_size
        &&& self.spec_app().spec_seg().spec_node_id() == peer_node_id
        &&& self.spec_app().spec_seg().spec_num_elems() == num_elems
        &&& self.spec_app().spec_seg().spec_elem_size() == elem_size
        &&& self.spec_app().spec_buf_size() == elem_size
        &&& limiter.spec_rate_num() == bandwidth * M_BIT_PER_SECOND * limiter.spec_scale()
        &&& limiter.spec_rate_num() >= PRECISION_THRESHOLD
        &&& spec_is_pow10_scale(limiter.spec_scale())
        &&& limiter.spec_scale() == 1 || limiter.spec_rate_num() < 10 * PRECISION_THRESHOLD
        &&& limiter.spec_rate_den() == NANOS_PER_SEC
        &&& limiter.spec_capacity() == CAPACITY_TOKENS * limiter.spec_scale()
        &&& limiter.spec_last_tsc() == 0
        &&& limiter.spec_available() == 0
    }

    /// Builds the worker: its two regions are carved out of the registry
    /// here, one on each node, before any thread runs. Fails with
    /// `Error::Resource` exactly when large pages are enabled with an
    /// unsupported page size.
    pub fn new(
        registry: &mut MemRegistry,
        conf: &GlobalConf,
        lcore_id: u16,
        bandwidth: u32,
        num_elems: u32,
        elem_size: u32,
        node_id: u16,
        peer_node_id: u16,
        distr: PktSizeDistr,
        mode: MoveMentMode,
        counter: MovementCounter,
    ) -> (r: Result<SimpleWorker, Error>)
        requires
            conf.wf(),
            bandwidth >= 1,
            num_elems >= 1,
            1 <= elem_size <= u16::MAX,
            distr.spec_max_size() <= elem_size,
            (num_elems as int) * (elem_size as int) + conf.page_size <= usize::MAX,
            old(registry).spec_next_vaddr() + 2 * spec_align_up(
                (num_elems as int) * (elem_size as int),
                conf.page_size as int,
            ) <= u64::MAX,
            old(registry).spec_next_segment_id() + 2 <= u16::MAX,
        ensures
            match r {
                Ok(w) => {
                    &&& w.wf()
                    &&& w.spec_lcore_id() == lcore_id
                    &&& w.spec_node_id() == node_id
                    &&& w.spec_peer_node_id() == peer_node_id
                    &&& w.spec_configured(
                        bandwidth,
                        num_elems,
                        elem_size,
                        node_id,
                        peer_node_id,
                        distr,
                        mode,
                    )
                    &&& !(conf.huge_enabled && conf.page_size != PAGE_SIZE_2M && conf.page_size
                        != PAGE_SIZE_1G)
                    &&& final(registry).spec_next_segment_id() == old(
                        registry,
                    ).spec_next_segment_id() + 2
                },
                Err(e) => {
                    &&& e == Error::Resource
                    &&& conf.huge_enabled && conf.page_size != PAGE_SIZE_2M && conf.page_size
                        != PAGE_SIZE_1G
                },
            },
    {
        let num = num_elems as usize;
        let size = elem_size as usize;
        let nic_seg = match MemSegment::new(registry, conf, node_id, num, size) {
            Ok(seg) => seg,
            Err(e) => {
                return Err(e);
            },
        };
        let app_seg = match MemSegment::new(registry, conf, peer_node_id, num, size) {
            Ok(seg) => seg,
            Err(e) => {
                return Err(e);
            },
        };

        let nic = NetworkCard {
            random: matches!(mode, MoveMentMode::R2R | MoveMentMode::R2S),
            order: 0,
            seg: nic_seg,
            distr,
            rate_limit: RateLimiter::new(bandwidth, NANOS_PER_SEC),
        };
        let app = Application {
            random: matches!(mode, MoveMentMode::R2R | MoveMentMode::S2R),
            order: 0,
            seg: app_seg,
            buf_size: size,
        };

        Ok(
            SimpleWorker {
                lcore_id,
                node_id,
                peer_node_id,
                nic,
                app,
                counter,
                start: monotonic_now(),
            },
        )
    }

    /// The logical core this worker is meant to run on.
    pub fn lcore_id(&self) -> (r: u16)
        ensures
            r == self.spec_lcore_id(),
    {
        self.lcore_id
    }

    /// The node the generator role's region lives on.
    pub fn node_id(&self) -> (r: u16)
        ensures
            r == self.spec_node_id(),
    {
        self.node_id
    }

    /// The node the consumer role's region lives on.
    pub fn peer_node_id(&self) -> (r: u16)
        ensures
            r == self.spec_peer_node_id(),
    {
        self.peer_node_id
    }
}

impl Worker for SimpleWorker {
    /// Both roles are sound and their regions are distinct, so every batch
    /// always moves bytes between two different segments.
    closed spec fn wf(&self) -> bool {
        &&& self.nic.wf()
        &&& self.app.wf()
        &&& self.nic.spec_seg().spec_segment_id() != self.app.spec_seg().spec_segment_id()
    }

    fn name(&self) -> String {
        proof {
            reveal_strlit("SW(");
            reveal_strlit("-");
            reveal_strlit(":");
            reveal_strlit(")");
        }
        let mut s = String::from_str("SW(");
        append_u16(&mut s, self.node_id);
        s.append("-");
        append_u16(&mut s, self.peer_node_id);
        s.append(":");
        append_u16(&mut s, self.lcore_id);
        s.append(")");
        s
    }

    fn init(&mut self) -> (r: Result<(), Error>)
        ensures
            r is Ok,
    {
        Ok(())
    }

    fn deinit(&mut self) -> (r: Result<(), Error>)
        ensures
            r is Ok,
    {
        Ok(())
    }

    fn run_once(&mut self) -> (r: Result<(), Error>) {
        let now = elapsed_nanos(&self.start);
        let last = self.nic.rate_limit.last_tsc();
        // A reading that has not advanced past the last refill is clamped,
        // so the limiter sees time stand still rather than run backwards.
        let tsc = if now >= last {
            now
        } else {
            last
        };
        let mut batch: Vec<MemBlock> = Vec::new();
        self.nic.poll(tsc, &mut batch);
        if batch.len() > 0 {
            let mut moved: u64 = 0;
            self.app.do_recv(&mut batch, &self.nic.seg, &mut moved);
            self.counter.add(moved);
        }
        Ok(())
    }
}

/// Appends the decimal digits of `v` to `s`.
fn append_u16(s: &mut String, v: u16)
    decreases v,
{
    if v >= 10 {
        append_u16(s, v / 10);
    }
    s.append(digit_str(v % 10));
}

/// The single decimal digit `d` as a string slice.
fn digit_str(d: u16) -> (r: &'static str)
    requires
        d < 10,
{
    match d {
        0 => "0",
        1 => "1",
        2 => "2",
        3 => "3",
        4 => "4",
        5 => "5",
        6 => "6",
        7 => "7",
        8 => "8",
        _ => "9",
    }
}

} // verus!
