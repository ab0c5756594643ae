use dram_bench::{init, Error, MemRegistry, MemSegment};

#[test]
fn region_size_matches_configured_buffers() {
    let conf = init(4096, false).unwrap();
    let mut reg = MemRegistry::new();
    let seg = MemSegment::new(&mut reg, &conf, 0, 1024, 2048).unwrap();
    assert_eq!(seg.size(), 2_097_152);
    assert_eq!(seg.num_elems(), 1024);
    assert_eq!(seg.elem_size(), 2048);
    assert_eq!(seg.node_id(), 0);
    assert_eq!(seg.next_block_id(), 0);
}

#[test]
fn region_size_rounds_up_to_page() {
    let conf = init(4096, false).unwrap();
    let mut reg = MemRegistry::new();
    let seg = MemSegment::new(&mut reg, &conf, 0, 3, 100).unwrap();
    assert_eq!(seg.size(), 4096);
}

#[test]
fn create_destroy_never_reuses_addresses() {
    let conf = init(4096, false).unwrap();
    let mut reg = MemRegistry::new();
    let cursor0 = reg.next_vaddr();
    let seg = MemSegment::new(&mut reg, &conf, 0, 16, 64).unwrap();
    let a_base = seg.base_vaddr();
    let a_size = seg.size() as u64;
    let a_id = seg.segment_id();
    assert_eq!(a_base, cursor0);
    assert_eq!(reg.next_vaddr(), a_base + a_size);
    seg.destroy();
    // destroying the region leaves the cursor advanced
    assert_eq!(reg.next_vaddr(), a_base + a_size);
    let seg2 = MemSegment::new(&mut reg, &conf, 0, 16, 64).unwrap();
    // the freed address range is never handed out again
    assert!(seg2.base_vaddr() >= a_base + a_size);
    assert_ne!(seg2.segment_id(), a_id);
    assert_eq!(reg.segments_created(), 2);
}

#[test]
fn failed_create_still_advances_cursor() {
    // huge pages enabled with a page size that is neither 2 MiB nor 1 GiB
    let conf = init(4096, true).unwrap();
    let mut reg = MemRegistry::new();
    let cursor0 = reg.next_vaddr();
    let r = MemSegment::new(&mut reg, &conf, 0, 16, 64);
    assert_eq!(r.err(), Some(Error::Resource));
    assert_eq!(reg.next_vaddr(), cursor0 + 4096);
    assert_eq!(reg.segments_created(), 0);
}

#[test]
fn huge_page_sizes_are_accepted() {
    let conf = init(2 * 1024 * 1024, true).unwrap();
    let mut reg = MemRegistry::new();
    let seg = MemSegment::new(&mut reg, &conf, 0, 1024, 2048).unwrap();
    assert_eq!(seg.size(), 2 * 1024 * 1024);
}

#[test]
fn blocks_stay_inside_their_region() {
    let conf = init(4096, false).unwrap();
    let mut reg = MemRegistry::new();
    let mut seg = MemSegment::new(&mut reg, &conf, 3, 8, 256).unwrap();
    for order in 0..20usize {
        let b = seg.sequence_alloc(order, 100);
        assert!(b.len as usize <= seg.elem_size());
        assert!(b.start >= seg.base_vaddr());
        assert!(b.start + b.len as u64 <= seg.base_vaddr() + seg.size() as u64);
        assert_eq!(b.node_id, 3);
        assert_eq!(b.segment_id, seg.segment_id() as u32);
    }
    for _ in 0..20 {
        let b = seg.random_alloc(256);
        assert!(b.len as usize <= seg.elem_size());
        assert!(b.start >= seg.base_vaddr());
        assert!(b.start + b.len as u64 <= seg.base_vaddr() + seg.size() as u64);
    }
}

#[test]
fn sequence_alloc_walks_slots_and_stamps_ids() {
    let conf = init(1024, false).unwrap();
    let mut reg = MemRegistry::new();
    let mut seg = MemSegment::new(&mut reg, &conf, 2, 4, 128).unwrap();
    let base = seg.base_vaddr();
    let seg_id = seg.segment_id();
    for order in 0..10usize {
        let b = seg.sequence_alloc(order, 64);
        assert_eq!(b.start, base + ((order % 4) as u64) * 128);
        assert_eq!(b.len, 64);
        assert_eq!(
            b.block_id,
            ((2u64) << 48) | ((seg_id as u64) << 32) | (order as u64)
        );
    }
    assert_eq!(seg.next_block_id(), 10);
}

#[test]
fn move_copies_min_bytes_and_counts_them() {
    let conf = init(4096, false).unwrap();
    let mut reg = MemRegistry::new();
    let mut src = MemSegment::new(&mut reg, &conf, 0, 8, 256).unwrap();
    let mut dst = MemSegment::new(&mut reg, &conf, 1, 8, 256).unwrap();

    for i in 0..100usize {
        src.write_byte(i, (i as u8).wrapping_mul(3).wrapping_add(7));
    }
    let src_blk = src.sequence_alloc(0, 100);
    let dst_blk = dst.sequence_alloc(0, 60);
    let mut counter: u64 = 5;
    let n = src_blk.move_to(&dst_blk, &src, &mut dst, &mut counter);
    assert_eq!(n, 60);
    assert_eq!(counter, 65);
    for i in 0..60usize {
        assert_eq!(dst.read_byte(i), (i as u8).wrapping_mul(3).wrapping_add(7));
    }
    // bytes past the copied length are untouched
    assert_eq!(dst.read_byte(60), 0);
}

#[test]
fn move_handles_whole_chunks_and_remainder() {
    let conf = init(4096, false).unwrap();
    let mut reg = MemRegistry::new();
    let mut src = MemSegment::new(&mut reg, &conf, 0, 4, 512).unwrap();
    let mut dst = MemSegment::new(&mut reg, &conf, 0, 4, 512).unwrap();
    // 200 bytes: three 64-byte chunks plus an 8-byte remainder
    for i in 0..200usize {
        src.write_byte(512 + i, i as u8);
    }
    let src_blk = src.sequence_alloc(1, 200);
    let dst_blk = dst.sequence_alloc(2, 400);
    let mut counter: u64 = 0;
    let n = src_blk.move_to(&dst_blk, &src, &mut dst, &mut counter);
    assert_eq!(n, 200);
    assert_eq!(counter, 200);
    for i in 0..200usize {
        assert_eq!(dst.read_byte(2 * 512 + i), i as u8);
    }
}
