use std::cell::RefCell;
use std::rc::Rc;

use dram_bench::{
    BenchmarkCancelHandle, BenchmarkJoinHandle, Error, MoveMentMode, PktSizeDistr,
    SimpleBenchmark, WorkerAssignment,
};

fn benchmark(num_workers: u32, interleave: bool) -> SimpleBenchmark {
    SimpleBenchmark {
        interleave,
        buf_size: 2048,
        num_bufs: 1024,
        bandwidth: 1000,
        pkt_size_distri: String::from("constant(64)"),
        num_workers,
        mode: MoveMentMode::R2R,
    }
}

fn assignment(lcore_id: u16, node_id: u16, peer_node_id: u16) -> WorkerAssignment {
    WorkerAssignment { lcore_id, node_id, peer_node_id }
}

#[test]
fn plan_places_workers_node_major_core_minor() {
    let bench = benchmark(3, false);
    let distr = PktSizeDistr::parse(&bench.pkt_size_distri).unwrap();
    let lcores = vec![vec![true, true], vec![true, false]];
    let plan = bench.plan(distr, 2, &lcores).unwrap();
    assert_eq!(
        plan,
        vec![assignment(0, 0, 0), assignment(1, 0, 0), assignment(0, 1, 1)]
    );
}

#[test]
fn plan_stops_after_requested_workers() {
    let bench = benchmark(1, false);
    let distr = PktSizeDistr::parse(&bench.pkt_size_distri).unwrap();
    let lcores = vec![vec![true, true], vec![true, true]];
    let plan = bench.plan(distr, 2, &lcores).unwrap();
    assert_eq!(plan, vec![assignment(0, 0, 0)]);
}

#[test]
fn plan_places_all_when_fewer_cores_than_workers() {
    let bench = benchmark(10, false);
    let distr = PktSizeDistr::parse(&bench.pkt_size_distri).unwrap();
    let lcores = vec![vec![false, true], vec![false, false]];
    let plan = bench.plan(distr, 2, &lcores).unwrap();
    assert_eq!(plan, vec![assignment(1, 0, 0)]);
}

#[test]
fn interleave_pairs_adjacent_nodes() {
    let bench = benchmark(4, true);
    let distr = PktSizeDistr::parse(&bench.pkt_size_distri).unwrap();
    let lcores = vec![vec![true], vec![true], vec![true], vec![true]];
    let plan = bench.plan(distr, 4, &lcores).unwrap();
    assert_eq!(
        plan,
        vec![
            assignment(0, 0, 1),
            assignment(0, 1, 0),
            assignment(0, 2, 3),
            assignment(0, 3, 2)
        ]
    );
}

#[test]
fn interleave_needs_an_even_node_count() {
    let bench = benchmark(1, true);
    let distr = PktSizeDistr::parse(&bench.pkt_size_distri).unwrap();
    let lcores = vec![vec![true], vec![true], vec![true]];
    assert_eq!(bench.plan(distr, 3, &lcores).err(), Some(Error::Config));
}

#[test]
fn zero_sized_buffers_are_rejected() {
    let mut bench = benchmark(1, false);
    bench.num_bufs = 0;
    let distr = PktSizeDistr::parse(&bench.pkt_size_distri).unwrap();
    let lcores = vec![vec![true]];
    assert_eq!(bench.plan(distr, 1, &lcores).err(), Some(Error::Config));
}

#[test]
fn oversized_packets_are_rejected() {
    let bench = benchmark(1, false);
    let distr = PktSizeDistr::parse("constant(5000)").unwrap();
    let lcores = vec![vec![true]];
    assert_eq!(bench.plan(distr, 1, &lcores).err(), Some(Error::Config));
}

#[test]
fn oversized_buffers_are_rejected() {
    let mut bench = benchmark(1, false);
    bench.buf_size = 70_000;
    bench.num_bufs = 16;
    let distr = PktSizeDistr::parse(&bench.pkt_size_distri).unwrap();
    let lcores = vec![vec![true]];
    assert_eq!(bench.plan(distr, 1, &lcores).err(), Some(Error::Config));
}

#[test]
fn join_handle_surfaces_the_closure_result() {
    let ok = BenchmarkJoinHandle::new(|| Ok(()));
    assert_eq!(ok.join(), Ok(()));
    let failed = BenchmarkJoinHandle::new(|| Err(Error::HardwareAccess));
    assert_eq!(failed.join(), Err(Error::HardwareAccess));
}

#[test]
fn cancel_handle_runs_the_closure_once() {
    let fired = Rc::new(RefCell::new(0u32));
    let observer = fired.clone();
    let handle = BenchmarkCancelHandle::new(move || {
        *observer.borrow_mut() += 1;
    });
    handle.cancel();
    assert_eq!(*fired.borrow(), 1);
}
