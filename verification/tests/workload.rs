use dram_bench::{
    init, Error, MemRegistry, MoveMentMode, MovementCounter, PktSizeDistr, SimpleWorker,
    StepEvent, Worker, WorkerDriver,
};

fn build_worker(mode: MoveMentMode, counter: MovementCounter) -> SimpleWorker {
    let conf = init(4096, false).unwrap();
    let mut reg = MemRegistry::new();
    let distr = PktSizeDistr::parse("constant(64)").unwrap();
    SimpleWorker::new(
        &mut reg, &conf, 5, 100_000, 16, 2048, 0, 1, distr, mode, counter,
    )
    .unwrap()
}

#[test]
fn worker_moves_bytes_in_packet_multiples() {
    let counter = MovementCounter::new();
    let mut w = build_worker(MoveMentMode::S2S, counter.clone());
    w.init().unwrap();
    let mut guard = 0;
    while counter.read() == 0 && guard < 10_000 {
        w.run_once().unwrap();
        guard += 1;
    }
    assert!(counter.read() > 0);
    // every movement copies one 64-byte packet into a larger buffer
    assert_eq!(counter.read() % 64, 0);
    w.deinit().unwrap();
}

#[test]
fn worker_with_random_placement_also_moves() {
    let counter = MovementCounter::new();
    let mut w = build_worker(MoveMentMode::R2R, counter.clone());
    w.init().unwrap();
    let mut guard = 0;
    while counter.read() == 0 && guard < 10_000 {
        w.run_once().unwrap();
        guard += 1;
    }
    assert!(counter.read() > 0);
}

#[test]
fn worker_runs_under_a_driver() {
    let counter = MovementCounter::new();
    let w = build_worker(MoveMentMode::R2S, counter.clone());
    let mut driver = WorkerDriver::new(w);
    assert_eq!(driver.step(true), StepEvent::Initialized(Ok(())));
    let mut guard = 0;
    while counter.read() == 0 && guard < 10_000 {
        assert_eq!(driver.step(true), StepEvent::Ran(Ok(())));
        guard += 1;
    }
    assert_eq!(driver.step(false), StepEvent::Stopped(Ok(()))); // cancelled: deinit, done
    assert!(driver.is_done());
    assert_eq!(driver.result(), Ok(()));
    assert!(counter.read() > 0);
}

#[test]
fn worker_name_spells_its_placement() {
    let counter = MovementCounter::new();
    let w = build_worker(MoveMentMode::S2R, counter);
    assert_eq!(w.name(), "SW(0-1:5)");
    assert_eq!(w.lcore_id(), 5);
    assert_eq!(w.node_id(), 0);
    assert_eq!(w.peer_node_id(), 1);
}

#[test]
fn worker_construction_claims_two_regions() {
    let conf = init(4096, false).unwrap();
    let mut reg = MemRegistry::new();
    let distr = PktSizeDistr::parse("constant(64)").unwrap();
    let counter = MovementCounter::new();
    let w = SimpleWorker::new(
        &mut reg,
        &conf,
        0,
        1000,
        16,
        2048,
        0,
        0,
        distr,
        MoveMentMode::S2S,
        counter,
    )
    .unwrap();
    assert_eq!(reg.segments_created(), 2);
    assert_eq!(w.node_id(), w.peer_node_id());
}

#[test]
fn worker_construction_rejects_bad_huge_pages() {
    let conf = init(4096, true).unwrap();
    let mut reg = MemRegistry::new();
    let distr = PktSizeDistr::parse("constant(64)").unwrap();
    let counter = MovementCounter::new();
    let r = SimpleWorker::new(
        &mut reg,
        &conf,
        0,
        1000,
        16,
        2048,
        0,
        1,
        distr,
        MoveMentMode::S2S,
        counter,
    );
    assert_eq!(r.err(), Some(Error::Resource));
}

#[test]
fn movement_counter_accumulates_and_wraps() {
    let counter = MovementCounter::new();
    assert_eq!(counter.read(), 0);
    counter.add(40);
    counter.add(2);
    assert_eq!(counter.read(), 42);
    counter.add(u64::MAX);
    assert_eq!(counter.read(), 41);
}

#[test]
fn movement_mode_spells_both_sides() {
    assert_eq!(MoveMentMode::R2R.as_str(), "R2R");
    assert_eq!(MoveMentMode::R2S.as_str(), "R2S");
    assert_eq!(MoveMentMode::S2R.as_str(), "S2R");
    assert_eq!(MoveMentMode::S2S.as_str(), "S2S");
}
