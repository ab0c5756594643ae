use std::cell::RefCell;
use std::rc::Rc;

use dram_bench::{join_result, Error, StepEvent, Worker, WorkerDriver, WorkerGroup};

/// A worker scripted to fail at chosen points, recording every call.
struct Scripted {
    tag: &'static str,
    fail_init: bool,
    fail_on_run: Option<u32>,
    fail_deinit: bool,
    runs: u32,
    log: Rc<RefCell<Vec<String>>>,
}

impl Scripted {
    fn new(tag: &'static str, log: Rc<RefCell<Vec<String>>>) -> Scripted {
        Scripted {
            tag,
            fail_init: false,
            fail_on_run: None,
            fail_deinit: false,
            runs: 0,
            log,
        }
    }
}

impl Worker for Scripted {
    fn wf(&self) -> bool {
        true
    }

    fn name(&self) -> String {
        self.tag.to_string()
    }

    fn init(&mut self) -> Result<(), Error> {
        self.log.borrow_mut().push(format!("{} init", self.tag));
        if self.fail_init {
            Err(Error::Resource)
        } else {
            Ok(())
        }
    }

    fn deinit(&mut self) -> Result<(), Error> {
        self.log.borrow_mut().push(format!("{} deinit", self.tag));
        if self.fail_deinit {
            Err(Error::Internal)
        } else {
            Ok(())
        }
    }

    fn run_once(&mut self) -> Result<(), Error> {
        self.runs += 1;
        self.log.borrow_mut().push(format!("{} run", self.tag));
        if self.fail_on_run == Some(self.runs) {
            Err(Error::HardwareAccess)
        } else {
            Ok(())
        }
    }
}

fn count(log: &Rc<RefCell<Vec<String>>>, entry: &str) -> usize {
    log.borrow().iter().filter(|l| l.as_str() == entry).count()
}

#[test]
fn failing_run_once_is_reported_and_deinit_still_runs() {
    let log = Rc::new(RefCell::new(Vec::new()));
    let mut group = WorkerGroup::new();
    group.add_worker(Scripted::new("w0", log.clone()));
    let mut failing = Scripted::new("w1", log.clone());
    failing.fail_on_run = Some(2);
    group.add_worker(failing);
    group.add_worker(Scripted::new("w2", log.clone()));

    let (mut drivers, flag, cancel) = group.start().unwrap();
    assert_eq!(drivers.len(), 3);

    // every thread polls the shared flag at the top of each iteration;
    // round-robin stepping simulates the three threads running in parallel
    let mut done = [false; 3];
    for _round in 0..4 {
        for (i, driver) in drivers.iter_mut().enumerate() {
            if !done[i] {
                driver.step(flag.is_running());
                done[i] = driver.is_done();
            }
        }
    }

    // worker #1 failed on its second run-once call: it is done, its deinit
    // ran anyway, and the run failure is its reported outcome
    assert!(drivers[1].is_done());
    assert_eq!(drivers[1].result(), Err(Error::HardwareAccess));
    assert_eq!(count(&log, "w1 run"), 2);
    assert_eq!(count(&log, "w1 deinit"), 1);

    // the others run on until cancellation, then complete cleanly
    assert!(!drivers[0].is_done());
    assert!(!drivers[2].is_done());
    cancel.cancel();
    for (i, driver) in drivers.iter_mut().enumerate() {
        let mut guard = 0;
        while !done[i] {
            driver.step(flag.is_running());
            done[i] = driver.is_done();
            guard += 1;
            assert!(guard < 10);
        }
    }
    assert_eq!(drivers[0].result(), Ok(()));
    assert_eq!(drivers[2].result(), Ok(()));
    assert_eq!(count(&log, "w0 deinit"), 1);
    assert_eq!(count(&log, "w2 deinit"), 1);
}

#[test]
fn init_failure_skips_running_and_deinit() {
    let log = Rc::new(RefCell::new(Vec::new()));
    let mut w = Scripted::new("w", log.clone());
    w.fail_init = true;
    let mut driver = WorkerDriver::new(w);
    let ev = driver.step(true);
    assert_eq!(ev, StepEvent::Initialized(Err(Error::Resource)));
    assert!(driver.is_done());
    assert_eq!(driver.result(), Err(Error::Resource));
    assert_eq!(count(&log, "w init"), 1);
    assert_eq!(count(&log, "w run"), 0);
    assert_eq!(count(&log, "w deinit"), 0);
}

#[test]
fn earliest_failure_wins_over_deinit_failure() {
    let log = Rc::new(RefCell::new(Vec::new()));
    let mut w = Scripted::new("w", log.clone());
    w.fail_on_run = Some(1);
    w.fail_deinit = true;
    let mut driver = WorkerDriver::new(w);
    assert_eq!(driver.step(true), StepEvent::Initialized(Ok(())));
    // run fails; deinit fails too, but the run-once failure came first
    assert_eq!(driver.step(true), StepEvent::Ran(Err(Error::HardwareAccess)));
    assert!(driver.is_done());
    assert_eq!(driver.result(), Err(Error::HardwareAccess));
    assert_eq!(count(&log, "w deinit"), 1);
}

#[test]
fn deinit_failure_is_reported_when_nothing_failed_earlier() {
    let log = Rc::new(RefCell::new(Vec::new()));
    let mut w = Scripted::new("w", log.clone());
    w.fail_deinit = true;
    let mut driver = WorkerDriver::new(w);
    assert_eq!(driver.step(true), StepEvent::Initialized(Ok(())));
    assert_eq!(driver.step(true), StepEvent::Ran(Ok(())));
    // cancelled: the deinit failure is the only one, so it is reported
    assert_eq!(driver.step(false), StepEvent::Stopped(Err(Error::Internal)));
    assert!(driver.is_done());
    assert_eq!(driver.result(), Err(Error::Internal));
}

#[test]
fn cancelled_worker_completes_cleanly() {
    let log = Rc::new(RefCell::new(Vec::new()));
    let mut driver = WorkerDriver::new(Scripted::new("w", log.clone()));
    assert_eq!(driver.step(true), StepEvent::Initialized(Ok(())));
    assert_eq!(driver.step(true), StepEvent::Ran(Ok(())));
    assert_eq!(driver.step(false), StepEvent::Stopped(Ok(())));
    assert_eq!(driver.result(), Ok(()));
    assert_eq!(count(&log, "w run"), 1);
    assert_eq!(count(&log, "w deinit"), 1);
}

#[test]
fn empty_group_fails_fast() {
    let group: WorkerGroup<Scripted> = WorkerGroup::new();
    match group.start() {
        Err(e) => assert_eq!(e, Error::Config),
        Ok(_) => panic!("an empty group must not start"),
    }
}

#[test]
fn join_takes_the_first_failure_in_completion_order() {
    let outcomes = vec![Ok(()), Err(Error::HardwareAccess), Err(Error::Resource)];
    assert_eq!(join_result(&outcomes, 3, false), Err(Error::HardwareAccess));
}

#[test]
fn join_is_clean_when_every_worker_succeeded() {
    let outcomes = vec![Ok(()), Ok(()), Ok(())];
    assert_eq!(join_result(&outcomes, 3, false), Ok(()));
}

#[test]
fn join_reports_a_premature_disconnect_as_internal() {
    let outcomes: Vec<Result<(), Error>> = vec![Ok(())];
    assert_eq!(join_result(&outcomes, 3, true), Err(Error::Internal));
    // a disconnect after everyone reported is not an error
    let all = vec![Ok(()), Ok(()), Ok(())];
    assert_eq!(join_result(&all, 3, true), Ok(()));
}

#[test]
fn group_len_tracks_added_workers() {
    let log = Rc::new(RefCell::new(Vec::new()));
    let mut group = WorkerGroup::new();
    assert_eq!(group.len(), 0);
    group.add_worker(Scripted::new("a", log.clone()));
    group.add_worker(Scripted::new("b", log.clone()));
    assert_eq!(group.len(), 2);
}
