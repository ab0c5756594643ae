use core::sync::atomic::{AtomicBool, Ordering};
use std::sync::Arc;

use vstd::prelude::*;

use crate::error::Error;

verus! {

/// A polymorphic unit of concurrent work. The pool drives each worker
/// through initialization, repeated run-once calls while the shared running
/// flag stays set, and deinitialization.
pub trait Worker {
    /// The worker's own well-formedness: what its setup establishes and
    /// every run-once call preserves.
    spec fn wf(&self) -> bool;

    /// A short name for log lines and failure reports.
    fn name(&self) -> String;

    /// One-time setup. A failure here keeps the worker from ever running
    /// and is reported as its outcome; deinit is not called after it.
    fn init(&mut self) -> (r: Result<(), Error>)
        requires
            old(self).wf(),
        ensures
            final(self).wf(),
    ;

    /// One-time teardown, run exactly once after the worker leaves the
    /// running state, whether through cancellation or a run-once failure.
    fn deinit(&mut self) -> (r: Result<(), Error>)
        requires
            old(self).wf(),
        ensures
            final(self).wf(),
    ;

    /// One non-blocking slice of work.
    fn run_once(&mut self) -> (r: Result<(), Error>)
        requires
            old(self).wf(),
        ensures
            final(self).wf(),
    ;
}

/// A shared boolean the workers poll cooperatively: cancellation clears it,
/// and each worker observes that at the top of its next iteration, never
/// mid-iteration. Reads are racy by design, so nothing is assumed about
/// the value a load returns.
pub struct RunFlag {
    running: Arc<AtomicBool>,
}

impl Clone for RunFlag {
    fn clone(&self) -> RunFlag {
        RunFlag { running: self.running.clone() }
    }
}

impl RunFlag {
    /// A fresh flag, initially set.
    pub fn new() -> RunFlag {
        RunFlag { running: Arc::new(AtomicBool::new(true)) }
    }

    /// Polls the flag. The value is whatever some thread last stored.
    pub fn is_running(&self) -> bool {
        self.running.load(Ordering::Relaxed)
    }

    /// Clears the flag, asking every worker that shares it to stop.
    fn stop(&self) {
        self.running.store(false, Ordering::Relaxed);
    }
}

/// Where a worker stands in its lifecycle.
#[derive(Debug, Clone, Copy, PartialEq, Eq, Structural)]
pub enum WorkerPhase {
    /// Built, not yet initialized.
    Ready,
    /// Initialized; run-once is being called repeatedly.
    Running,
    /// Finished: past deinit, or stopped by an init failure.
    Done,
}

/// One lifecycle step's observable interaction: which call the step made
/// on the worker, and what that call returned.
#[derive(Debug, Clone, Copy, PartialEq, Eq)]
pub enum StepEvent {
    /// The worker was initialized, with this result.
    Initialized(Result<(), Error>),
    /// Run-once was called, with this result; on a failure, deinit was
    /// also called and its outcome discarded.
    Ran(Result<(), Error>),
    /// The flag was clear: run-once was not called again, and deinit was
    /// called with this result.
    Stopped(Result<(), Error>),
}

/// Drives one worker through Ready, Running and Done, recording the
/// earliest failure. One step performs at most one worker call, so the
/// thread that owns the driver can poll the shared flag between steps.
pub struct WorkerDriver<W> {
    worker: W,
    phase: WorkerPhase,
    failure: Option<Error>,
}

impl<W: Worker> WorkerDriver<W> {
    /// The worker being driven.
    pub closed spec fn spec_worker(&self) -> W {
        self.worker
    }

    /// The lifecycle phase the driver is in.
    pub closed spec fn spec_phase(&self) -> WorkerPhase {
        self.phase
    }

    /// The earliest recorded failure, if any.
    pub closed spec fn spec_failure(&self) -> Option<Error> {
        self.failure
    }

    /// A failure can only be on record once the worker is done, and the
    /// worker itself stays well-formed throughout.
    pub open spec fn wf(&self) -> bool {
        &&& self.spec_phase() != WorkerPhase::Done ==> self.spec_failure() is None
        &&& self.spec_worker().wf()
    }

    pub fn new(worker: W) -> (r: WorkerDriver<W>)
        requires
            worker.wf(),
        ensures
            r.spec_worker() == worker,
            r.spec_phase() == WorkerPhase::Ready,
            r.spec_failure() is None,
            r.wf(),
    {
        WorkerDriver { worker, phase: WorkerPhase::Ready, failure: None }
    }

    /// Performs one lifecycle step and returns the interaction it had with
    /// the worker.
    ///
    /// From `Ready` it initializes: success enters `Running`; a failure is
    /// recorded as the worker's outcome and the worker is done without
    /// deinit ever running. From `Running` with the flag clear it
    /// deinitializes and finishes, recording a deinit failure exactly
    /// because no earlier one exists on that path. From `Running` with the
    /// flag set it calls run-once: a failure is recorded as the earliest
    /// one and wins, deinit still runs with its outcome discarded, and the
    /// worker is done. Which call a step makes is fixed by the phase and
    /// the flag, and the recorded failure is fixed by that call's returned
    /// result.
    pub fn step(&mut self, keep_running: bool) -> (ev: StepEvent)
        requires
            old(self).wf(),
            old(self).spec_phase() != WorkerPhase::Done,
        ensures
            final(self).wf(),
            old(self).spec_phase() == WorkerPhase::Ready ==> ev is Initialized,
            old(self).spec_phase() == WorkerPhase::Running && keep_running ==> ev is Ran,
            old(self).spec_phase() == WorkerPhase::Running && !keep_running ==> ev is Stopped,
            ev matches StepEvent::Initialized(r) ==> (match r {
                Ok(_) => final(self).spec_phase() == WorkerPhase::Running && final(self).spec_failure() is None,
                Err(e) => final(self).spec_phase() == WorkerPhase::Done && final(self).spec_failure() == Some(e),
            }),
            ev matches StepEvent::Ran(r) ==> (match r {
                Ok(_) => final(self).spec_phase() == WorkerPhase::Running && final(self).spec_failure() is None,
                Err(e) => final(self).spec_phase() == WorkerPhase::Done && final(self).spec_failure() == Some(e),
            }),
            ev matches StepEvent::Stopped(r) ==> final(self).spec_phase() == WorkerPhase::Done
                && final(self).spec_failure() == (match r {
                Ok(_) => None::<Error>,
                Err(e) => Some(e),
            }),
    {
        match self.phase {
            WorkerPhase::Ready => {
                match self.worker.init() {
                    Ok(_) => {
                        self.phase = WorkerPhase::Running;
                        StepEvent::Initialized(Ok(()))
                    },
                    Err(e) => {
                        self.failure = Some(e);
                        self.phase = WorkerPhase::Done;
                        StepEvent::Initialized(Err(e))
                    },
                }
            },
            WorkerPhase::Running => {
                if !keep_running {
                    let deinit_result = self.worker.deinit();
                    match deinit_result {
                        Ok(_) => {
                        },
                        Err(e) => {
                            self.failure = Some(e);
                        },
                    }
                    self.phase = WorkerPhase::Done;
                    StepEvent::Stopped(deinit_result)
                } else {
                    match self.worker.run_once() {
                        Ok(_) => StepEvent::Ran(Ok(())),
                        Err(e) => {
                            self.failure = Some(e);
                            // Deinit still runs, but the run-once failure
                            // was first and wins.
                            let _ = self.worker.deinit();
                            self.phase = WorkerPhase::Done;
                            StepEvent::Ran(Err(e))
                        },
                    }
                }
            },
            WorkerPhase::Done => StepEvent::Stopped(Ok(())),
        }
    }

    /// Whether the worker has reached its final phase.
    pub fn is_done(&self) -> (r: bool)
        ensures
            r == (self.spec_phase() == WorkerPhase::Done),
    {
        match self.phase {
            WorkerPhase::Done => true,
            _ => false,
        }
    }

    /// The worker's outcome: its earliest failure, or success.
    pub fn result(&self) -> (r: Result<(), Error>)
        ensures
            r == (match self.spec_failure() {
                Some(e) => Err::<(), Error>(e),
                None => Ok::<(), Error>(()),
            }),
    {
        match self.failure {
            Some(e) => Err(e),
            None => Ok(()),
        }
    }
}

/// The set of workers to be run, one thread each, with coordinated start
/// and cooperative cancellation. Consumed exactly once by `start`.
pub struct WorkerGroup<W> {
    workers: Vec<W>,
}

impl<W: Worker> WorkerGroup<W> {
    /// The workers added so far, in order.
    pub closed spec fn spec_workers(&self) -> Seq<W> {
        self.workers@
    }

    pub fn new() -> (r: WorkerGroup<W>)
        ensures
            r.spec_workers().len() == 0,
            r.wf(),
    {
        WorkerGroup { workers: Vec::new() }
    }

    /// All workers in the group are well-formed.
    pub open spec fn wf(&self) -> bool {
        forall|i: int| 0 <= i < self.spec_workers().len() ==> (#[trigger] self.spec_workers()[i]).wf()
    }

    pub fn add_worker(&mut self, worker: W)
        requires
            worker.wf(),
        ensures
            final(self).spec_workers() == old(self).spec_workers().push(worker),
            old(self).wf() ==> final(self).wf(),
    {
        self.workers.push(worker);
        proof {
            if old(self).wf() {
                assert forall|i: int| 0 <= i < self.spec_workers().len() implies (
                #[trigger] self.spec_workers()[i]).wf() by {
                    if i < self.spec_workers().len() - 1 {
                        assert(self.spec_workers()[i] == old(self).spec_workers()[i]);
                    } else {
                        assert(self.spec_workers()[i] == worker);
                    }
                }
            }
        }
    }

    /// How many workers the group holds.
    pub fn len(&self) -> (r: usize)
        ensures
            r == self.spec_workers().len(),
    {
        self.workers.len()
    }

    /// Consumes the group and prepares the run: one fresh driver per worker
    /// in order, a shared running flag initially set, and the cancel handle
    /// that clears it. Fails fast with `Error::Config`, before anything is
    /// handed out, when the group is empty or holds more workers than the
    /// index space supports.
    pub fn start(self) -> (r: Result<(Vec<WorkerDriver<W>>, RunFlag, WorkerGroupCancelHandle), Error>)
        requires
            self.wf(),
        ensures
            match r {
                Ok((drivers, _flag, _cancel)) => {
                    &&& 0 < self.spec_workers().len() <= u16::MAX
                    &&& drivers@.len() == self.spec_workers().len()
                    &&& forall|i: int|
                        0 <= i < drivers@.len() ==> {
                            &&& (#[trigger] drivers@[i]).spec_worker() == self.spec_workers()[i]
                            &&& drivers@[i].spec_phase() == WorkerPhase::Ready
                            &&& drivers@[i].spec_failure() is None
                            &&& drivers@[i].wf()
                        }
                },
                Err(e) => {
                    &&& e == Error::Config
                    &&& (self.spec_workers().len() == 0 || self.spec_workers().len() > u16::MAX)
                },
            },
    {
        let mut workers = self.workers;
        let ghost all = workers@;
        let count = workers.len();
        if count == 0 {
            return Err(Error::Config);
        }
        if count > 65535 {
            return Err(Error::Config);
        }

        let running = RunFlag::new();
        let cancel = WorkerGroupCancelHandle { running: running.clone() };

        let mut drivers: Vec<WorkerDriver<W>> = Vec::new();
        while workers.len() > 0
            invariant
                drivers@.len() + workers@.len() == all.len(),
                workers@ == all.skip(drivers@.len() as int),
                forall|i: int| 0 <= i < all.len() ==> (#[trigger] all[i]).wf(),
                forall|i: int|
                    0 <= i < drivers@.len() ==> {
                        &&& (#[trigger] drivers@[i]).spec_worker() == all[i]
                        &&& drivers@[i].spec_phase() == WorkerPhase::Ready
                        &&& drivers@[i].spec_failure() is None
                    },
            decreases workers@.len(),
        {
            let w = workers.remove(0);
            proof {
                assert(all.skip(drivers@.len() as int).drop_first() =~= all.skip(
                    drivers@.len() as int + 1,
                ));
            }
            drivers.push(WorkerDriver::new(w));
        }

        Ok((drivers, running, cancel))
    }
}

/// Signals cooperative shutdown: clears the shared running flag. It does
/// not wait for workers to stop, and cannot interrupt one blocked inside a
/// run-once call.
pub struct WorkerGroupCancelHandle {
    running: RunFlag,
}

impl WorkerGroupCancelHandle {
    pub fn cancel(self) {
        self.running.stop();
    }
}


/// The first failure among the workers' outcomes, in completion order.
pub open spec fn spec_first_failure(outcomes: Seq<Result<(), Error>>) -> Option<Error>
    decreases outcomes.len(),
{
    if outcomes.len() == 0 {
        None
    } else {
        match outcomes[0] {
            Err(e) => Some(e),
            Ok(_) => spec_first_failure(outcomes.drop_first()),
        }
    }
}

/// Folds what the joining thread observed into the pool's own result: the
/// first failure in completion order wins; with no failure on record, a
/// completion channel that disconnected before every one of the `expected`
/// workers reported is an internal error; otherwise the run is clean.
pub fn join_result(
    outcomes: &Vec<Result<(), Error>>,
    expected: usize,
    disconnected: bool,
) -> (r: Result<(), Error>)
    ensures
        r == (match spec_first_failure(outcomes@) {
            Some(e) => Err::<(), Error>(e),
            None => if disconnected && outcomes@.len() < expected {
                Err::<(), Error>(Error::Internal)
            } else {
                Ok::<(), Error>(())
            },
        }),
{
    let n = outcomes.len();
    proof {
        assert(outcomes@.skip(0) =~= outcomes@);
    }
    let mut i: usize = 0;
    while i < n
        invariant
            0 <= i <= n,
            n == outcomes@.len(),
            spec_first_failure(outcomes@) == spec_first_failure(outcomes@.skip(i as int)),
        decreases n - i,
    {
        proof {
            assert(outcomes@.skip(i as int).drop_first() =~= outcomes@.skip(i as int + 1));
        }
        match outcomes[i] {
            Err(e) => {
                return Err(e);
            },
            Ok(_) => {
            },
        }
        i += 1;
    }
    if disconnected && n < expected {
        Err(Error::Internal)
    } else {
        Ok(())
    }
}

} // verus!
