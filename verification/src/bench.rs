use vstd::prelude::*;

use crate::distr::PktSizeDistr;
use crate::error::Error;
use crate::workload::MoveMentMode;

verus! {

/// One worker to be placed: the logical core it runs on, the node its
/// generator role allocates from and the node its consumer role writes to.
#[derive(Debug, Clone, Copy, PartialEq, Eq, Structural)]
pub struct WorkerAssignment {
    pub lcore_id: u16,
    pub node_id: u16,
    pub peer_node_id: u16,
}

/// The node a worker on `node` moves its data to: the node itself, or its
/// partner in the even-odd pairing when interleaved mode is on.
pub open spec fn spec_peer_node(node: u16, interleave: bool) -> u16 {
    if !interleave {
        node
    } else if node % 2 == 0 {
        (node + 1) as u16
    } else {
        (node - 1) as u16
    }
}

/// The workers that one node's logical-core mask yields, one per enabled
/// core, in core order.
pub open spec fn spec_node_assignments(lcores: Seq<bool>, node: u16, interleave: bool) -> Seq<
    WorkerAssignment,
>
    decreases lcores.len(),
{
    if lcores.len() == 0 {
        Seq::empty()
    } else {
        let rest = spec_node_assignments(lcores.drop_last(), node, interleave);
        if lcores.last() {
            rest.push(
                WorkerAssignment {
                    lcore_id: (lcores.len() - 1) as u16,
                    node_id: node,
                    peer_node_id: spec_peer_node(node, interleave),
                },
            )
        } else {
            rest
        }
    }
}

/// Every worker the whole topology could host, in node-major, core-minor
/// order.
pub open spec fn spec_all_assignments(lcores_per_node: Seq<Seq<bool>>, interleave: bool) -> Seq<
    WorkerAssignment,
>
    decreases lcores_per_node.len(),
{
    if lcores_per_node.len() == 0 {
        Seq::empty()
    } else {
        spec_all_assignments(lcores_per_node.drop_last(), interleave) + spec_node_assignments(
            lcores_per_node.last(),
            (lcores_per_node.len() - 1) as u16,
            interleave,
        )
    }
}

/// The placement the benchmark makes: the first `num_workers` hostable
/// workers, or all of them when fewer exist.
pub open spec fn spec_placement(
    lcores_per_node: Seq<Seq<bool>>,
    interleave: bool,
    num_workers: u32,
) -> Seq<WorkerAssignment> {
    let all = spec_all_assignments(lcores_per_node, interleave);
    all.take(vstd::math::min(num_workers as int, all.len() as int))
}

/// The memory-movement benchmark configuration: paired sender and receiver
/// roles over per-node regions, one worker per selected logical core.
pub struct SimpleBenchmark {
    pub interleave: bool,
    pub buf_size: u32,
    pub num_bufs: u32,
    pub bandwidth: u32,
    pub pkt_size_distri: String,
    pub num_workers: u32,
    pub mode: MoveMentMode,
}

impl SimpleBenchmark {
    /// Whether this configuration passes the eager checks: buffers of some
    /// size, a bounded per-buffer length, an interleave mode only over an
    /// even node count, and a packet distribution whose largest draw fits
    /// one buffer.
    pub open spec fn spec_valid(&self, distr: PktSizeDistr, max_nodes: u16) -> bool {
        &&& self.num_bufs * self.buf_size != 0
        &&& self.buf_size <= u16::MAX
        &&& !(self.interleave && max_nodes % 2 != 0)
        &&& distr.spec_max_size() <= self.buf_size
    }

    /// Decides where the workers go: walks the nodes in order, and within
    /// each node its logical cores, placing one worker per enabled core
    /// until `num_workers` are placed. Every configuration error is caught
    /// here, before any resource is touched.
    pub fn plan(&self, distr: PktSizeDistr, max_nodes: u16, lcores_per_node: &Vec<Vec<bool>>) -> (r:
        Result<Vec<WorkerAssignment>, Error>)
        requires
            self.bandwidth >= 1,
            self.num_bufs * self.buf_size <= u32::MAX,
            lcores_per_node@.len() == max_nodes as int,
            forall|i: int|
                0 <= i < lcores_per_node@.len() ==> (#[trigger] lcores_per_node@[i])@.len()
                    <= u16::MAX,
        ensures
            match r {
                Ok(assignments) => {
                    &&& self.spec_valid(distr, max_nodes)
                    &&& assignments@ == spec_placement(
                        lcores_per_node.deep_view(),
                        self.interleave,
                        self.num_workers,
                    )
                },
                Err(e) => e == Error::Config && !self.spec_valid(distr, max_nodes),
            },
    {
        if self.num_bufs * self.buf_size == 0 {
            return Err(Error::Config);
        }
        if self.buf_size > 65535 {
            return Err(Error::Config);
        }
        if self.interleave && max_nodes % 2 != 0 {
            return Err(Error::Config);
        }
        if distr.max_size() as u32 > self.buf_size {
            return Err(Error::Config);
        }

        let interleave = self.interleave;
        let ghost nodes_view = lcores_per_node.deep_view();
        let num_nodes = lcores_per_node.len();
        let mut out: Vec<WorkerAssignment> = Vec::new();
        let mut remaining = self.num_workers;

        proof {
            assert(nodes_view.len() == lcores_per_node@.len());
        }

        let mut node: usize = 0;
        let ghost mut full = Seq::<WorkerAssignment>::empty();
        proof {
            assert(nodes_view.take(0) =~= Seq::<Seq<bool>>::empty());
        }
        while node < num_nodes
            invariant
                0 <= node <= num_nodes,
                num_nodes == nodes_view.len(),
                nodes_view == lcores_per_node.deep_view(),
                nodes_view.len() == lcores_per_node@.len(),
                forall|i: int|
                    0 <= i < lcores_per_node@.len() ==> (#[trigger] lcores_per_node@[i])@.len()
                        <= u16::MAX,
                num_nodes <= u16::MAX,
                full == spec_all_assignments(nodes_view.take(node as int), interleave),
                out@ == full.take(vstd::math::min(self.num_workers as int, full.len() as int)),
                out@.len() <= self.num_workers,
                remaining as int == self.num_workers - out@.len(),
            decreases num_nodes - node,
        {
            let lcores = &lcores_per_node[node];
            let ghost cur = lcores@;
            proof {
                assert(nodes_view[node as int] == cur);
            }
            let cores = lcores.len();
            let mut j: usize = 0;
            let ghost node_full_base = full;
            proof {
                assert(cur.take(0) =~= Seq::<bool>::empty());
                assert(node_full_base + spec_node_assignments(cur.take(0), node as u16, interleave)
                    =~= full);
            }
            while j < cores
                invariant
                    0 <= j <= cores,
                    cores == cur.len(),
                    cur.len() <= u16::MAX,
                    node < num_nodes <= u16::MAX,
                    lcores@ == cur,
                    cores == lcores@.len(),
                    full == node_full_base + spec_node_assignments(
                        cur.take(j as int),
                        node as u16,
                        interleave,
                    ),
                    out@ == full.take(vstd::math::min(self.num_workers as int, full.len() as int)),
                    out@.len() <= self.num_workers,
                    remaining as int == self.num_workers - out@.len(),
                decreases cores - j,
            {
                let enabled = lcores[j];
                proof {
                    assert(cur.take(j as int + 1).drop_last() =~= cur.take(j as int));
                }
                if enabled && remaining > 0 {
                    let peer: u16 = if !interleave {
                        node as u16
                    } else if (node as u16) % 2 == 0 {
                        node as u16 + 1
                    } else {
                        node as u16 - 1
                    };
                    let assignment = WorkerAssignment {
                        lcore_id: j as u16,
                        node_id: node as u16,
                        peer_node_id: peer,
                    };
                    proof {
                        full = full.push(assignment);
                        assert(out@.push(assignment) =~= full.take(
                            vstd::math::min(self.num_workers as int, full.len() as int),
                        ));
                    }
                    out.push(assignment);
                    remaining = remaining - 1;
                } else if enabled {
                    proof {
                        full = full.push(
                            WorkerAssignment {
                                lcore_id: j as u16,
                                node_id: node as u16,
                                peer_node_id: spec_peer_node(node as u16, interleave),
                            },
                        );
                        assert(out@ =~= full.take(
                            vstd::math::min(self.num_workers as int, full.len() as int),
                        ));
                    }
                }
                j += 1;
            }
            proof {
                assert(cur.take(cores as int) =~= cur);
                assert(nodes_view.take(node as int + 1).drop_last() =~= nodes_view.take(
                    node as int,
                ));
            }
            node += 1;
        }
        proof {
            assert(nodes_view.take(num_nodes as int) =~= nodes_view);
        }
        Ok(out)
    }
}

/// Blocks for the benchmark's completion and surfaces the first worker
/// error as its own result.
pub struct BenchmarkJoinHandle<F: FnOnce() -> Result<(), Error>> {
    join_handle: F,
}

impl<F: FnOnce() -> Result<(), Error>> BenchmarkJoinHandle<F> {
    /// The wrapped waiting closure.
    pub closed spec fn spec_handle(&self) -> F {
        self.join_handle
    }

    pub fn new(join_handle: F) -> (r: BenchmarkJoinHandle<F>)
        ensures
            r.spec_handle() == join_handle,
    {
        BenchmarkJoinHandle { join_handle }
    }

    /// Waits for the benchmark to finish; what the result means is exactly
    /// what the wrapped closure promises.
    pub fn join(self) -> (r: Result<(), Error>)
        requires
            call_requires(self.spec_handle(), ()),
        ensures
            call_ensures(self.spec_handle(), (), r),
    {
        (self.join_handle)()
    }
}

/// Signals the benchmark to shut down cooperatively.
pub struct BenchmarkCancelHandle<F: FnOnce()> {
    cancel_handle: F,
}

impl<F: FnOnce()> BenchmarkCancelHandle<F> {
    /// The wrapped cancelling closure.
    pub closed spec fn spec_handle(&self) -> F {
        self.cancel_handle
    }

    pub fn new(cancel_handle: F) -> (r: BenchmarkCancelHandle<F>)
        ensures
            r.spec_handle() == cancel_handle,
    {
        BenchmarkCancelHandle { cancel_handle }
    }

    /// Asks the benchmark to stop; the effect is exactly what the wrapped
    /// closure promises.
    pub fn cancel(self)
        requires
            call_requires(self.spec_handle(), ()),
        ensures
            exists|r: ()| call_ensures(self.spec_handle(), (), r),
    {
        (self.cancel_handle)();
    }
}

} // verus!
