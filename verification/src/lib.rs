//! A memory-movement benchmark engine: NUMA-node-aware memory regions handing
//! out fixed-size blocks, a token-bucket rate limiter, a worker pool with a
//! cooperative lifecycle, and a wraparound-tolerant energy-counter cache.

mod bench;
mod config;
mod distr;
mod error;
mod limiter;
mod region;
mod telemetry;
mod worker;
mod workload;

pub mod text;

pub use bench::{
    spec_all_assignments, spec_node_assignments, spec_peer_node, spec_placement,
    BenchmarkCancelHandle, BenchmarkJoinHandle, SimpleBenchmark, WorkerAssignment,
};
pub use config::{
    align_with_page_size, init, parse_page_size_str, spec_align_up, spec_parse_page_size,
    spec_scaled_size, spec_supported_page_size, spec_usize_value, supported_page_size, GlobalConf,
};
pub use config::{PAGE_SIZE_1G, PAGE_SIZE_2M};
pub use distr::{
    spec_clean_param, spec_constant_keyword, spec_parse_distr, spec_u16_value, PktSizeDistr,
};
pub use error::Error;
pub use limiter::{
    lemma_admitted_conservation, lemma_burst_bound, lemma_long_run_admitted_bound,
    lemma_long_run_admitted_lower_bound, lemma_no_refill_same_instant,
    lemma_refill_rounds_to_rate, spec_admitted_total, spec_call_step, spec_is_pow10_scale,
    spec_trace_admitted, spec_trace_losses, spec_trace_refills, RateLimiter, CAPACITY_TOKENS,
    M_BIT_PER_SECOND, PRECISION_THRESHOLD,
};
pub use region::{
    lemma_block_within_region, lemma_regions_disjoint, spec_block_id, spec_slot_addr, MemBlock,
    MemRegistry, MemSegment, MovementCounter, FIRST_BASE_VADDR,
};
pub use telemetry::{
    detect_zones, energy_delta, energy_unit_exponent, first_set_core, should_terminate,
    spec_detect_zones, spec_energy_delta, spec_energy_unit_exponent, spec_zones_of, CpuPackage,
    EnergyCounter, EnergyReaderRegistry, EnergyUnit, RaplZone, ZoneKind, MSR_DRAM_ENERGY_STATUS,
    MSR_PKG_ENERGY_STATUS, MSR_PP0_ENERGY_STATUS, MSR_RAPL_POWER_UNIT,
};
pub use worker::{
    join_result, spec_first_failure, RunFlag, StepEvent, Worker, WorkerDriver, WorkerGroup,
    WorkerGroupCancelHandle, WorkerPhase,
};
pub use workload::{
    spec_batch_moved, spec_consumed, spec_move_len, spec_order_at, spec_overwrite, spec_wrap64,
    Application, MoveMentMode, NetworkCard, SimpleWorker, BATCH_SIZE, NANOS_PER_SEC,
};
