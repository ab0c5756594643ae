use vstd::prelude::*;

verus! {

/// The failure kinds the benchmark engine can report.
///
/// `Config` covers invalid or contradictory benchmark parameters,
/// `Resource` covers mapping and allocation failures, `HardwareAccess`
/// covers failures of the hardware register interface, and `Internal`
/// covers completion-protocol violations inside the worker pool.
#[derive(Debug, Clone, Copy, PartialEq, Eq, Structural)]
pub enum Error {
    Config,
    Resource,
    HardwareAccess,
    Internal,
}

impl Error {
    /// A short human-readable description of the error kind.
    pub fn describe(&self) -> (r: &'static str)
        ensures
            r@.len() > 0,
    {
        proof {
            reveal_strlit("invalid benchmark configuration");
            reveal_strlit("resource allocation failed");
            reveal_strlit("hardware register access failed");
            reveal_strlit("internal protocol violation");
        }
        match self {
            Error::Config => "invalid benchmark configuration",
            Error::Resource => "resource allocation failed",
            Error::HardwareAccess => "hardware register access failed",
            Error::Internal => "internal protocol violation",
        }
    }
}

} // verus!
