//! The proof worker's control surface: shutdown signalling, job exchange
//! payloads and the work-cycle decisions.
//!
//! The worker itself fetches jobs, computes proofs and publishes results
//! over the network; the decisions of its polling cycle are pure functions
//! of what it observed and live here.

use vstd::prelude::*;

verus! {

/// The prover id meaning "not registered yet".
pub const ABSENT_PROVER_ID: i32 = -1;

/// Cooperative shutdown state shared with a running proof worker: whether a
/// shutdown was requested, and which prover id the worker registered.
#[derive(Clone, Copy, Debug, PartialEq, Eq, Structural)]
pub struct ShutdownRequest {
    shutdown_requested: bool,
    prover_id: i32,
}

impl ShutdownRequest {
    pub closed spec fn spec_prover_id(self) -> i32 {
        self.prover_id
    }

    pub closed spec fn spec_shutdown_requested(self) -> bool {
        self.shutdown_requested
    }

    /// A fresh request: no shutdown asked, no prover registered.
    pub fn new() -> (r: ShutdownRequest)
        ensures
            !r.spec_shutdown_requested(),
            r.spec_prover_id() == ABSENT_PROVER_ID,
    {
        ShutdownRequest { shutdown_requested: false, prover_id: ABSENT_PROVER_ID }
    }

    /// Record the id the worker registered under.
    pub fn set_prover_id(&mut self, id: i32)
        ensures
            final(self).spec_prover_id() == id,
            final(self).spec_shutdown_requested() == old(self).spec_shutdown_requested(),
    {
        self.prover_id = id;
    }

    /// The id the worker registered under.
    pub fn prover_id(&self) -> (r: i32)
        ensures
            r == self.spec_prover_id(),
    {
        self.prover_id
    }

    /// Ask the worker to stop at its next suspension point.
    pub fn set(&mut self)
        ensures
            final(self).spec_shutdown_requested(),
            final(self).spec_prover_id() == old(self).spec_prover_id(),
    {
        self.shutdown_requested = true;
    }

    /// Was a shutdown requested?
    pub fn get(&self) -> (r: bool)
        ensures
            r == self.spec_shutdown_requested(),
    {
        self.shutdown_requested
    }
}

impl Default for ShutdownRequest {
    fn default() -> (r: ShutdownRequest)
        ensures
            !r.spec_shutdown_requested(),
            r.spec_prover_id() == ABSENT_PROVER_ID,
    {
        ShutdownRequest::new()
    }
}

/// Configuration a prover needs to initialize; how it is obtained is the
/// embedder's concern.
pub trait ProverConfig: Sized {
    fn from_env() -> Self;
}

/// A job request sent by a worker.
#[derive(Clone, Debug)]
pub struct ProverInputRequest {
    pub prover_name: String,
    pub aux_data: ProverInputRequestAuxData,
}

/// Worker preferences attached to a job request.
#[derive(Clone, Copy, Debug, PartialEq, Eq, Structural)]
pub struct ProverInputRequestAuxData {
    pub prefer_aggregated_proof: Option<bool>,
    pub preferred_block_size: Option<u64>,
}

/// What a job asks the worker to prove; proof inputs are carried by their
/// sizes, the payloads themselves stay with the proof system.
#[derive(Clone, Debug)]
pub enum JobRequestData {
    /// Prove one block of the given circuit size.
    BlockProof(u64),
    /// Combine single proofs, one entry per proof with its block size.
    AggregatedBlockProof(Vec<u64>),
}

/// The server's answer to a job request.
#[derive(Clone, Debug)]
pub struct ProverInputResponse {
    pub job_id: i32,
    pub first_block: u32,
    pub last_block: u32,
    pub data: Option<JobRequestData>,
}

/// The kind of proof a finished job produced.
#[derive(Clone, Copy, Debug, PartialEq, Eq, Structural)]
pub enum JobResultData {
    BlockProof,
    AggregatedBlockProof,
}

/// A finished proof sent back by a worker.
#[derive(Clone, Copy, Debug, PartialEq, Eq, Structural)]
pub struct ProverOutputRequest {
    pub job_id: i32,
    pub first_block: u32,
    pub last_block: u32,
    pub data: JobResultData,
}

/// A heartbeat: the worker is still computing the job.
#[derive(Clone, Debug)]
pub struct WorkingOn {
    pub prover_name: String,
    pub job_id: i32,
}

/// A worker announcing that it stopped.
#[derive(Clone, Debug)]
pub struct ProverStopped {
    pub prover_id: String,
}

/// What the work cycle does next.
#[derive(Clone, Debug)]
pub enum ProverCycleAction {
    /// A shutdown was requested: leave the cycle.
    Shutdown,
    /// No job is available or the fetch failed: poll again later.
    WaitForJob,
    /// Compute the fetched job and publish its proof.
    ComputeProof { job_id: i32, first_block: u32, last_block: u32, data: JobRequestData },
}

/// One decision of the worker's polling cycle: stop when a shutdown was
/// requested; otherwise compute the fetched job if it carries data, and
/// wait for the next poll if it does not or the fetch failed.
pub fn prover_cycle_decision(shutdown_requested: bool, fetched: Option<ProverInputResponse>) -> (r:
    ProverCycleAction)
    ensures
        shutdown_requested ==> r is Shutdown,
        !shutdown_requested && (match fetched {
            Option::Some(resp) => resp.data is Some,
            Option::None => false,
        }) ==> (match (r, fetched) {
            (
                ProverCycleAction::ComputeProof { job_id, first_block, last_block, data: _ },
                Option::Some(resp),
            ) => job_id == resp.job_id && first_block == resp.first_block && last_block
                == resp.last_block,
            _ => false,
        }),
        !shutdown_requested && (match fetched {
            Option::Some(resp) => resp.data is None,
            Option::None => true,
        }) ==> r is WaitForJob,
{
    if shutdown_requested {
        return ProverCycleAction::Shutdown;
    }
    match fetched {
        Option::Some(resp) => match resp.data {
            Option::Some(data) => ProverCycleAction::ComputeProof {
                job_id: resp.job_id,
                first_block: resp.first_block,
                last_block: resp.last_block,
                data,
            },
            Option::None => ProverCycleAction::WaitForJob,
        },
        Option::None => ProverCycleAction::WaitForJob,
    }
}

} // verus!
