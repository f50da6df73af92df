//! Sizing of the worker pool that runs hydrostatic computations.
use vstd::prelude::*;

verus! {

/// Number of CPUs the process may use, as `num_cpus::get` reports it.
///
/// The value depends on the machine and its control groups; the crate
/// documents that it is always at least one, and the contract claims no more.
#[verifier::external_body]
fn available_cpus() -> (cpus: usize)
    ensures
        cpus >= 1,
{
    num_cpus::get()
}

/// Workers for a machine of `cpus` CPUs: one CPU is left to the rest of the
/// service, and there are never fewer than two workers.
pub open spec fn worker_threads_for(cpus: nat) -> nat {
    if cpus >= 3 {
        (cpus - 1) as nat
    } else {
        2
    }
}

/// Workers for a machine of `cpus` CPUs.
pub fn worker_thread_count(cpus: usize) -> (workers: usize)
    ensures
        workers == worker_threads_for(cpus as nat),
{
    let spare = cpus.saturating_sub(1);
    if spare > 2 {
        spare
    } else {
        2
    }
}

/// Sizing leaves one CPU to the rest of the service once there are at least
/// three, never gives fewer than two workers, and never gives fewer workers
/// to a machine with more CPUs.
pub proof fn law_workers_follow_cpus(cpus: nat, more_cpus: nat)
    requires
        cpus <= more_cpus,
    ensures
        worker_threads_for(cpus) >= 2,
        cpus >= 3 ==> worker_threads_for(cpus) + 1 == cpus,
        cpus <= 3 ==> worker_threads_for(cpus) == 2,
        worker_threads_for(cpus) + 1 >= cpus,
        worker_threads_for(cpus) <= worker_threads_for(more_cpus),
{
}

/// Workers for the machine this runs on.
pub fn pool_thread_count() -> (workers: usize)
    ensures
        workers >= 2,
{
    worker_thread_count(available_cpus())
}

} // verus!
