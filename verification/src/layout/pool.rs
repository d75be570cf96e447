//! How many threads the kernels run on.

use vstd::prelude::*;

verus! {

/// The variable that leaves the choice of threads to the global pool.
pub const RAYON_THREADS_ENV: &'static str = "RAYON_NUM_THREADS";

/// The physical cores of the machine, by `num_cpus::get_physical`. What it counts
/// depends on the machine; its documentation says that it is at least one.
#[verifier::external_body]
fn physical_cores() -> (r: usize)
    ensures
        r >= 1,
{
    num_cpus::get_physical()
}

/// The threads of the pool that all detectors share: one per physical core, as
/// far as the process may run on them. There is no such pool where the user has set
/// the number of threads, or the machine lacks the kernels.
pub fn pool_threads(user_set: bool, available: bool, physical: usize, allowed: usize) -> (r: Option<
    usize,
>)
    ensures
        r == (if user_set || !available {
            None
        } else if physical < allowed {
            Some(physical)
        } else {
            Some(allowed)
        }),
{
    if user_set || !available {
        None
    } else if physical < allowed {
        Some(physical)
    } else {
        Some(allowed)
    }
}

/// The threads of the shared pool on this machine.
pub fn shared_pool_threads(user_set: bool, available: bool, allowed: usize) -> (r: Option<usize>)
    ensures
        r is None <==> user_set || !available,
        r matches Some(n) ==> n <= allowed && (allowed >= 1 ==> n >= 1),
{
    pool_threads(user_set, available, physical_cores(), allowed)
}

/// The threads of a detector's own pool: at least one. Off the CPU there is none.
pub fn own_pool_threads(on_cpu: bool, threads: usize) -> (r: Option<usize>)
    ensures
        r == (if !on_cpu {
            None
        } else if threads >= 1 {
            Some(threads)
        } else {
            Some(1usize)
        }),
{
    if !on_cpu {
        None
    } else if threads >= 1 {
        Some(threads)
    } else {
        Some(1)
    }
}

} // verus!
