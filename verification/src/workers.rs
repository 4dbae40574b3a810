//! How many workers a pool gets.

use vstd::prelude::*;

verus! {

/// The fewest workers a pool gets.
pub const MIN_WORKERS: usize = 4;

/// The most workers a pool gets.
pub const MAX_WORKERS: usize = 64;

/// How many workers a processor is good for.
pub const WORKERS_PER_CPU: usize = 8;

/// The most workers for a number of processors: eight for each, and no
/// more than sixty-four. No processors count as one.
pub open spec fn worker_ceiling(cpus: nat) -> nat {
    let per_cpu = (if cpus == 0 {
        1
    } else {
        cpus
    }) * WORKERS_PER_CPU as nat;
    if per_cpu < MAX_WORKERS {
        per_cpu
    } else {
        MAX_WORKERS as nat
    }
}

/// The number of workers for a number of tasks: one for each task, but no
/// fewer than four and no more than the ceiling.
pub open spec fn worker_count(task_count: nat, cpus: nat) -> nat {
    if task_count < MIN_WORKERS {
        MIN_WORKERS as nat
    } else if task_count > worker_ceiling(cpus) {
        worker_ceiling(cpus)
    } else {
        task_count
    }
}

/// Sizes a pool for `task_count` tasks on a machine with `cpus`
/// processors.
pub fn calculate_worker_count(task_count: usize, cpus: usize) -> (n: usize)
    ensures
        n == worker_count(task_count as nat, cpus as nat),
        MIN_WORKERS <= n <= MAX_WORKERS,
{
    let c: usize = if cpus == 0 {
        1
    } else {
        cpus
    };
    let ceiling: usize = if c >= MAX_WORKERS / WORKERS_PER_CPU {
        MAX_WORKERS
    } else {
        c * WORKERS_PER_CPU
    };
    if task_count < MIN_WORKERS {
        MIN_WORKERS
    } else if task_count > ceiling {
        ceiling
    } else {
        task_count
    }
}

} // verus!
