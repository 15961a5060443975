//! The deterministic seed schedule of the Monte Carlo and timing experiments.
//! Every random stream is a ChaCha20 generator seeded with the master seed of
//! the paper plus an offset that identifies the experiment, run and grid point.

use vstd::prelude::*;

verus! {

/// Master seed of the paper.
pub const MASTER_SEED: u64 = 20260924;

/// Number of conditioned targets (runs) of every experiment.
pub const N_RUNS: usize = 10;

/// Seed of the random banded SPD matrix of the timing experiment, for the
/// `horizon_index`-th horizon and the `repeat`-th repetition.
pub fn banded_matrix_seed(horizon_index: usize, repeat: usize) -> (seed: u64)
    requires
        MASTER_SEED + 10000 * horizon_index + repeat <= u64::MAX,
    ensures
        seed == MASTER_SEED + 10000 * horizon_index + repeat,
{
    MASTER_SEED + 10000 * (horizon_index as u64) + (repeat as u64)
}

/// Seed of the right-hand side of the timing experiment, for the
/// `horizon_index`-th horizon and the `repeat`-th repetition.
pub fn solve_rhs_seed(horizon_index: usize, repeat: usize) -> (seed: u64)
    requires
        MASTER_SEED + 50000 * horizon_index + repeat <= u64::MAX,
    ensures
        seed == MASTER_SEED + 50000 * horizon_index + repeat,
{
    MASTER_SEED + 50000 * (horizon_index as u64) + (repeat as u64)
}

/// Seed of the oracle samples of the baseline comparison, for run `run` and the
/// `grid_index`-th point of the baseline epsilon grid.
pub fn baseline_sample_seed(run: usize, grid_index: usize) -> (seed: u64)
    requires
        MASTER_SEED + 900000 + 1000 * run + grid_index <= u64::MAX,
    ensures
        seed == MASTER_SEED + 900000 + 1000 * run + grid_index,
{
    MASTER_SEED + 900000 + 1000 * (run as u64) + (grid_index as u64)
}

/// Seed of the samples behind the finite-sample mean error curve of run `run`.
pub fn mean_budget_seed(run: usize) -> (seed: u64)
    requires
        MASTER_SEED + 700000 + run <= u64::MAX,
    ensures
        seed == MASTER_SEED + 700000 + run,
{
    MASTER_SEED + 700000 + (run as u64)
}

/// Seed of the samples behind the finite-sample covariance error curve of run
/// `run`.
pub fn covariance_budget_seed(run: usize) -> (seed: u64)
    requires
        MASTER_SEED + 810000 + run <= u64::MAX,
    ensures
        seed == MASTER_SEED + 810000 + run,
{
    MASTER_SEED + 810000 + (run as u64)
}

proof fn lemma_offsets_injective(stride: int, a1: int, b1: int, a2: int, b2: int)
    requires
        stride > 0,
        0 <= a1,
        0 <= a2,
        0 <= b1 < stride,
        0 <= b2 < stride,
        stride * a1 + b1 == stride * a2 + b2,
    ensures
        a1 == a2,
        b1 == b2,
{
    assert(stride * a1 == a1 * stride) by (nonlinear_arith);
    assert(stride * a2 == a2 * stride) by (nonlinear_arith);
    vstd::arithmetic::div_mod::lemma_fundamental_div_mod_converse(a1 * stride + b1, stride, a1, b1);
    vstd::arithmetic::div_mod::lemma_fundamental_div_mod_converse(a2 * stride + b2, stride, a2, b2);
}

/// Distinct (run, grid point) pairs of the baseline comparison draw their
/// oracle samples from distinct seeds, as long as the grid has fewer than
/// 1000 points.
pub proof fn lemma_baseline_seeds_distinct(run1: nat, grid1: nat, run2: nat, grid2: nat)
    requires
        grid1 < 1000,
        grid2 < 1000,
        run1 != run2 || grid1 != grid2,
    ensures
        MASTER_SEED + 900000 + 1000 * run1 + grid1 != MASTER_SEED + 900000 + 1000 * run2 + grid2,
{
    if 1000 * run1 + grid1 == 1000 * run2 + grid2 {
        lemma_offsets_injective(1000, run1 as int, grid1 as int, run2 as int, grid2 as int);
    }
}

/// Distinct (horizon, repetition) pairs of the timing experiment get distinct
/// matrix seeds, and distinct right-hand-side seeds, as long as the
/// repetitions stay below the stride of each stream.
pub proof fn lemma_timing_seeds_distinct(it1: nat, rep1: nat, it2: nat, rep2: nat)
    requires
        it1 != it2 || rep1 != rep2,
    ensures
        rep1 < 10000 && rep2 < 10000 ==> MASTER_SEED + 10000 * it1 + rep1 != MASTER_SEED + 10000 * it2 + rep2,
        rep1 < 50000 && rep2 < 50000 ==> MASTER_SEED + 50000 * it1 + rep1 != MASTER_SEED + 50000 * it2 + rep2,
{
    if rep1 < 10000 && rep2 < 10000 && 10000 * it1 + rep1 == 10000 * it2 + rep2 {
        lemma_offsets_injective(10000, it1 as int, rep1 as int, it2 as int, rep2 as int);
    }
    if rep1 < 50000 && rep2 < 50000 && 50000 * it1 + rep1 == 50000 * it2 + rep2 {
        lemma_offsets_injective(50000, it1 as int, rep1 as int, it2 as int, rep2 as int);
    }
}

/// The two sampling-budget streams and the baseline oracle stream never share
/// a seed: the mean curves use offsets below 810000, the covariance curves
/// offsets in [810000, 900000), and the baseline samples offsets from 900000 on.
pub proof fn lemma_sampling_streams_disjoint(run_mean: nat, run_cov: nat, run_base: nat, grid: nat)
    requires
        run_mean < 110000,
        run_cov < 90000,
    ensures
        MASTER_SEED + 700000 + run_mean != MASTER_SEED + 810000 + run_cov,
        MASTER_SEED + 700000 + run_mean != MASTER_SEED + 900000 + 1000 * run_base + grid,
        MASTER_SEED + 810000 + run_cov != MASTER_SEED + 900000 + 1000 * run_base + grid,
{
}

} // verus!
