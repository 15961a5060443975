//! Structure of the pinned paper model: the stacked trajectory dimensions, the
//! check of the conditioned target means read from the pinned inputs, and the
//! block pattern of the prior precision of the latent linear-Gaussian
//! trajectory.

use vstd::prelude::*;

verus! {

/// Number of conditioned target means pinned per horizon.
pub const N_CONDITIONED_TARGETS: usize = 10;

/// Why the pinned model cannot be loaded.
#[derive(Clone, Copy, Debug, PartialEq, Eq, Structural)]
pub enum ModelError {
    /// The conditioned mean file of this horizon does not hold the pinned
    /// number of targets, each of the stacked trajectory length.
    ConditionedMeansShape { horizon: usize },
}

/// The number of time points `nt = T + 1` and the stacked dimension
/// `n = nt * d` of a trajectory of horizon `T` in a state space of dimension
/// `d`.
pub fn trajectory_dims(d: usize, horizon: usize) -> (dims: (usize, usize))
    requires
        horizon < usize::MAX,
        (horizon + 1) * d <= usize::MAX,
    ensures
        dims.0 == horizon + 1,
        dims.1 == (horizon + 1) * d,
{
    let nt = horizon + 1;
    (nt, nt * d)
}

/// Accepts the conditioned target means of a horizon when there are exactly
/// the pinned number of them and each has the stacked dimension `n`;
/// `lengths` holds the length of each target.
pub fn check_conditioned_means(lengths: &Vec<usize>, n: usize, horizon: usize) -> (res: Result<(), ModelError>)
    ensures
        res is Ok <==> (lengths@.len() == N_CONDITIONED_TARGETS && forall|i: int|
            0 <= i < lengths@.len() ==> #[trigger] lengths@[i] == n),
        res matches Err(e) ==> e == (ModelError::ConditionedMeansShape { horizon }),
{
    if lengths.len() != N_CONDITIONED_TARGETS {
        return Err(ModelError::ConditionedMeansShape { horizon });
    }
    let mut i: usize = 0;
    while i < lengths.len()
        invariant
            i <= lengths@.len(),
            forall|k: int| 0 <= k < i ==> #[trigger] lengths@[k] == n,
        decreases lengths@.len() - i,
    {
        if lengths[i] != n {
            return Err(ModelError::ConditionedMeansShape { horizon });
        }
        i = i + 1;
    }
    Ok(())
}

/// A term of the prior precision of the latent trajectory, placed in one
/// `d` by `d` block.
#[derive(Clone, Copy, Debug, PartialEq, Eq, Structural)]
pub enum PrecisionTerm {
    /// `P0^{-1}`, the initial-state prior.
    InitialPrior,
    /// `Q^{-1}`, the transition noise entering time `t`.
    TransitionNoise,
    /// `A^T Q^{-1} A`, the transition noise seen from time `t - 1`.
    PropagatedNoise,
    /// `-A^T Q^{-1}`, coupling time `t - 1` (rows) to time `t` (columns).
    CouplingAbove,
    /// `-Q^{-1} A`, coupling time `t` (rows) to time `t - 1` (columns).
    CouplingBelow,
    /// `C^T R_y^{-1} C`, the observation at time `t`.
    Observation,
}

/// A term added into the block at time `row_block` (rows) and time
/// `col_block` (columns).
#[derive(Clone, Copy, Debug, PartialEq, Eq, Structural)]
pub struct PrecisionBlock {
    pub row_block: usize,
    pub col_block: usize,
    pub term: PrecisionTerm,
}

/// The terms that time point `t` contributes, in order of assembly.
pub open spec fn time_point_blocks(t: usize) -> Seq<PrecisionBlock> {
    if t == 0 {
        seq![
            PrecisionBlock { row_block: 0, col_block: 0, term: PrecisionTerm::InitialPrior },
            PrecisionBlock { row_block: 0, col_block: 0, term: PrecisionTerm::Observation },
        ]
    } else {
        seq![
            PrecisionBlock { row_block: t, col_block: t, term: PrecisionTerm::TransitionNoise },
            PrecisionBlock {
                row_block: (t - 1) as usize,
                col_block: (t - 1) as usize,
                term: PrecisionTerm::PropagatedNoise,
            },
            PrecisionBlock { row_block: (t - 1) as usize, col_block: t, term: PrecisionTerm::CouplingAbove },
            PrecisionBlock { row_block: t, col_block: (t - 1) as usize, term: PrecisionTerm::CouplingBelow },
            PrecisionBlock { row_block: t, col_block: t, term: PrecisionTerm::Observation },
        ]
    }
}

/// The terms of the prior precision of a trajectory with `nt` time points, in
/// order of assembly: time point after time point.
pub open spec fn precision_blocks_spec(nt: usize) -> Seq<PrecisionBlock>
    decreases nt,
{
    if nt == 0 {
        Seq::empty()
    } else {
        precision_blocks_spec((nt - 1) as usize) + time_point_blocks((nt - 1) as usize)
    }
}

/// The block terms of the prior precision of a trajectory with `nt` time
/// points: the initial prior at the first time point, the transition terms
/// between consecutive time points, and the observation term at every time
/// point.
pub fn precision_blocks(nt: usize) -> (blocks: Vec<PrecisionBlock>)
    ensures
        blocks@ == precision_blocks_spec(nt),
        blocks@.len() == (if nt == 0 { 0 } else { 5 * nt - 3 }),
        nt > 0 ==> blocks@[0] == (PrecisionBlock { row_block: 0, col_block: 0, term: PrecisionTerm::InitialPrior }),
        nt > 0 ==> blocks@[1] == (PrecisionBlock { row_block: 0, col_block: 0, term: PrecisionTerm::Observation }),
        forall|t: usize|
            1 <= t < nt ==> {
                &&& #[trigger] blocks@[5 * t - 3] == (PrecisionBlock {
                    row_block: t,
                    col_block: t,
                    term: PrecisionTerm::TransitionNoise,
                })
                &&& blocks@[5 * t - 2] == (PrecisionBlock {
                    row_block: (t - 1) as usize,
                    col_block: (t - 1) as usize,
                    term: PrecisionTerm::PropagatedNoise,
                })
                &&& blocks@[5 * t - 1] == (PrecisionBlock {
                    row_block: (t - 1) as usize,
                    col_block: t,
                    term: PrecisionTerm::CouplingAbove,
                })
                &&& blocks@[5 * t] == (PrecisionBlock {
                    row_block: t,
                    col_block: (t - 1) as usize,
                    term: PrecisionTerm::CouplingBelow,
                })
                &&& blocks@[5 * t + 1] == (PrecisionBlock {
                    row_block: t,
                    col_block: t,
                    term: PrecisionTerm::Observation,
                })
            },
        forall|k: int|
            0 <= k < blocks@.len() && (#[trigger] blocks@[k]).term == PrecisionTerm::PropagatedNoise
                ==> blocks@[k].row_block + 1 < nt && blocks@[k].col_block == blocks@[k].row_block,
{
    let mut blocks: Vec<PrecisionBlock> = Vec::new();
    let mut tt: usize = 0;
    while tt < nt
        invariant
            tt <= nt,
            blocks@ == precision_blocks_spec(tt),
        decreases nt - tt,
    {
        let ghost before = blocks@;
        if tt == 0 {
            blocks.push(PrecisionBlock { row_block: 0, col_block: 0, term: PrecisionTerm::InitialPrior });
        }
        if tt >= 1 {
            let im = tt - 1;
            blocks.push(PrecisionBlock { row_block: tt, col_block: tt, term: PrecisionTerm::TransitionNoise });
            blocks.push(PrecisionBlock { row_block: im, col_block: im, term: PrecisionTerm::PropagatedNoise });
            blocks.push(PrecisionBlock { row_block: im, col_block: tt, term: PrecisionTerm::CouplingAbove });
            blocks.push(PrecisionBlock { row_block: tt, col_block: im, term: PrecisionTerm::CouplingBelow });
        }
        blocks.push(PrecisionBlock { row_block: tt, col_block: tt, term: PrecisionTerm::Observation });
        proof {
            assert(blocks@ =~= before + time_point_blocks(tt));
        }
        tt = tt + 1;
    }
    proof {
        lemma_precision_blocks_layout(nt);
    }
    blocks
}

/// Where each term of the prior precision stands: the initial prior and the
/// first observation open the list, then every time point `t >= 1` adds, in
/// order, `Q^{-1}` at `(t, t)`, `A^T Q^{-1} A` at `(t - 1, t - 1)`, `-A^T Q^{-1}`
/// at `(t - 1, t)`, `-Q^{-1} A` at `(t, t - 1)` and its observation at
/// `(t, t)`. In particular the propagated noise never lands on the last time
/// point.
pub proof fn lemma_precision_blocks_layout(nt: usize)
    ensures
        ({
            let blocks = precision_blocks_spec(nt);
            &&& blocks.len() == (if nt == 0 { 0 } else { 5 * nt - 3 })
            &&& nt > 0 ==> blocks[0] == (PrecisionBlock {
                row_block: 0,
                col_block: 0,
                term: PrecisionTerm::InitialPrior,
            })
            &&& nt > 0 ==> blocks[1] == (PrecisionBlock {
                row_block: 0,
                col_block: 0,
                term: PrecisionTerm::Observation,
            })
            &&& forall|t: usize|
                1 <= t < nt ==> {
                    &&& #[trigger] blocks[5 * t - 3] == (PrecisionBlock {
                        row_block: t,
                        col_block: t,
                        term: PrecisionTerm::TransitionNoise,
                    })
                    &&& blocks[5 * t - 2] == (PrecisionBlock {
                        row_block: (t - 1) as usize,
                        col_block: (t - 1) as usize,
                        term: PrecisionTerm::PropagatedNoise,
                    })
                    &&& blocks[5 * t - 1] == (PrecisionBlock {
                        row_block: (t - 1) as usize,
                        col_block: t,
                        term: PrecisionTerm::CouplingAbove,
                    })
                    &&& blocks[5 * t] == (PrecisionBlock {
                        row_block: t,
                        col_block: (t - 1) as usize,
                        term: PrecisionTerm::CouplingBelow,
                    })
                    &&& blocks[5 * t + 1] == (PrecisionBlock {
                        row_block: t,
                        col_block: t,
                        term: PrecisionTerm::Observation,
                    })
                }
            &&& forall|k: int|
                0 <= k < blocks.len() && (#[trigger] blocks[k]).term == PrecisionTerm::PropagatedNoise
                    ==> blocks[k].row_block + 1 < nt && blocks[k].col_block == blocks[k].row_block
        }),
    decreases nt,
{
    if nt > 0 {
        lemma_precision_blocks_layout((nt - 1) as usize);
        let prev = precision_blocks_spec((nt - 1) as usize);
        let last = time_point_blocks((nt - 1) as usize);
        let all = precision_blocks_spec(nt);
        assert(all == prev + last);
        let m = (nt - 1) as usize;
        assert forall|t: usize| 1 <= t < nt implies {
            &&& #[trigger] all[5 * t - 3] == (PrecisionBlock {
                row_block: t,
                col_block: t,
                term: PrecisionTerm::TransitionNoise,
            })
            &&& all[5 * t - 2] == (PrecisionBlock {
                row_block: (t - 1) as usize,
                col_block: (t - 1) as usize,
                term: PrecisionTerm::PropagatedNoise,
            })
            &&& all[5 * t - 1] == (PrecisionBlock {
                row_block: (t - 1) as usize,
                col_block: t,
                term: PrecisionTerm::CouplingAbove,
            })
            &&& all[5 * t] == (PrecisionBlock {
                row_block: t,
                col_block: (t - 1) as usize,
                term: PrecisionTerm::CouplingBelow,
            })
            &&& all[5 * t + 1] == (PrecisionBlock {
                row_block: t,
                col_block: t,
                term: PrecisionTerm::Observation,
            })
        } by {
            if t < m {
                assert(prev[5 * t - 3] == all[5 * t - 3]);
                assert(prev[5 * t - 2] == all[5 * t - 2]);
                assert(prev[5 * t - 1] == all[5 * t - 1]);
                assert(prev[5 * t] == all[5 * t]);
                assert(prev[5 * t + 1] == all[5 * t + 1]);
            } else {
                assert(prev.len() == 5 * t - 3);
            }
        }
        assert forall|k: int|
            0 <= k < all.len() && (#[trigger] all[k]).term == PrecisionTerm::PropagatedNoise implies all[k].row_block
            + 1 < nt && all[k].col_block == all[k].row_block by {
            if k < prev.len() {
                assert(all[k] == prev[k]);
            } else {
                assert(all[k] == last[k - prev.len()]);
            }
        }
        if m == 0 {
            assert(all[0] == last[0]);
            assert(all[1] == last[1]);
        } else {
            assert(all[0] == prev[0]);
            assert(all[1] == prev[1]);
        }
    }
}

/// The prior precision is block tridiagonal: every term lies on the diagonal
/// or next to it, within the trajectory.
pub proof fn lemma_precision_is_block_tridiagonal(nt: usize)
    ensures
        forall|k: int|
            0 <= k < precision_blocks_spec(nt).len() ==> {
                let b = #[trigger] precision_blocks_spec(nt)[k];
                &&& b.row_block < nt
                &&& b.col_block < nt
                &&& b.row_block <= b.col_block + 1
                &&& b.col_block <= b.row_block + 1
            },
    decreases nt,
{
    if nt > 0 {
        lemma_precision_is_block_tridiagonal((nt - 1) as usize);
        let prev = precision_blocks_spec((nt - 1) as usize);
        let last = time_point_blocks((nt - 1) as usize);
        assert forall|k: int| 0 <= k < precision_blocks_spec(nt).len() implies {
            let b = #[trigger] precision_blocks_spec(nt)[k];
            &&& b.row_block < nt
            &&& b.col_block < nt
            &&& b.row_block <= b.col_block + 1
            &&& b.col_block <= b.row_block + 1
        } by {
            if k < prev.len() {
                assert(precision_blocks_spec(nt)[k] == prev[k]);
            } else {
                assert(precision_blocks_spec(nt)[k] == last[k - prev.len()]);
            }
        }
    }
}

/// Every time point carries an observation term, and every pair of
/// consecutive time points is coupled in both directions.
pub proof fn lemma_precision_couples_neighbours(nt: usize)
    ensures
        forall|t: usize|
            t < nt ==> #[trigger] precision_blocks_spec(nt).contains(
                PrecisionBlock { row_block: t, col_block: t, term: PrecisionTerm::Observation },
            ),
        forall|t: usize|
            0 < t < nt ==> #[trigger] precision_blocks_spec(nt).contains(
                PrecisionBlock { row_block: (t - 1) as usize, col_block: t, term: PrecisionTerm::CouplingAbove },
            ),
        forall|t: usize|
            0 < t < nt ==> #[trigger] precision_blocks_spec(nt).contains(
                PrecisionBlock { row_block: t, col_block: (t - 1) as usize, term: PrecisionTerm::CouplingBelow },
            ),
    decreases nt,
{
    if nt > 0 {
        lemma_precision_couples_neighbours((nt - 1) as usize);
        let prev = precision_blocks_spec((nt - 1) as usize);
        let last = time_point_blocks((nt - 1) as usize);
        let all = precision_blocks_spec(nt);
        assert(all == prev + last);
        assert forall|x: PrecisionBlock| prev.contains(x) implies all.contains(x) by {
            let k = choose|k: int| 0 <= k < prev.len() && prev[k] == x;
            assert(all[k] == x);
        }
        assert forall|x: PrecisionBlock| last.contains(x) implies all.contains(x) by {
            let k = choose|k: int| 0 <= k < last.len() && last[k] == x;
            assert(all[prev.len() + k] == x);
        }
        assert forall|u: usize| 0 < u < nt implies #[trigger] all.contains(
            PrecisionBlock { row_block: (u - 1) as usize, col_block: u, term: PrecisionTerm::CouplingAbove },
        ) by {
            let above = PrecisionBlock { row_block: (u - 1) as usize, col_block: u, term: PrecisionTerm::CouplingAbove };
            if u < nt - 1 {
                assert(prev.contains(above));
            } else {
                assert(last[2] == above);
                assert(last.contains(above));
            }
        }
        assert forall|u: usize| 0 < u < nt implies #[trigger] all.contains(
            PrecisionBlock { row_block: u, col_block: (u - 1) as usize, term: PrecisionTerm::CouplingBelow },
        ) by {
            let below = PrecisionBlock { row_block: u, col_block: (u - 1) as usize, term: PrecisionTerm::CouplingBelow };
            if u < nt - 1 {
                assert(prev.contains(below));
            } else {
                assert(last[3] == below);
                assert(last.contains(below));
            }
        }
        let t = (nt - 1) as usize;
        if t == 0 {
            assert(last[1] == PrecisionBlock { row_block: 0, col_block: 0, term: PrecisionTerm::Observation });
        } else {
            assert(last[4] == PrecisionBlock {
                row_block: t,
                col_block: t,
                term: PrecisionTerm::Observation,
            });
            assert(last[2] == PrecisionBlock {
                row_block: (t - 1) as usize,
                col_block: t,
                term: PrecisionTerm::CouplingAbove,
            });
            assert(last[3] == PrecisionBlock {
                row_block: t,
                col_block: (t - 1) as usize,
                term: PrecisionTerm::CouplingBelow,
            });
        }
    }
}

} // verus!
