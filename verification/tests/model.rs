use dressed_trajectory_fields::model::{check_conditioned_means, trajectory_dims, ModelError};

#[test]
fn paper_dimensions() {
    assert_eq!(trajectory_dims(8, 30), (31, 248));
    assert_eq!(trajectory_dims(8, 10), (11, 88));
}

#[test]
fn conditioned_means_shape() {
    assert_eq!(check_conditioned_means(&vec![88; 10], 88, 10), Ok(()));
    assert_eq!(
        check_conditioned_means(&vec![88; 9], 88, 10),
        Err(ModelError::ConditionedMeansShape { horizon: 10 })
    );
    let mut lens = vec![248; 10];
    lens[4] = 247;
    assert_eq!(
        check_conditioned_means(&lens, 248, 30),
        Err(ModelError::ConditionedMeansShape { horizon: 30 })
    );
}

use dressed_trajectory_fields::model::{precision_blocks, PrecisionBlock, PrecisionTerm};

fn blk(row_block: usize, col_block: usize, term: PrecisionTerm) -> PrecisionBlock {
    PrecisionBlock { row_block, col_block, term }
}

#[test]
fn precision_pattern_of_two_time_points() {
    assert_eq!(
        precision_blocks(2),
        vec![
            blk(0, 0, PrecisionTerm::InitialPrior),
            blk(0, 0, PrecisionTerm::Observation),
            blk(1, 1, PrecisionTerm::TransitionNoise),
            blk(0, 0, PrecisionTerm::PropagatedNoise),
            blk(0, 1, PrecisionTerm::CouplingAbove),
            blk(1, 0, PrecisionTerm::CouplingBelow),
            blk(1, 1, PrecisionTerm::Observation),
        ]
    );
    assert!(precision_blocks(0).is_empty());
}

#[test]
fn precision_pattern_is_block_tridiagonal() {
    let nt = 31;
    let blocks = precision_blocks(nt);
    assert_eq!(blocks.len(), 2 + 5 * (nt - 1));
    for b in &blocks {
        assert!(b.row_block < nt && b.col_block < nt);
        assert!(b.row_block <= b.col_block + 1 && b.col_block <= b.row_block + 1);
    }
    for t in 1..nt {
        assert!(blocks.contains(&blk(t - 1, t, PrecisionTerm::CouplingAbove)));
        assert!(blocks.contains(&blk(t, t - 1, PrecisionTerm::CouplingBelow)));
    }
}
