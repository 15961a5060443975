use dressed_trajectory_fields::seeds::{
    banded_matrix_seed, baseline_sample_seed, covariance_budget_seed, mean_budget_seed, solve_rhs_seed,
    MASTER_SEED, N_RUNS,
};

#[test]
fn seed_schedule_values() {
    assert_eq!(MASTER_SEED, 20260924);
    assert_eq!(N_RUNS, 10);
    assert_eq!(banded_matrix_seed(2, 3), 20280927);
    assert_eq!(solve_rhs_seed(1, 4), 20310928);
    assert_eq!(baseline_sample_seed(3, 5), 21163929);
    assert_eq!(mean_budget_seed(7), 20960931);
    assert_eq!(covariance_budget_seed(7), 21070931);
}

#[test]
fn baseline_seeds_are_distinct_over_the_grid() {
    let mut seen = std::collections::BTreeSet::new();
    for run in 0..N_RUNS {
        for j in 0..8 {
            assert!(seen.insert(baseline_sample_seed(run, j)));
        }
    }
    for run in 0..N_RUNS {
        assert!(seen.insert(mean_budget_seed(run)));
        assert!(seen.insert(covariance_budget_seed(run)));
    }
}

#[test]
fn timing_seed_streams_are_each_injective() {
    let mut matrix = std::collections::BTreeSet::new();
    let mut rhs = std::collections::BTreeSet::new();
    for it in 0..6 {
        for rep in 0..N_RUNS {
            assert!(matrix.insert(banded_matrix_seed(it, rep)));
            assert!(rhs.insert(solve_rhs_seed(it, rep)));
        }
    }
    // The first horizon draws its matrix and its right-hand side from the same seed.
    assert_eq!(banded_matrix_seed(0, 3), solve_rhs_seed(0, 3));
}
