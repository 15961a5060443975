use dressed_trajectory_fields::band::{band_width, lower_band_fill_order};

#[test]
fn band_width_values() {
    assert_eq!(band_width(8, 3), 31);
    assert_eq!(band_width(2, 1), 3);
    assert_eq!(band_width(1, 0), 0);
}

#[test]
fn fill_order_small_case() {
    // Two time blocks of two coordinates, coupling range 1.
    let p = lower_band_fill_order(1, 2, 1);
    assert_eq!(p, vec![(1, 0), (3, 2), (2, 0), (2, 1), (3, 0), (3, 1)]);
}

#[test]
fn fill_order_range_zero_is_within_blocks() {
    let p = lower_band_fill_order(2, 2, 0);
    assert_eq!(p, vec![(1, 0), (3, 2), (5, 4)]);
}

#[test]
fn fill_order_covers_band_once() {
    let (t, d, range) = (5usize, 3usize, 2usize);
    let p = lower_band_fill_order(t, d, range);
    let n = (t + 1) * d;
    let bw = band_width(d, range);
    let mut expected = 0;
    for i in 0..n {
        for j in 0..i {
            if i / d - j / d <= range {
                expected += 1;
                assert!(p.contains(&(i, j)));
            }
        }
    }
    assert_eq!(p.len(), expected);
    for &(i, j) in &p {
        assert!(j < i && i - j <= bw);
    }
}
