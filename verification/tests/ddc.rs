use maia_sdr::ddc::{decimation_splits, stage_max_coefficients};

#[test]
fn zero_pack() {
    assert_eq!(
        maia_sdr::ddc::zero_pack::<f64>(&[1.0, 2.0, 3.0], 2),
        vec![1.0, 0.0, 2.0, 0.0, 3.0, 0.0]
    );
}

#[test]
fn zero_pack_integers_factor_three() {
    assert_eq!(maia_sdr::ddc::zero_pack::<i32>(&[7, -1], 3), vec![7, 0, 0, -1, 0, 0]);
    assert_eq!(maia_sdr::ddc::zero_pack::<i32>(&[4, 5], 1), vec![4, 5]);
    assert_eq!(maia_sdr::ddc::zero_pack::<i32>(&[], 4), Vec::<i32>::new());
}

#[test]
fn splits_of_twenty() {
    assert_eq!(
        decimation_splits(20),
        vec![vec![5, 2, 2], vec![5, 4], vec![10, 2], vec![20]]
    );
}

#[test]
fn splits_of_1280_contain_the_three_stage_design() {
    let splits = decimation_splits(1280);
    assert!(splits.contains(&vec![32, 20, 2]));
    for s in &splits {
        assert!(!s.is_empty() && s.len() <= 3);
        assert_eq!(s.iter().product::<usize>(), 1280);
        assert!(s.iter().all(|&f| (2..=127).contains(&f)));
        assert!(s.windows(2).all(|w| w[1] <= w[0]));
    }
    for w in splits.windows(2) {
        let key = |s: &Vec<usize>| (s[0], if s.len() >= 2 { s[1] } else { 1 });
        assert!(key(&w[0]) < key(&w[1]));
    }
}

#[test]
fn splits_of_unrealizable_decimations() {
    assert!(decimation_splits(0).is_empty());
    assert!(decimation_splits(1).is_empty());
    // 131 is prime and larger than the largest decimation of a stage
    assert!(decimation_splits(131).is_empty());
    assert!(decimation_splits(127 * 127 * 127 * 2).is_empty());
    assert_eq!(decimation_splits(2), vec![vec![2]]);
}

#[test]
fn max_coefficients_of_a_stage() {
    // limited by the clock: 3 operations, 2 coefficients each, decimation 20
    assert_eq!(stage_max_coefficients(3, 20, true), 120);
    // limited by the RAM: 128 coefficients rounded down to a multiple of 20
    assert_eq!(stage_max_coefficients(200, 20, false), 120);
    // limited by the RAM of a four-DSP stage
    assert_eq!(stage_max_coefficients(1000, 2, true), 256);
    // limited by the operations register
    assert_eq!(stage_max_coefficients(1000, 1, false), 128);
}
