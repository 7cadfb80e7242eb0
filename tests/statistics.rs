use aux_firmware::statistics::StatsAccumulator;

#[test]
fn empty_accumulator() {
    let s = StatsAccumulator::new();
    assert_eq!(s.count(), 0);
    assert_eq!(s.min(), None);
    assert_eq!(s.max(), None);
    assert_eq!(s.scaled_variance(), None);
}

#[test]
fn running_values() {
    let mut s = StatsAccumulator::new();
    for v in [4u32, 7, 13, 16] {
        s.add(v);
    }
    assert_eq!(s.count(), 4);
    assert_eq!(s.sum(), 40);
    assert_eq!(s.sum_of_squares(), 16 + 49 + 169 + 256);
    assert_eq!(s.min(), Some(4));
    assert_eq!(s.max(), Some(16));
    // sample variance 30, times n(n-1) = 12
    assert_eq!(s.scaled_variance(), Some(360));
}

#[test]
fn single_sample_has_no_variance() {
    let mut s = StatsAccumulator::new();
    s.add(u32::MAX);
    assert_eq!(s.min(), Some(u32::MAX));
    assert_eq!(s.max(), Some(u32::MAX));
    assert_eq!(s.scaled_variance(), None);
}
