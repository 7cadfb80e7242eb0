use aux_firmware::seed::seed;

#[test]
fn seed_packs_low_nibbles() {
    assert_eq!(seed(&[]), 0);
    assert_eq!(seed(&[0x1a3, 0xff4, 0x005]), 0x345);
}

#[test]
fn seed_keeps_last_sixteen_nibbles() {
    let samples: Vec<u16> = (0..17u16).collect();
    assert_eq!(seed(&samples), 0x1234_5678_9abc_def0);
    let fifteen: Vec<u16> = vec![0xf; 15];
    assert_eq!(seed(&fifteen), 0x0fff_ffff_ffff_ffff);
}
