use browser_core::canvas::apply_canvas_noise;

#[test]
fn test_canvas_noise_deterministic() {
    let mut data1 = vec![100u8, 150, 200, 255, 50, 75, 100, 255];
    let mut data2 = data1.clone();

    apply_canvas_noise(&mut data1, 42);
    apply_canvas_noise(&mut data2, 42);

    // Same seed → same output
    assert_eq!(data1, data2);
}

#[test]
fn test_canvas_noise_different_seeds() {
    let original = vec![100u8, 150, 200, 255, 50, 75, 100, 255];
    let mut data1 = original.clone();
    let mut data2 = original.clone();

    apply_canvas_noise(&mut data1, 42);
    apply_canvas_noise(&mut data2, 999);

    // Different seeds → different output (probabilistic, but very likely)
    assert_ne!(data1, data2);
}

#[test]
fn test_canvas_noise_preserves_transparency() {
    let mut data = vec![0u8, 0, 0, 255]; // Fully transparent RGB, opaque alpha
    apply_canvas_noise(&mut data, 42);

    // Zero RGB channels should stay zero
    assert_eq!(data[0], 0);
    assert_eq!(data[1], 0);
    assert_eq!(data[2], 0);
    // Alpha untouched
    assert_eq!(data[3], 255);
}

#[test]
fn test_canvas_noise_zero_seed_noop() {
    let original = vec![100u8, 150, 200, 255];
    let mut data = original.clone();
    apply_canvas_noise(&mut data, 0);
    assert_eq!(data, original);
}

#[test]
fn canvas_noise_changes_each_pixel_by_at_most_one() {
    let original: Vec<u8> = (0..64u32).map(|i| (i * 37 % 251) as u8).collect();
    let mut data = original.clone();
    apply_canvas_noise(&mut data, 123_456);
    for px in 0..original.len() / 4 {
        let mut changed = 0;
        for c in 0..4 {
            let a = original[px * 4 + c] as i32;
            let b = data[px * 4 + c] as i32;
            assert!((a - b).abs() <= 1);
            if a != b {
                changed += 1;
                assert!(c < 3, "alpha must not change");
                assert!(a != 0, "zero channels must not change");
            }
        }
        assert!(changed <= 1);
    }
}

#[test]
fn canvas_noise_first_pixel_exact_value() {
    // seed 42: one LCG step gives 1083814273 = 0x4099_B181, bit 0x100 set,
    // bit 0x200 clear, so the first non-zero channel goes down by one.
    let mut data = vec![100u8, 150, 200, 255];
    apply_canvas_noise(&mut data, 42);
    assert_eq!(data, vec![99, 150, 200, 255]);
}
