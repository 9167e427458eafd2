use image_editor_core::brush::{brush_hash, paint_pixel, erase_pixel};

fn reference_hash(seed: u64) -> u64 {
    let x = seed.wrapping_mul(6364136223846793005).wrapping_add(1442695040888963407);
    let x = x ^ (x >> 33);
    let x = x.wrapping_mul(0xff51afd7ed558ccd);
    let x = x ^ (x >> 33);
    let x = x.wrapping_mul(0xc4ceb9fe1a85ec53);
    let x = x ^ (x >> 33);
    x >> 11
}

#[test]
fn brush_hash_matches_the_mixing_steps() {
    for seed in [0u64, 1, 2, 3, 0xDEAD, 0xBEEF0011, u64::MAX, 123456789] {
        assert_eq!(brush_hash(seed), reference_hash(seed));
        assert!(brush_hash(seed) < (1u64 << 53));
    }
}

#[test]
fn brush_hash_spreads_neighbouring_seeds() {
    assert_ne!(brush_hash(1), brush_hash(2));
    assert_ne!(brush_hash(0), 0);
}

#[test]
fn full_paint_replaces_colour() {
    assert_eq!(paint_pixel([10, 20, 30, 0], [200, 100, 50], 255, 255), [200, 100, 50, 255]);
}

#[test]
fn zero_strength_paint_keeps_pixel() {
    assert_eq!(paint_pixel([10, 20, 30, 40], [200, 100, 50], 255, 0), [10, 20, 30, 40]);
}

#[test]
fn half_paint_mixes() {
    // bf = 255*128/255 = 128, ba = 127
    // r = (200*128 + 0*127)/255 = 100; a = 128 + 255*127/255 = 255
    assert_eq!(paint_pixel([0, 0, 0, 255], [200, 100, 50], 255, 128), [100, 50, 25, 255]);
    // over transparent: a = 128 + 0 = 128
    assert_eq!(paint_pixel([0, 0, 0, 0], [200, 100, 50], 255, 128), [100, 50, 25, 128]);
}

#[test]
fn eraser_lowers_coverage_only() {
    assert_eq!(erase_pixel([1, 2, 3, 200], 50), [1, 2, 3, 150]);
    assert_eq!(erase_pixel([1, 2, 3, 20], 50), [1, 2, 3, 0]);
}
