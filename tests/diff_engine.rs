use img_diff::{subtract_and_prevent_overflow, subtract_image, RgbaImage};

fn image(width: u32, height: u32, pixels: Vec<u8>) -> RgbaImage {
    RgbaImage::from_raw(width, height, pixels).unwrap()
}

fn percent(difference: u128, maximum: u128) -> f64 {
    if maximum == 0 {
        0.0
    } else {
        (difference as f64 * 100.0) / maximum as f64
    }
}

#[test]
fn absolute_difference_never_wraps() {
    assert_eq!(subtract_and_prevent_overflow(10, 3), 7);
    assert_eq!(subtract_and_prevent_overflow(3, 10), 7);
    assert_eq!(subtract_and_prevent_overflow(0, 255), 255);
    assert_eq!(subtract_and_prevent_overflow(255, 0), 255);
    assert_eq!(subtract_and_prevent_overflow(42, 42), 0);
}

#[test]
fn from_raw_checks_the_buffer_length() {
    assert!(RgbaImage::from_raw(2, 1, vec![0; 8]).is_some());
    assert!(RgbaImage::from_raw(2, 1, vec![0; 7]).is_none());
    assert!(RgbaImage::from_raw(2, 1, vec![0; 9]).is_none());
    assert!(RgbaImage::from_raw(0, 5, vec![]).is_some());
}

#[test]
fn score_follows_the_formula() {
    let a = image(1, 1, vec![10, 20, 30, 255]);
    let b = image(1, 1, vec![20, 20, 0, 255]);
    let (score, diff) = subtract_image(&a, &b);
    assert_eq!(score.difference, 40);
    assert_eq!(score.maximum, 325);
    assert_eq!(diff.pixels, vec![245, 255, 225, 255]);
    assert_eq!((diff.width, diff.height), (1, 1));
    assert_eq!(percent(score.difference, score.maximum), 4000.0 / 325.0);
}

#[test]
fn identical_images_score_zero() {
    let a = image(2, 2, (0..16).map(|i| (i * 13) as u8).collect());
    let (score, diff) = subtract_image(&a, &a.clone());
    assert_eq!(score.difference, 0);
    assert!(score.is_zero());
    assert_eq!(diff.pixels, vec![255; 16]);
}

#[test]
fn swapping_inputs_keeps_score_and_rendering() {
    let a = image(2, 1, vec![0, 50, 100, 255, 7, 8, 9, 10]);
    let b = image(2, 1, vec![255, 40, 100, 0, 9, 7, 200, 10]);
    let (s1, d1) = subtract_image(&a, &b);
    let (s2, d2) = subtract_image(&b, &a);
    assert_eq!(s1, s2);
    assert_eq!(d1.pixels, d2.pixels);
}

#[test]
fn score_stays_within_percent_range() {
    let a = image(2, 2, vec![0, 255, 0, 255, 255, 0, 255, 0, 1, 2, 3, 4, 200, 100, 50, 25]);
    let b = image(2, 2, vec![255, 0, 255, 0, 0, 0, 0, 0, 4, 3, 2, 1, 0, 0, 0, 0]);
    let (score, _) = subtract_image(&a, &b);
    assert!(score.difference <= score.maximum);
    let p = percent(score.difference, score.maximum);
    assert!((0.0..=100.0).contains(&p));
    assert_eq!(score.difference, 255 * 6 + 3 + 1 + 1 + 3 + 375);
    assert_eq!(score.maximum, 255 * 6 + 4 + 3 + 3 + 4 + 375);
}

#[test]
fn all_black_images_have_zero_score() {
    let a = image(3, 1, vec![0; 12]);
    let (score, diff) = subtract_image(&a, &a.clone());
    assert_eq!(score.maximum, 0);
    assert_eq!(score.difference, 0);
    assert_eq!(percent(score.difference, score.maximum), 0.0);
    assert_eq!(diff.pixels, vec![255; 12]);
}

#[test]
fn opaque_black_rectangle_on_white_scores_analytically() {
    // 4x4 opaque white, with a 2x2 opaque black rectangle in the destination
    let white = image(4, 4, vec![255; 64]);
    let mut pixels = vec![255u8; 64];
    for (x, y) in [(1usize, 1usize), (2, 1), (1, 2), (2, 2)] {
        let at = 4 * (y * 4 + x);
        pixels[at] = 0;
        pixels[at + 1] = 0;
        pixels[at + 2] = 0;
    }
    let marked = image(4, 4, pixels);
    let (score, diff) = subtract_image(&white, &marked);
    // three channels differ by 255 over area A = 4, against 4 channels of 255 over T = 16
    assert_eq!(score.difference, 3 * 255 * 4);
    assert_eq!(score.maximum, 4 * 255 * 16);
    assert_eq!(percent(score.difference, score.maximum), 18.75);
    assert_eq!(&diff.pixels[4 * 5..4 * 5 + 4], &[0, 0, 0, 255]);
    assert_eq!(&diff.pixels[0..4], &[255, 255, 255, 255]);
}

#[test]
fn same_dimensions_compares_width_and_height() {
    let a = image(2, 3, vec![0; 24]);
    let b = image(3, 2, vec![0; 24]);
    assert!(!a.same_dimensions(&b));
    assert!(a.same_dimensions(&a.clone()));
}
