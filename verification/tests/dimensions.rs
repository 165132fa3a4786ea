use image_compress::dimensions::{
    proxy_dimensions, scale_estimate, target_dimensions, PROXY_SIZE,
};

#[test]
fn landscape_photo_is_limited_by_its_height_cap() {
    assert_eq!(target_dimensions(4000, 3000, Some(1920), Some(1080)), (1440, 1080));
}

#[test]
fn portrait_photo_is_limited_by_its_width_cap() {
    assert_eq!(target_dimensions(3000, 4000, Some(1080), Some(1920)), (1080, 1440));
}

#[test]
fn image_within_both_caps_keeps_its_size() {
    assert_eq!(target_dimensions(800, 600, Some(1920), Some(1080)), (800, 600));
    assert_eq!(target_dimensions(1920, 1080, Some(1920), Some(1080)), (1920, 1080));
    assert_eq!(target_dimensions(1, 1, Some(1), Some(1)), (1, 1));
}

#[test]
fn absent_caps_leave_any_image_alone() {
    assert_eq!(target_dimensions(4000, 3000, None, None), (4000, 3000));
    assert_eq!(target_dimensions(u32::MAX, u32::MAX, None, None), (u32::MAX, u32::MAX));
}

#[test]
fn a_single_cap_scales_the_other_axis() {
    assert_eq!(target_dimensions(1000, 500, Some(500), None), (500, 250));
    assert_eq!(target_dimensions(1000, 500, None, Some(100)), (200, 100));
}

#[test]
fn the_free_axis_is_rounded_to_the_nearest_pixel() {
    // 667 * 500 / 1000 = 333.5, which rounds up.
    assert_eq!(target_dimensions(1000, 667, Some(500), None), (500, 334));
    // 333 * 500 / 1000 = 166.5 -> 167; 332 * 500 / 1000 = 166.
    assert_eq!(target_dimensions(1000, 333, Some(500), None), (500, 167));
    assert_eq!(target_dimensions(1000, 332, Some(500), None), (500, 166));
    // 100 * 2 / 3 = 66.67 -> 67.
    assert_eq!(target_dimensions(3, 100, Some(2), None), (2, 67));
}

#[test]
fn no_axis_shrinks_below_one_pixel() {
    assert_eq!(target_dimensions(1000, 1, Some(100), None), (100, 1));
    assert_eq!(target_dimensions(1, 1000, None, Some(10)), (1, 10));
    assert_eq!(target_dimensions(5000, 2, Some(10), Some(10)), (10, 1));
}

#[test]
fn a_cap_of_zero_gives_one_pixel() {
    assert_eq!(target_dimensions(100, 50, Some(0), None), (1, 1));
    assert_eq!(target_dimensions(100, 50, None, Some(0)), (1, 1));
    assert_eq!(target_dimensions(100, 50, Some(0), Some(0)), (1, 1));
}

#[test]
fn an_empty_image_is_left_alone() {
    assert_eq!(target_dimensions(0, 50, Some(10), Some(10)), (0, 50));
    assert_eq!(target_dimensions(50, 0, Some(10), Some(10)), (50, 0));
    assert_eq!(target_dimensions(0, 0, Some(10), Some(10)), (0, 0));
}

#[test]
fn extreme_dimensions_do_not_overflow() {
    assert_eq!(target_dimensions(u32::MAX, u32::MAX, Some(1), Some(1)), (1, 1));
    assert_eq!(target_dimensions(u32::MAX, 1, Some(u32::MAX - 1), None), (u32::MAX - 1, 1));
    assert_eq!(
        target_dimensions(u32::MAX, u32::MAX, Some(u32::MAX - 1), None),
        (u32::MAX - 1, u32::MAX - 1)
    );
}

#[test]
fn resized_images_respect_caps_and_aspect_ratio() {
    let sizes: [u32; 9] = [1, 2, 3, 7, 100, 255, 256, 1000, 4001];
    let caps: [u32; 7] = [1, 2, 5, 64, 256, 999, 5000];
    for &w in sizes.iter() {
        for &h in sizes.iter() {
            for &cw in caps.iter() {
                for &ch in caps.iter() {
                    let (tw, th) = target_dimensions(w, h, Some(cw), Some(ch));
                    if w <= cw && h <= ch {
                        assert_eq!((tw, th), (w, h));
                        continue;
                    }
                    assert!(tw >= 1 && th >= 1);
                    assert!(tw <= cw && th <= ch, "{w}x{h} under {cw}x{ch} gave {tw}x{th}");
                    assert!(tw <= w && th <= h);
                    let (w, h, tw, th) = (w as i128, h as i128, tw as i128, th as i128);
                    let (cw, ch) = (cw as i128, ch as i128);
                    let by_width = tw == cw && (th * w - h * cw).abs() <= w;
                    let by_height = th == ch && (tw * h - w * ch).abs() <= h;
                    assert!(by_width || by_height, "{w}x{h} under {cw}x{ch} gave {tw}x{th}");
                }
            }
        }
    }
}

#[test]
fn the_proxy_fills_the_tighter_axis_of_its_box() {
    assert_eq!(proxy_dimensions(4000, 3000, None, None), (256, 192));
    assert_eq!(proxy_dimensions(3000, 4000, None, None), (192, 256));
    assert_eq!(proxy_dimensions(300, 10, None, None), (256, 9));
    assert_eq!(proxy_dimensions(100_000, 3, None, None), (256, 1));
}

#[test]
fn wide_targets_are_measured_on_a_proxy() {
    assert_eq!(PROXY_SIZE, 256);
    assert_eq!(proxy_dimensions(4000, 3000, None, None), (256, 192));
    assert_eq!(proxy_dimensions(4000, 3000, Some(1920), Some(1080)), (256, 192));
    assert_eq!(proxy_dimensions(257, 100, None, None), (256, 100));
}

#[test]
fn narrow_targets_are_their_own_proxy() {
    assert_eq!(proxy_dimensions(256, 100, None, None), (256, 100));
    assert_eq!(proxy_dimensions(200, 5000, None, None), (200, 5000));
    assert_eq!(proxy_dimensions(4000, 3000, Some(200), None), (200, 150));
    assert_eq!(proxy_dimensions(4000, 3000, Some(256), None), (256, 192));
}

#[test]
fn estimate_scales_with_the_area_ratio() {
    // 1440 * 1080 / (256 * 192) = 31.640625
    assert_eq!(scale_estimate(1000, (1440, 1080), (256, 192)), 31640);
    assert_eq!(scale_estimate(1, (1440, 1080), (256, 192)), 31);
    assert_eq!(scale_estimate(0, (1440, 1080), (256, 192)), 0);
    assert_eq!(scale_estimate(12345, (4000, 3000), (256, 192)), 12345 * 12_000_000 / 49_152);
}

#[test]
fn estimate_at_the_target_size_is_the_measured_size() {
    assert_eq!(scale_estimate(777, (200, 150), (200, 150)), 777);
    assert_eq!(scale_estimate(u64::MAX, (1, 1), (1, 1)), u64::MAX);
}

#[test]
fn estimate_saturates_instead_of_overflowing() {
    assert_eq!(scale_estimate(u64::MAX, (u32::MAX, u32::MAX), (1, 1)), u64::MAX);
    assert_eq!(scale_estimate(u64::MAX / 2, (2, 2), (1, 1)), u64::MAX);
}

#[test]
fn estimate_with_an_empty_proxy_is_the_measured_size() {
    assert_eq!(scale_estimate(500, (100, 100), (0, 10)), 500);
}
