use http_bridge::geometry::window_size;

#[test]
fn full_hd_screen_at_scale_one() {
    let g = window_size(1920, 1, 1);
    // width = 1920 * 0.8 = 1536, height = 1536 * 9 / 16 = 864
    assert_eq!(g.width_num, 1536 * g.width_den);
    assert_eq!(g.height_num, 864 * g.height_den);
}

#[test]
fn narrow_screen_floors_at_800() {
    let g = window_size(800, 1, 1);
    // 0.8 * 800 = 640 < 800, so the width floors at 800; height = 450
    assert_eq!(g.width_num, 800 * g.width_den);
    assert_eq!(g.height_num, 450 * g.height_den);
}

#[test]
fn high_scale_factor_shrinks_the_logical_width() {
    // scale 2.0: 1920 * 0.8 / 2 = 768 < 800, so the floor applies
    let g = window_size(1920, 2, 1);
    assert_eq!(g.width_num, 800 * g.width_den);
    assert_eq!(g.height_num, 450 * g.height_den);
}

#[test]
fn fractional_scale_is_exact() {
    // scale 1.25 = 5/4: 2560 * 0.8 / 1.25 = 1638.4, above the floor
    let g = window_size(2560, 5, 4);
    // width = 8192/5 exactly: cross-check 5 * width_num == 8192 * width_den
    assert_eq!(5 * g.width_num, 8192 * g.width_den);
    // height = width * 9 / 16 = 921.6 = 4608/5
    assert_eq!(5 * g.height_num, 4608 * g.height_den);
}

#[test]
fn aspect_ratio_is_sixteen_to_nine() {
    let g = window_size(3840, 3, 2);
    // height / width == 9 / 16, as exact rationals
    assert_eq!(g.height_num * g.width_den * 16, g.width_num * g.height_den * 9);
}
