use hsv2rgb::hsv::Color;

#[test]
fn new_color_is_black() {
    let c = Color::new();
    assert_eq!(c.to_rgb_array(), [0, 0, 0]);
}

#[test]
fn zero_saturation_gives_gray_level_v() {
    for h in [0u8, 1, 84, 85, 127, 170, 200, 254, 255] {
        for v in [0u8, 1, 100, 153, 200, 255] {
            let mut c = Color::new();
            c.hsv2rgb(h, 0, v);
            assert_eq!(c.to_rgb_array(), [v, v, v]);
        }
    }
}

#[test]
fn channels_always_in_byte_range() {
    let mut c = Color::new();
    for h in 0u16..=255 {
        for s in [0u8, 1, 127, 128, 254, 255] {
            for v in [0u8, 1, 127, 128, 254, 255] {
                c.hsv2rgb(h as u8, s, v);
                let [r, g, b] = c.to_rgb_array();
                assert!(u16::from(r) <= 255);
                assert!(u16::from(g) <= 255);
                assert!(u16::from(b) <= 255);
            }
        }
    }
}

#[test]
fn sector_zero_boundary_is_pure_red() {
    let mut c = Color::new();
    c.hsv2rgb(0, 255, 255);
    assert_eq!(c.to_rgb_array(), [255, 0, 0]);
}

#[test]
fn mid_range_hue_lands_in_sector_two() {
    // h = 127 reduces to 127, sector index 2, in-sector fraction 252/255.
    // Green stays at full value; red is scaled by 1 - s; blue is scaled by
    // 1 - s*(1 - f) = 252/255, so 255 * 252 / 255 = 252 exactly.
    let mut c = Color::new();
    c.hsv2rgb(127, 255, 255);
    assert_eq!(c.to_rgb_array(), [0, 255, 252]);
}

#[test]
fn sector_corners_give_pure_primaries() {
    let mut c = Color::new();
    c.hsv2rgb(85, 255, 255);
    assert_eq!(c.to_rgb_array(), [0, 255, 0]);
    c.hsv2rgb(170, 255, 255);
    assert_eq!(c.to_rgb_array(), [0, 0, 255]);
}

#[test]
fn repeated_conversion_is_identical() {
    let mut c1 = Color::new();
    let mut c2 = Color::new();
    for (h, s, v) in [(0u8, 255u8, 255u8), (127, 255, 255), (30, 200, 250), (212, 200, 180)] {
        c1.hsv2rgb(h, s, v);
        let first = c1.to_rgb_array();
        c1.hsv2rgb(h, s, v);
        assert_eq!(c1.to_rgb_array(), first);
        // A converter with a different history gives the same answer too.
        c2.hsv2rgb(h, s, v);
        assert_eq!(c2.to_rgb_array(), first);
    }
}

#[test]
fn hue_255_wraps_to_hue_0_but_254_does_not() {
    let mut a = Color::new();
    let mut b = Color::new();
    for s in [1u8, 128, 255] {
        for v in [1u8, 128, 255] {
            a.hsv2rgb(255, s, v);
            b.hsv2rgb(0, s, v);
            assert_eq!(a.to_rgb_array(), b.to_rgb_array());
        }
    }
    a.hsv2rgb(254, 255, 255);
    b.hsv2rgb(0, 255, 255);
    assert_ne!(a.to_rgb_array(), b.to_rgb_array());
    assert_eq!(a.to_rgb_array(), [255, 0, 6]);
}

#[test]
fn full_hue_cycle_repeats_exactly() {
    let mut c = Color::new();
    let mut first_cycle = Vec::new();
    for h in 0u16..=255 {
        c.hsv2rgb(h as u8, 255, 255);
        first_cycle.push(c.to_rgb_array());
    }
    for h in 0u16..=255 {
        c.hsv2rgb(h as u8, 255, 255);
        assert_eq!(c.to_rgb_array(), first_cycle[h as usize]);
    }
}

#[test]
fn channel_order_is_red_green_blue() {
    // An input whose three channels all differ pins the output order.
    let mut c = Color::new();
    c.hsv2rgb(212, 200, 180);
    assert_eq!(c.to_rgb_array(), [178, 38, 180]);
    c.hsv2rgb(30, 200, 250);
    assert_eq!(c.to_rgb_array(), [250, 192, 53]);
    c.hsv2rgb(100, 128, 64);
    assert_eq!(c.to_rgb_array(), [31, 64, 43]);
}
