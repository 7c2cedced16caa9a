use ascii::{get_lightness, rgb_to_hsl, symbol};
use std::time::SystemTime;

const CHARS: [char; 14] = [
    ' ', '.', ':', '-', '~', '=', '+', '*', 'o', '%', '&', '8', '#', '@',
];

fn palette_index(c: char) -> usize {
    CHARS.iter().position(|&p| p == c).unwrap()
}

#[test]
fn convert_speed() {
    let times = 100;
    let from = 0;
    let to = 100;

    let count = times as u64 * to as u64 * to as u64 * to as u64;

    let started_hsl = SystemTime::now();
    for _ in 0..times {
        for r in from..to {
            for g in from..to {
                for b in from..to {
                    let _ = rgb_to_hsl(r, g, b);
                }
            }
        }
    }
    println!("for {count} convertions");
    println!(
        "rgb to hsl: {}ms",
        SystemTime::now()
            .duration_since(started_hsl)
            .unwrap()
            .as_millis()
    );
    let started_l = SystemTime::now();
    for _ in 0..times {
        for r in from..to {
            for g in from..to {
                for b in from..to {
                    let _ = get_lightness(r, g, b);
                }
            }
        }
    }
    println!(
        "rgb to l: {}ms",
        SystemTime::now()
            .duration_since(started_l)
            .unwrap()
            .as_millis()
    );
}

#[test]
fn black_pixel_is_blank() {
    assert_eq!(get_lightness(0, 0, 0), 0);
    assert_eq!(symbol(0), ' ');
    assert_eq!(symbol(get_lightness(0, 0, 0)), CHARS[0]);
}

#[test]
fn white_pixel_is_densest() {
    assert_eq!(get_lightness(255, 255, 255), 100);
    assert_eq!(symbol(100), '@');
    assert_eq!(symbol(get_lightness(255, 255, 255)), CHARS[CHARS.len() - 1]);
}

#[test]
fn lightness_monotonic_in_channel_sum() {
    // lightness grows with max+min: walk grey levels, which realize every sum.
    let mut last = 0u8;
    for v in 0..=255u8 {
        let l = get_lightness(v, v, v);
        assert!(l >= last);
        last = l;
    }
    assert_eq!(last, 100);
}

#[test]
fn lightness_examples() {
    assert_eq!(get_lightness(255, 0, 0), 50);
    assert_eq!(get_lightness(128, 128, 0), 25);
    assert_eq!(get_lightness(1, 2, 3), 1);
}

#[test]
fn symbol_monotonic_step_function() {
    for l1 in 0..=100u8 {
        for l2 in l1..=100u8 {
            assert!(palette_index(symbol(l1)) <= palette_index(symbol(l2)));
        }
    }
    // deterministic: same input, same glyph
    assert_eq!(symbol(47), symbol(47));
    // the step thresholds: one glyph per 8 lightness points
    assert_eq!(symbol(7), ' ');
    assert_eq!(symbol(8), '.');
    assert_eq!(symbol(50), '+');
    assert_eq!(symbol(96), '#');
    assert_eq!(symbol(99), '#');
}

#[test]
fn rgb_to_hsl_examples() {
    assert_eq!(rgb_to_hsl(24, 98, 118), (193, 66, 28));
    assert_eq!(rgb_to_hsl(207, 135, 135), (0, 43, 67));
    assert_eq!(rgb_to_hsl(128, 128, 0), (60, 100, 25));
    assert_eq!(rgb_to_hsl(255, 35, 175), (322, 100, 57));
    assert_eq!(rgb_to_hsl(255, 85, 85), (0, 100, 67));
}

#[test]
fn rgb_to_hsl_grey_has_no_hue() {
    for v in [0u8, 1, 127, 254, 255] {
        let (h, s, l) = rgb_to_hsl(v, v, v);
        assert_eq!(h, 0);
        assert_eq!(s, 0);
        assert_eq!(l, get_lightness(v, v, v));
    }
}

#[test]
fn rgb_to_hsl_lightness_matches_get_lightness() {
    for r in (0..=255u8).step_by(17) {
        for g in (0..=255u8).step_by(17) {
            for b in (0..=255u8).step_by(17) {
                assert_eq!(rgb_to_hsl(r, g, b).2, get_lightness(r, g, b));
            }
        }
    }
}
