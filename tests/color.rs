use mosaic::{rgb2hls, Hls, Ratio, Sample};

fn sample(r: u8, g: u8, b: u8) -> Sample {
    Sample { r, g, b }
}

fn equals(x: Ratio, num: u64, den: u64) -> bool {
    x.num as u64 * den == num * x.den as u64
}

fn as_f64(x: Ratio) -> f64 {
    x.num as f64 / x.den as f64
}

#[test]
fn grey_has_no_hue_or_saturation() {
    for v in [0u8, 1, 17, 128, 200, 254, 255] {
        let h = rgb2hls(sample(v, v, v));
        assert_eq!(h.hue.num, 0);
        assert_eq!(h.saturation.num, 0);
        assert!(equals(h.lightness, v as u64, 255));
    }
}

#[test]
fn pure_red() {
    let h = rgb2hls(sample(255, 0, 0));
    assert!(equals(h.hue, 0, 1));
    assert!(equals(h.lightness, 1, 2));
    assert!(equals(h.saturation, 1, 1));
}

#[test]
fn pure_green() {
    let h = rgb2hls(sample(0, 255, 0));
    assert!(equals(h.hue, 1, 3));
    assert!(equals(h.lightness, 1, 2));
    assert!(equals(h.saturation, 1, 1));
}

#[test]
fn pure_blue() {
    let h = rgb2hls(sample(0, 0, 255));
    assert!(equals(h.hue, 2, 3));
    assert!(equals(h.lightness, 1, 2));
    assert!(equals(h.saturation, 1, 1));
}

#[test]
fn black() {
    let h = rgb2hls(sample(0, 0, 0));
    assert!(equals(h.hue, 0, 1));
    assert!(equals(h.lightness, 0, 1));
    assert!(equals(h.saturation, 0, 1));
}

#[test]
fn white() {
    let h = rgb2hls(sample(255, 255, 255));
    assert!(equals(h.hue, 0, 1));
    assert!(equals(h.lightness, 1, 1));
    assert!(equals(h.saturation, 0, 1));
}

#[test]
fn red_sector_below_zero_wraps_by_one_turn() {
    // magenta-leaning red: hue -1/12 of a turn, wrapped to 11/12
    let h = rgb2hls(sample(255, 0, 128));
    let expected = 1.0 - (128.0 / 255.0) / 6.0;
    assert!((as_f64(h.hue) - expected).abs() < 1e-12);
    assert!(equals(h.hue, 6 * 255 - 128, 6 * 255));
}

#[test]
fn dark_and_light_saturation_formulas() {
    // lightness below one half: chroma over max + min
    let dark = rgb2hls(sample(100, 50, 50));
    assert!(equals(dark.saturation, 50, 150));
    assert!(equals(dark.lightness, 150, 510));
    // lightness above one half: chroma over 2 - max - min
    let light = rgb2hls(sample(250, 200, 200));
    assert!(equals(light.saturation, 50, 510 - 450));
    assert!(equals(light.lightness, 450, 510));
}

#[test]
fn yellow_cyan_magenta() {
    assert!(equals(rgb2hls(sample(255, 255, 0)).hue, 1, 6));
    assert!(equals(rgb2hls(sample(0, 255, 255)).hue, 1, 2));
    assert!(equals(rgb2hls(sample(255, 0, 255)).hue, 5, 6));
}

#[test]
fn results_are_proper_fractions() {
    for r in (0..=255u8).step_by(17) {
        for g in (0..=255u8).step_by(51) {
            for b in (0..=255u8).step_by(85) {
                let h: Hls = rgb2hls(sample(r, g, b));
                assert!(h.hue.den > 0 && h.hue.num < h.hue.den);
                assert!(h.lightness.den > 0 && h.lightness.num <= h.lightness.den);
                assert!(h.saturation.den > 0 && h.saturation.num <= h.saturation.den);
            }
        }
    }
}
