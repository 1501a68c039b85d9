use qr_region_scan::filters::{apply_filter, brighten, invert, render_strategy, scale_frame, to_luma, Variant};
use qr_region_scan::frame::CapturedFrame;
use qr_region_scan::pipeline::{strategy_at, DecodeRun, PreprocessMethod};

fn two_pixels() -> CapturedFrame {
    CapturedFrame::from_raw(vec![10, 240, 0, 128, 255, 100, 225, 7], 2, 1).unwrap()
}

#[test]
fn brighten_saturates_colour_and_keeps_alpha() {
    let b = brighten(&two_pixels());
    assert_eq!(b.pixels, vec![40, 255, 30, 128, 255, 130, 255, 7]);
    assert_eq!((b.width, b.height), (2, 1));
}

#[test]
fn invert_flips_colour_and_keeps_alpha() {
    let i = invert(&two_pixels());
    assert_eq!(i.pixels, vec![245, 15, 255, 128, 0, 155, 30, 7]);
}

#[test]
fn luma_has_one_byte_per_pixel() {
    let f = CapturedFrame::from_raw(vec![255, 255, 255, 255, 0, 0, 0, 255, 255, 255, 255, 255], 3, 1).unwrap();
    assert_eq!(to_luma(&f), vec![255, 0, 255]);
    let g = CapturedFrame::from_raw(vec![0; 4 * 6], 2, 3).unwrap();
    assert_eq!(to_luma(&g), vec![0; 6]);
}

#[test]
fn own_filters_apply_and_float_filters_are_left_out() {
    let f = two_pixels();
    assert_eq!(apply_filter(&f, PreprocessMethod::Plain).unwrap().pixels, f.pixels);
    assert!(apply_filter(&f, PreprocessMethod::ContrastBoost).is_none());
    assert!(apply_filter(&f, PreprocessMethod::Sharpen).is_none());
}

#[test]
fn scaling_changes_dimensions() {
    let f = CapturedFrame::from_raw(vec![200; 4 * 10 * 6], 10, 6).unwrap();
    let doubled = scale_frame(&f, strategy_at(3)).unwrap();
    assert_eq!((doubled.width, doubled.height), (20, 12));
    assert_eq!(doubled.pixels.len(), 4 * 20 * 12);
    let halved = scale_frame(&f, strategy_at(6)).unwrap();
    assert_eq!((halved.width, halved.height), (5, 3));
    let one = CapturedFrame::from_raw(vec![1; 4], 1, 1).unwrap();
    assert!(scale_frame(&one, strategy_at(6)).is_none());
    let same = scale_frame(&f, strategy_at(0)).unwrap();
    assert_eq!(same.pixels, f.pixels);
}

#[test]
fn rendering_follows_the_catalogue() {
    let f = two_pixels();
    match render_strategy(&f, strategy_at(2)) {
        Variant::Ready(v) => assert_eq!(v.pixels, brighten(&f).pixels),
        _ => panic!("brightening is applied by the library"),
    }
    match render_strategy(&f, strategy_at(1)) {
        Variant::NeedsFilter(v) => assert_eq!(v.pixels, f.pixels),
        _ => panic!("contrast boosting is left to the caller"),
    }
    assert!(matches!(render_strategy(&f, strategy_at(6)), Variant::Empty));
}

#[test]
fn zero_width_frame_scans_to_nothing() {
    let empty = CapturedFrame::from_raw(Vec::new(), 0, 10).unwrap();
    let mut run = DecodeRun::new();
    while let Some(s) = run.next_strategy() {
        match render_strategy(&empty, s) {
            Variant::Ready(v) | Variant::NeedsFilter(v) => run.scan_frame(&v),
            Variant::Empty => run.skip(),
        }
    }
    assert!(run.into_results().is_empty());
}
