//! The image transforms of the strategies that the library applies itself:
//! scaling, brightening, inversion, and conversion to luminance.
use vstd::prelude::*;
use crate::frame::{CapturedFrame, frame_wf};
use crate::pipeline::{PreprocessMethod, Strategy, scaled_dimension, scaled_len, strategy_wf};

verus! {

/// How much the brightening filter adds to each colour channel.
pub const BRIGHTEN_AMOUNT: u8 = 30;

/// A colour channel raised by `BRIGHTEN_AMOUNT`, saturating at 255.
pub open spec fn brightened_byte(b: u8) -> u8 {
    if b as int + BRIGHTEN_AMOUNT as int > 255 { 255 } else { (b + BRIGHTEN_AMOUNT) as u8 }
}

/// Whether byte `k` of an RGBA buffer is an alpha channel.
pub open spec fn is_alpha(k: int) -> bool {
    k % 4 == 3
}

/// Every colour channel brightened; alpha kept.
pub open spec fn brightened(px: Seq<u8>) -> Seq<u8> {
    Seq::new(px.len(), |k: int| if is_alpha(k) { px[k] } else { brightened_byte(px[k]) })
}

/// Every colour channel inverted; alpha kept.
pub open spec fn inverted(px: Seq<u8>) -> Seq<u8> {
    Seq::new(px.len(), |k: int| if is_alpha(k) { px[k] } else { (255 - px[k]) as u8 })
}

/// The single-channel luminance image that the image crate derives from an
/// RGBA image of `width` by `height` pixels.
pub uninterp spec fn luma_image(px: Seq<u8>, width: nat, height: nat) -> Seq<u8>;

/// Relies on image's `ImageBuffer::from_raw`, which accepts a buffer of at
/// least four bytes per pixel, and `imageops::resize` with the Lanczos3
/// filter, which returns an image of exactly the requested size.
#[verifier::external_body]
fn resize_lanczos(frame: &CapturedFrame, nwidth: u32, nheight: u32) -> (r: Option<CapturedFrame>)
    requires
        nwidth > 0,
        nheight > 0,
    ensures
        frame_wf(*frame) ==> r.is_some(),
        r matches Some(f) ==> f.width == nwidth && f.height == nheight && frame_wf(f),
{
    image::RgbaImage::from_raw(frame.width, frame.height, frame.pixels.clone()).map(|img| {
        let out = image::imageops::resize(&img, nwidth, nheight, image::imageops::FilterType::Lanczos3);
        CapturedFrame { width: nwidth, height: nheight, pixels: out.into_raw() }
    })
}

/// A copy of a frame.
pub fn copy_frame(frame: &CapturedFrame) -> (r: CapturedFrame)
    ensures
        r.pixels@ == frame.pixels@,
        r.width == frame.width,
        r.height == frame.height,
{
    let mut pixels: Vec<u8> = Vec::new();
    let mut k: usize = 0;
    while k < frame.pixels.len()
        invariant
            k <= frame.pixels@.len(),
            pixels@ == frame.pixels@.subrange(0, k as int),
        decreases frame.pixels@.len() - k,
    {
        pixels.push(frame.pixels[k]);
        k = k + 1;
        assert(pixels@ =~= frame.pixels@.subrange(0, k as int));
    }
    assert(pixels@ =~= frame.pixels@);
    CapturedFrame { pixels, width: frame.width, height: frame.height }
}

/// A scaled length that an image side can have: at least one pixel, and
/// within `u32`.
pub open spec fn side_fits(len: int) -> bool {
    0 < len <= u32::MAX
}

/// The frame scaled by the strategy's factor with Lanczos3 resampling; a copy
/// of the frame when the factor is one, and `None` when a scaled side would
/// have no pixels or more than `u32` can count.
pub fn scale_frame(frame: &CapturedFrame, s: Strategy) -> (r: Option<CapturedFrame>)
    requires
        frame_wf(*frame),
        strategy_wf(s),
    ensures
        s.scale_num == s.scale_den ==> (r matches Some(f) && f.pixels@ == frame.pixels@ && f.width
            == frame.width && f.height == frame.height),
        s.scale_num != s.scale_den ==> (r.is_some() <==> (side_fits(scaled_len(frame.width as int, s))
            && side_fits(scaled_len(frame.height as int, s)))),
        s.scale_num != s.scale_den ==> (r matches Some(f) ==> f.width == scaled_len(frame.width as int, s)
            && f.height == scaled_len(frame.height as int, s)),
        r matches Some(f) ==> frame_wf(f),
{
    if s.scale_num == s.scale_den {
        return Some(copy_frame(frame));
    }
    let nw = scaled_dimension(frame.width, s);
    let nh = scaled_dimension(frame.height, s);
    if nw == 0 || nh == 0 || nw > u32::MAX as u64 || nh > u32::MAX as u64 {
        return None;
    }
    resize_lanczos(frame, nw as u32, nh as u32)
}

/// The frame with every colour channel brightened by `BRIGHTEN_AMOUNT`.
pub fn brighten(frame: &CapturedFrame) -> (r: CapturedFrame)
    ensures
        r.pixels@ == brightened(frame.pixels@),
        r.width == frame.width,
        r.height == frame.height,
{
    let mut pixels: Vec<u8> = Vec::new();
    let mut k: usize = 0;
    while k < frame.pixels.len()
        invariant
            k <= frame.pixels@.len(),
            pixels@ == brightened(frame.pixels@).subrange(0, k as int),
        decreases frame.pixels@.len() - k,
    {
        let b = frame.pixels[k];
        let v: u8 = if k % 4 == 3 { b } else if b > 255 - BRIGHTEN_AMOUNT { 255 } else { b + BRIGHTEN_AMOUNT };
        pixels.push(v);
        k = k + 1;
        assert(pixels@ =~= brightened(frame.pixels@).subrange(0, k as int));
    }
    assert(pixels@ =~= brightened(frame.pixels@));
    CapturedFrame { pixels, width: frame.width, height: frame.height }
}

/// The frame with every colour channel inverted.
pub fn invert(frame: &CapturedFrame) -> (r: CapturedFrame)
    ensures
        r.pixels@ == inverted(frame.pixels@),
        r.width == frame.width,
        r.height == frame.height,
{
    let mut pixels: Vec<u8> = Vec::new();
    let mut k: usize = 0;
    while k < frame.pixels.len()
        invariant
            k <= frame.pixels@.len(),
            pixels@ == inverted(frame.pixels@).subrange(0, k as int),
        decreases frame.pixels@.len() - k,
    {
        let b = frame.pixels[k];
        let v: u8 = if k % 4 == 3 { b } else { 255 - b };
        pixels.push(v);
        k = k + 1;
        assert(pixels@ =~= inverted(frame.pixels@).subrange(0, k as int));
    }
    assert(pixels@ =~= inverted(frame.pixels@));
    CapturedFrame { pixels, width: frame.width, height: frame.height }
}

/// The filter of `method` applied to `frame`, for the filters the library
/// applies itself; `None` for contrast boosting and sharpening, whose
/// floating-point parameters live with the caller.
pub fn apply_filter(frame: &CapturedFrame, method: PreprocessMethod) -> (r: Option<CapturedFrame>)
    ensures
        (method == PreprocessMethod::ContrastBoost || method == PreprocessMethod::Sharpen) <==> r.is_none(),
        r matches Some(f) ==> f.width == frame.width && f.height == frame.height,
        method == PreprocessMethod::Plain ==> (r matches Some(f) && f.pixels@ == frame.pixels@),
        method == PreprocessMethod::Brightness ==> (r matches Some(f) && f.pixels@ == brightened(frame.pixels@)),
        method == PreprocessMethod::Invert ==> (r matches Some(f) && f.pixels@ == inverted(frame.pixels@)),
{
    match method {
        PreprocessMethod::Plain => Some(copy_frame(frame)),
        PreprocessMethod::Brightness => Some(brighten(frame)),
        PreprocessMethod::Invert => Some(invert(frame)),
        PreprocessMethod::ContrastBoost => None,
        PreprocessMethod::Sharpen => None,
    }
}

/// Relies on image's `ImageBuffer::from_raw`, which accepts a buffer of at
/// least four bytes per pixel, and `DynamicImage::to_luma8`, which keeps the
/// image's size and gives one byte per pixel.
#[verifier::external_body]
fn rgba_to_luma(frame: &CapturedFrame) -> (r: Option<Vec<u8>>)
    ensures
        frame_wf(*frame) ==> r.is_some(),
        r matches Some(l) ==> l@ == luma_image(frame.pixels@, frame.width as nat, frame.height as nat)
            && l@.len() == (frame.width as int) * (frame.height as int),
{
    image::RgbaImage::from_raw(frame.width, frame.height, frame.pixels.clone())
        .map(|img| image::DynamicImage::ImageRgba8(img).to_luma8().into_raw())
}

/// The single-channel luminance image of a frame, one byte per pixel.
pub fn to_luma(frame: &CapturedFrame) -> (r: Vec<u8>)
    requires
        frame_wf(*frame),
    ensures
        r@ == luma_image(frame.pixels@, frame.width as nat, frame.height as nat),
        r@.len() == (frame.width as int) * (frame.height as int),
{
    match rgba_to_luma(frame) {
        Some(l) => l,
        None => {
            assert(false);
            Vec::new()
        },
    }
}

/// The width of the image a strategy works on.
pub open spec fn variant_width(frame: CapturedFrame, s: Strategy) -> int {
    if s.scale_num == s.scale_den { frame.width as int } else { scaled_len(frame.width as int, s) }
}

/// The height of the image a strategy works on.
pub open spec fn variant_height(frame: CapturedFrame, s: Strategy) -> int {
    if s.scale_num == s.scale_den { frame.height as int } else { scaled_len(frame.height as int, s) }
}

/// The filters the library applies itself.
pub open spec fn own_filter(method: PreprocessMethod) -> bool {
    method == PreprocessMethod::Plain || method == PreprocessMethod::Brightness || method
        == PreprocessMethod::Invert
}

/// The pixels after one of the library's own filters.
pub open spec fn filtered(method: PreprocessMethod, px: Seq<u8>) -> Seq<u8> {
    match method {
        PreprocessMethod::Brightness => brightened(px),
        PreprocessMethod::Invert => inverted(px),
        _ => px,
    }
}

/// The image a strategy produces from a frame.
pub enum Variant {
    /// Scaled and filtered, ready for detection.
    Ready(CapturedFrame),
    /// Scaled, awaiting a filter with floating-point parameters (contrast
    /// boosting or sharpening) from the caller.
    NeedsFilter(CapturedFrame),
    /// Scaling left no pixels, or more than an image side can hold: nothing
    /// to detect.
    Empty,
}

/// Scales `frame` by the strategy's factor and applies its filter where the
/// library applies that filter itself.
pub fn render_strategy(frame: &CapturedFrame, s: Strategy) -> (r: Variant)
    requires
        frame_wf(*frame),
        strategy_wf(s),
    ensures
        r is Empty <==> (s.scale_num != s.scale_den && !(side_fits(variant_width(*frame, s)) && side_fits(
            variant_height(*frame, s),
        ))),
        r is NeedsFilter ==> !own_filter(s.method),
        r is Ready ==> own_filter(s.method),
        r matches Variant::Ready(f) ==> frame_wf(f) && f.width == variant_width(*frame, s) && f.height
            == variant_height(*frame, s),
        r matches Variant::NeedsFilter(f) ==> frame_wf(f) && f.width == variant_width(*frame, s)
            && f.height == variant_height(*frame, s),
        s.scale_num == s.scale_den ==> (r matches Variant::Ready(f) ==> f.pixels@ == filtered(
            s.method,
            frame.pixels@,
        )),
        s.scale_num == s.scale_den ==> (r matches Variant::NeedsFilter(f) ==> f.pixels@ == frame.pixels@),
{
    match scale_frame(frame, s) {
        None => Variant::Empty,
        Some(scaled) => {
            match apply_filter(&scaled, s.method) {
                Some(f) => Variant::Ready(f),
                None => Variant::NeedsFilter(scaled),
            }
        },
    }
}

} // verus!
