//! Captured RGBA frames and safe cropping.
use vstd::prelude::*;
use crate::geometry::{
    DisplayDescriptor, LogicalRegion, PhysicalRegion, display_wf, physical_spec, region_fits,
    physical_region,
};

verus! {

/// Why a capture or a session operation failed.
#[derive(Debug, Clone, Copy, PartialEq, Eq, Structural)]
pub enum CaptureError {
    NoDisplays,
    CaptureFailed,
    BufferConversionFailed,
    NoActiveSession,
    LockContention,
}

/// A captured image: RGBA bytes, row by row, four bytes per pixel.
#[derive(Debug, Clone)]
pub struct CapturedFrame {
    pub pixels: Vec<u8>,
    pub width: u32,
    pub height: u32,
}

/// The buffer holds exactly four bytes for each pixel of the frame.
pub open spec fn frame_wf(f: CapturedFrame) -> bool {
    f.pixels@.len() == 4 * (f.width as int) * (f.height as int)
}

/// The index of the first byte of row `row` of `r` within a frame `fw` wide.
pub open spec fn row_start(fw: int, r: PhysicalRegion, row: int) -> int {
    ((r.y + row) * fw + r.x) * 4
}

/// The bytes of the first `n` rows of the crop `r` of `src`, a frame `fw` wide.
pub open spec fn crop_rows(src: Seq<u8>, fw: int, r: PhysicalRegion, n: nat) -> Seq<u8>
    decreases n,
{
    if n == 0 {
        Seq::empty()
    } else {
        let s = row_start(fw, r, n - 1);
        crop_rows(src, fw, r, (n - 1) as nat) + src.subrange(s, s + 4 * r.width)
    }
}

/// The pixels of the crop `r` of `f`, row after row.
pub open spec fn cropped_pixels(f: CapturedFrame, r: PhysicalRegion) -> Seq<u8> {
    crop_rows(f.pixels@, f.width as int, r, r.height as nat)
}

proof fn lemma_crop_rows_len(src: Seq<u8>, fw: int, fh: int, r: PhysicalRegion, n: nat)
    requires
        region_fits(r, fw, fh),
        src.len() == 4 * fw * fh,
        n <= r.height,
    ensures
        crop_rows(src, fw, r, n).len() == 4 * (r.width as int) * (n as int),
    decreases n,
{
    if n > 0 {
        lemma_crop_rows_len(src, fw, fh, r, (n - 1) as nat);
        lemma_row_in_frame(fw, fh, r, n - 1);
        assert(4 * (r.width as int) * ((n - 1) as int) + 4 * (r.width as int) == 4 * (r.width as int)
            * (n as int)) by (nonlinear_arith);
    } else {
        assert(4 * (r.width as int) * (n as int) == 0) by (nonlinear_arith)
            requires
                n == 0,
        ;
    }
}

/// A row of a crop that fits in the frame lies inside the frame's buffer.
proof fn lemma_row_in_frame(fw: int, fh: int, r: PhysicalRegion, row: int)
    requires
        region_fits(r, fw, fh),
        0 <= row < r.height,
    ensures
        0 <= (r.y + row) * fw,
        (r.y + row) * fw + r.x + r.width <= fw * fh,
        0 <= row_start(fw, r, row),
        row_start(fw, r, row) + 4 * r.width <= 4 * fw * fh,
{
    let yy = r.y + row;
    assert(yy + 1 <= fh);
    assert(yy * fw + fw <= fh * fw) by (nonlinear_arith)
        requires
            yy + 1 <= fh,
            fw >= 0,
            yy >= 0,
    ;
    assert(0 <= yy * fw) by (nonlinear_arith)
        requires
            fw >= 0,
            yy >= 0,
    ;
    assert(4 * fw * fh == 4 * (fh * fw)) by (nonlinear_arith);
}

impl CapturedFrame {
    /// A frame from a raw RGBA buffer; fails when the buffer does not hold
    /// exactly four bytes per pixel.
    pub fn from_raw(pixels: Vec<u8>, width: u32, height: u32) -> (r: Result<CapturedFrame, CaptureError>)
        ensures
            pixels@.len() == 4 * (width as int) * (height as int) <==> r.is_ok(),
            r matches Ok(f) ==> f.pixels@ == pixels@ && f.width == width && f.height == height
                && frame_wf(f),
            r matches Err(e) ==> e == CaptureError::BufferConversionFailed,
    {
        assert(4 * (width as int) * (height as int) <= 4 * 0xffff_ffff * 0xffff_ffff) by (nonlinear_arith)
            requires
                width <= 0xffff_ffff,
                height <= 0xffff_ffff,
        ;
        let need: u128 = 4 * (width as u128) * (height as u128);
        if pixels.len() as u128 == need {
            Ok(CapturedFrame { pixels, width, height })
        } else {
            Err(CaptureError::BufferConversionFailed)
        }
    }

    /// The sub-image `r`, which must lie inside the frame.
    pub fn crop(&self, r: PhysicalRegion) -> (out: CapturedFrame)
        requires
            frame_wf(*self),
            region_fits(r, self.width as int, self.height as int),
        ensures
            frame_wf(out),
            out.width == r.width,
            out.height == r.height,
            out.pixels@ == cropped_pixels(*self, r),
    {
        let ghost fw = self.width as int;
        let ghost fh = self.height as int;
        let mut out: Vec<u8> = Vec::new();
        let mut row: u32 = 0;
        while row < r.height
            invariant
                frame_wf(*self),
                fw == self.width,
                fh == self.height,
                region_fits(r, fw, fh),
                row <= r.height,
                out@ == crop_rows(self.pixels@, fw, r, row as nat),
            decreases r.height - row,
        {
            proof {
                lemma_row_in_frame(fw, fh, r, row as int);
            }
            let len = self.pixels.len();
            let row_len: usize = 4 * r.width as usize;
            let start: usize = ((r.y as usize + row as usize) * self.width as usize + r.x as usize) * 4;
            let ghost before = out@;
            let mut c: usize = 0;
            while c < row_len
                invariant
                    frame_wf(*self),
                    fw == self.width,
                    fh == self.height,
                    row_len == 4 * r.width,
                    start == row_start(fw, r, row as int),
                    len == self.pixels@.len(),
                    start + row_len <= len,
                    c <= row_len,
                    out@ == before + self.pixels@.subrange(start as int, start + c),
                decreases row_len - c,
            {
                out.push(self.pixels[start + c]);
                c = c + 1;
                assert(out@ =~= before + self.pixels@.subrange(start as int, start + c));
            }
            row = row + 1;
        }
        proof {
            lemma_crop_rows_len(self.pixels@, fw, fh, r, r.height as nat);
        }
        CapturedFrame { pixels: out, width: r.width, height: r.height }
    }
}

/// The frames of every display from their raw RGBA buffers, in display
/// order: `NoDisplays` when there are none, `BufferConversionFailed` when a
/// buffer does not match its dimensions.
pub fn frames_from_raw(raw: Vec<(Vec<u8>, u32, u32)>) -> (r: Result<Vec<CapturedFrame>, CaptureError>)
    ensures
        raw@.len() == 0 ==> r == Err::<Vec<CapturedFrame>, CaptureError>(CaptureError::NoDisplays),
        raw@.len() > 0 ==> (r.is_ok() <==> forall|i: int|
            0 <= i < raw@.len() ==> #[trigger] raw@[i].0@.len() == 4 * (raw@[i].1 as int) * (raw@[i].2 as int)),
        raw@.len() > 0 && r.is_err() ==> r == Err::<Vec<CapturedFrame>, CaptureError>(
            CaptureError::BufferConversionFailed,
        ),
        r matches Ok(fs) ==> fs@.len() == raw@.len() && forall|i: int|
            0 <= i < fs@.len() ==> {
                &&& #[trigger] fs@[i].pixels@ == raw@[i].0@
                &&& fs@[i].width == raw@[i].1
                &&& fs@[i].height == raw@[i].2
                &&& frame_wf(fs@[i])
            },
{
    if raw.len() == 0 {
        return Err(CaptureError::NoDisplays);
    }
    let ghost input = raw@;
    let mut rest = raw;
    let mut frames: Vec<CapturedFrame> = Vec::new();
    let mut i: usize = 0;
    let n = rest.len();
    while i < n
        invariant
            n == input.len(),
            n > 0,
            input == raw@,
            i <= n,
            rest@ == input.subrange(i as int, n as int),
            frames@.len() == i,
            forall|k: int|
                0 <= k < i ==> {
                    &&& #[trigger] frames@[k].pixels@ == input[k].0@
                    &&& frames@[k].width == input[k].1
                    &&& frames@[k].height == input[k].2
                    &&& frame_wf(frames@[k])
                },
            forall|k: int| 0 <= k < i ==> #[trigger] input[k].0@.len() == 4 * (input[k].1 as int) * (input[k].2 as int),
        decreases n - i,
    {
        let ghost before = rest@;
        let (pixels, w, h) = rest.remove(0);
        assert(rest@ =~= input.subrange(i + 1, n as int));
        assert(before[0] == input[i as int]);
        match CapturedFrame::from_raw(pixels, w, h) {
            Ok(f) => frames.push(f),
            Err(e) => {
                assert(input[i as int].0@.len() != 4 * (input[i as int].1 as int) * (input[i as int].2 as int));
                return Err(e);
            },
        }
        i = i + 1;
    }
    Ok(frames)
}

/// The crop of a frame captured from `display` that shows the logical region
/// `region`, with its bounds clamped into the frame.
pub fn crop_logical(display: DisplayDescriptor, frame: &CapturedFrame, region: LogicalRegion) -> (out: CapturedFrame)
    requires
        display_wf(display),
        frame_wf(*frame),
    ensures
        frame_wf(out),
        out.width == physical_spec(region, display, frame.width as int, frame.height as int).width,
        out.height == physical_spec(region, display, frame.width as int, frame.height as int).height,
        out.pixels@ == cropped_pixels(
            *frame,
            physical_spec(region, display, frame.width as int, frame.height as int),
        ),
{
    let p = physical_region(region, display, frame.width, frame.height);
    frame.crop(p)
}

} // verus!
