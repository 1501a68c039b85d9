//! The interactive selection session: one captured frame held between
//! "begin selection" and "complete" or "cancel", with its preview.
use vstd::prelude::*;
use vstd::string::StringExecFns;
use crate::frame::{CaptureError, CapturedFrame, cropped_pixels, frame_wf};
use crate::geometry::{DisplayDescriptor, LogicalRegion, display_wf, physical_region, physical_spec};

verus! {

#[verifier::external_type_specification]
#[verifier::external_body]
pub struct ExImageError(image::ImageError);

/// The PNG encoding that the image crate produces for an RGBA frame.
pub uninterp spec fn png_of(pixels: Seq<u8>, width: nat, height: nat) -> Seq<u8>;

/// Standard base64 (RFC 4648 alphabet, with padding) of a byte string.
pub uninterp spec fn base64_standard(data: Seq<u8>) -> Seq<char>;

/// Relies on image's `PngEncoder::new` and `ImageEncoder::write_image`: the
/// frame encoded as an 8-bit RGBA PNG, written to a fresh buffer. The PNG
/// encoder refuses only an image with no rows or no columns, and writing to
/// a `Vec` does not fail.
#[verifier::external_body]
fn encode_png(frame: &CapturedFrame) -> (r: Result<Vec<u8>, image::ImageError>)
    requires
        frame_wf(*frame),
    ensures
        frame.width > 0 && frame.height > 0 ==> r.is_ok(),
        r matches Ok(b) ==> b@ == png_of(frame.pixels@, frame.width as nat, frame.height as nat),
{
    let mut out: Vec<u8> = Vec::new();
    let encoder = image::codecs::png::PngEncoder::new(&mut out);
    image::ImageEncoder::write_image(encoder, &frame.pixels, frame.width, frame.height, image::ExtendedColorType::Rgba8)
        .map(|_| out)
}

/// Relies on base64's `Engine::encode` with the `STANDARD` engine: four
/// characters for each started group of three bytes, padded.
#[verifier::external_body]
fn base64_encode(data: &Vec<u8>) -> (r: String)
    requires
        data@.len() <= usize::MAX / 2,
    ensures
        r@ == base64_standard(data@),
        r@.len() == 4 * ((data@.len() + 2) / 3),
{
    base64::Engine::encode(&base64::engine::general_purpose::STANDARD, data)
}

/// A data URL carrying base64-encoded PNG bytes.
pub open spec fn data_url_spec(png: Seq<u8>) -> Seq<char> {
    "data:image/png;base64,"@ + base64_standard(png)
}

/// A frame whose PNG encoding succeeds and is small enough to turn into a
/// base64 data URL.
pub open spec fn encodable(f: CapturedFrame) -> bool {
    f.width > 0 && f.height > 0 && png_of(f.pixels@, f.width as nat, f.height as nat).len() <= usize::MAX / 2
}

/// The preview of a frame: its PNG encoding as a data URL.
pub open spec fn preview_spec(f: CapturedFrame) -> Seq<char> {
    data_url_spec(png_of(f.pixels@, f.width as nat, f.height as nat))
}

/// The data URL of the PNG bytes `png`.
pub fn png_data_url(png: &Vec<u8>) -> (r: String)
    requires
        png@.len() <= usize::MAX / 2,
    ensures
        r@ == data_url_spec(png@),
{
    let mut s = "data:image/png;base64,".to_owned();
    let b64 = base64_encode(png);
    s.append(b64.as_str());
    s
}

/// The frame encoded as PNG, or `BufferConversionFailed` when the encoder
/// reports an error.
pub fn image_to_png_bytes(frame: &CapturedFrame) -> (r: Result<Vec<u8>, CaptureError>)
    requires
        frame_wf(*frame),
    ensures
        frame.width > 0 && frame.height > 0 ==> r.is_ok(),
        r matches Ok(b) ==> b@ == png_of(frame.pixels@, frame.width as nat, frame.height as nat),
        r matches Err(e) ==> e == CaptureError::BufferConversionFailed,
{
    match encode_png(frame) {
        Ok(png) => Ok(png),
        Err(_) => Err(CaptureError::BufferConversionFailed),
    }
}

/// The preview of a frame, or `BufferConversionFailed` when it cannot be
/// encoded.
pub fn frame_preview(frame: &CapturedFrame) -> (r: Result<String, CaptureError>)
    requires
        frame_wf(*frame),
    ensures
        encodable(*frame) ==> r.is_ok(),
        r matches Ok(s) ==> s@ == preview_spec(*frame),
        r matches Err(e) ==> e == CaptureError::BufferConversionFailed,
{
    let png = image_to_png_bytes(frame)?;
    if png.len() <= usize::MAX / 2 {
        Ok(png_data_url(&png))
    } else {
        Err(CaptureError::BufferConversionFailed)
    }
}

/// The frame held for an interactive selection and its preview. At most one
/// frame is held: beginning a new selection replaces the previous one.
pub struct CaptureSession {
    frame: Option<CapturedFrame>,
    display: DisplayDescriptor,
    preview: Option<String>,
}

impl CaptureSession {
    /// The frame held, if a selection is active.
    pub closed spec fn held(&self) -> Option<CapturedFrame> {
        self.frame
    }

    /// The display the held frame was captured from.
    pub closed spec fn display(&self) -> DisplayDescriptor {
        self.display
    }

    /// The preview held, if a selection is active.
    pub closed spec fn preview_view(&self) -> Option<Seq<char>> {
        match self.preview {
            Some(p) => Some(p@),
            None => None,
        }
    }

    pub open spec fn wf(&self) -> bool {
        match self.held() {
            Some(f) => frame_wf(f) && display_wf(self.display()) && self.preview_view() == Some(preview_spec(f)),
            None => self.preview_view().is_none(),
        }
    }

    /// A session with no selection active.
    pub fn new() -> (r: CaptureSession)
        ensures
            r.wf(),
            r.held().is_none(),
    {
        CaptureSession { frame: None, display: DisplayDescriptor { x: 0, y: 0, width: 1, height: 1 }, preview: None }
    }

    /// Whether a selection is active.
    pub fn is_active(&self) -> (r: bool)
        ensures
            r == self.held().is_some(),
    {
        self.frame.is_some()
    }

    /// Begins a selection on `frame`, captured from `display`, replacing any
    /// active one. When the preview cannot be encoded the session is left as
    /// it was.
    pub fn begin(&mut self, frame: CapturedFrame, display: DisplayDescriptor) -> (r: Result<(), CaptureError>)
        requires
            old(self).wf(),
            frame_wf(frame),
            display_wf(display),
        ensures
            final(self).wf(),
            encodable(frame) ==> r.is_ok(),
            r.is_ok() ==> final(self).held() == Some(frame) && final(self).display() == display,
            r matches Err(e) ==> e == CaptureError::BufferConversionFailed && final(self).held() == old(
                self,
            ).held() && final(self).display() == old(self).display() && final(self).preview_view() == old(
                self,
            ).preview_view(),
    {
        match frame_preview(&frame) {
            Ok(p) => {
                self.frame = Some(frame);
                self.display = display;
                self.preview = Some(p);
                Ok(())
            },
            Err(e) => Err(e),
        }
    }

    /// The preview of the active selection.
    pub fn preview(&self) -> (r: Result<String, CaptureError>)
        requires
            self.wf(),
        ensures
            self.held().is_none() <==> r.is_err(),
            r matches Err(e) ==> e == CaptureError::NoActiveSession,
            r matches Ok(s) ==> Some(s@) == self.preview_view() && s@ == preview_spec(self.held().unwrap()),
    {
        match &self.preview {
            Some(p) => Ok(p.clone()),
            None => Err(CaptureError::NoActiveSession),
        }
    }

    /// Ends the active selection and returns the crop of its frame that shows
    /// the logical region `region`, clamped into the frame.
    pub fn complete(&mut self, region: LogicalRegion) -> (r: Result<CapturedFrame, CaptureError>)
        requires
            old(self).wf(),
        ensures
            final(self).wf(),
            final(self).held().is_none(),
            old(self).held().is_none() <==> r.is_err(),
            r matches Err(e) ==> e == CaptureError::NoActiveSession,
            r matches Ok(f) ==> ({
                let src = old(self).held().unwrap();
                let p = physical_spec(region, old(self).display(), src.width as int, src.height as int);
                &&& frame_wf(f)
                &&& f.width == p.width
                &&& f.height == p.height
                &&& f.pixels@ == cropped_pixels(src, p)
            }),
    {
        let taken = self.frame.take();
        self.preview = None;
        match taken {
            Some(src) => {
                let p = physical_region(region, self.display, src.width, src.height);
                Ok(src.crop(p))
            },
            None => Err(CaptureError::NoActiveSession),
        }
    }

    /// Ends the active selection, if any, without decoding it.
    pub fn cancel(&mut self)
        ensures
            final(self).wf(),
            final(self).held().is_none(),
    {
        self.frame = None;
        self.preview = None;
    }
}

} // verus!
