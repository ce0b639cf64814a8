use vstd::prelude::*;
use crate::config::Config;
use crate::winpath::{join_path, join_path_exec};
use crate::error::{result_view, Error, ErrorView};
use crate::geometry::{
    clamp_rect_to_monitor, rect_to_capture_rect, spec_clamp_rect_to_monitor,
    spec_rect_to_capture_rect, CaptureRect, Rect,
};
use crate::naming::{build_file_name, opt_str_view, spec_file_name_at, spec_file_pattern, strftime_pattern_valid, LocalTimestamp};
use crate::pixels::{bgra_to_rgba, bytes_to_u16_le, spec_bgra_to_rgba, spec_bytes_to_u16_le};

verus! {

/// The three ways a screenshot can be taken.
#[derive(Debug, Clone, Copy, PartialEq, Eq, Structural)]
pub enum CaptureKind {
    FullScreen,
    CurrentWindow,
    SquareRegion,
}

/// The label of a capture kind as it appears in file names (`{Mode}`).
pub open spec fn spec_kind_label(kind: CaptureKind) -> Seq<char> {
    match kind {
        CaptureKind::FullScreen => "fullscreen"@,
        CaptureKind::CurrentWindow => "app"@,
        CaptureKind::SquareRegion => "region"@,
    }
}

/// The name of a capture kind as shown in the notification.
pub open spec fn spec_kind_notification_label(kind: CaptureKind) -> Seq<char> {
    match kind {
        CaptureKind::FullScreen => "全屏"@,
        CaptureKind::CurrentWindow => "应用"@,
        CaptureKind::SquareRegion => "区域"@,
    }
}

impl CaptureKind {
    /// The name of this capture kind shown in the notification.
    pub fn notification_label(self) -> (s: &'static str)
        ensures
            s@ == spec_kind_notification_label(self),
    {
        match self {
            CaptureKind::FullScreen => "全屏",
            CaptureKind::CurrentWindow => "应用",
            CaptureKind::SquareRegion => "区域",
        }
    }

    /// The file-name label of this capture kind.
    pub fn label(self) -> (s: &'static str)
        ensures
            s@ == spec_kind_label(self),
    {
        match self {
            CaptureKind::FullScreen => "fullscreen",
            CaptureKind::CurrentWindow => "app",
            CaptureKind::SquareRegion => "region",
        }
    }
}

/// Pixel layout a monitor is captured in.
#[derive(Debug, Clone, Copy, PartialEq, Eq, Structural)]
pub enum ColorFormat {
    /// 8-bit RGBA.
    Rgba8,
    /// Half-float RGBA (scRGB), for HDR monitors.
    Rgba16F,
    /// 8-bit BGRA.
    Bgra8,
}

/// The layout a monitor is captured in: half-float on an HDR monitor, else 8-bit RGBA.
pub fn capture_color_format(is_hdr: bool) -> (f: ColorFormat)
    ensures
        f == (if is_hdr { ColorFormat::Rgba16F } else { ColorFormat::Rgba8 }),
{
    if is_hdr {
        ColorFormat::Rgba16F
    } else {
        ColorFormat::Rgba8
    }
}

/// A frame as it comes from the capture session.
#[allow(inconsistent_fields)]
pub enum CapturedFrame {
    Rgba8 { width: u32, height: u32, pixels: Vec<u8> },
    Rgba16Float { width: u32, height: u32, pixels: Vec<u16> },
}

/// A frame turned into the image that is saved.
#[allow(inconsistent_fields)]
pub enum CapturedImage {
    /// An SDR image: 8-bit RGBA, at least `4 * width * height` bytes.
    SdrRgba8 { width: u32, height: u32, pixels: Vec<u8> },
    /// An HDR image: half-float RGBA.
    HdrRgba16Float { width: u32, height: u32, pixels: Vec<u16> },
}

impl CapturedImage {
    pub open spec fn spec_is_hdr(&self) -> bool {
        self is HdrRgba16Float
    }

    /// Whether the image is an HDR one.
    pub fn is_hdr(&self) -> (b: bool)
        ensures
            b == self.spec_is_hdr(),
    {
        match self {
            CapturedImage::HdrRgba16Float { .. } => true,
            CapturedImage::SdrRgba8 { .. } => false,
        }
    }

    /// The file extension of the image: AVIF for HDR, PNG for SDR.
    pub open spec fn spec_extension(&self) -> Seq<char> {
        if self.spec_is_hdr() {
            ".avif"@
        } else {
            ".png"@
        }
    }

    /// The file extension of the image.
    pub fn extension(&self) -> (e: &'static str)
        ensures
            e@ == self.spec_extension(),
    {
        if self.is_hdr() {
            ".avif"
        } else {
            ".png"
        }
    }
}

/// Whether `image::ImageBuffer::<Rgba<u8>, Vec<u8>>::from_raw` accepts a
/// buffer of `len` bytes for a `width` by `height` image: four channels times
/// the width, times the height, computed without overflow, fits in `len`.
pub open spec fn rgba8_buffer_fits(width: u32, height: u32, len: nat) -> bool {
    &&& 4 * width <= usize::MAX
    &&& 4 * width * height <= usize::MAX
    &&& 4 * width * height <= len
}

/// `image::ImageBuffer::<Rgba<u8>, Vec<u8>>::from_raw` followed by
/// `into_raw`: the source accepts the buffer exactly when its checked length
/// `4 * width * height` fits in it, and then keeps the bytes as they are.
#[verifier::external_body]
fn rgba8_image_from_raw(width: u32, height: u32, pixels: Vec<u8>) -> (r: Option<Vec<u8>>)
    ensures
        r is Some <==> rgba8_buffer_fits(width, height, pixels@.len()),
        r matches Some(v) ==> v@ == pixels@,
{
    image::ImageBuffer::<image::Rgba<u8>, Vec<u8>>::from_raw(width, height, pixels).map(|b| b.into_raw())
}

/// The frame that a raw capture buffer of the given layout makes: 8-bit
/// buffers stay bytes (BGRA turned into RGBA), half-float buffers are read as
/// little-endian 16-bit values.
pub fn frame_from_bytes(format: ColorFormat, width: u32, height: u32, bytes: Vec<u8>) -> (r: Result<CapturedFrame, Error>)
    ensures
        match format {
            ColorFormat::Rgba8 => r matches Ok(CapturedFrame::Rgba8 { width: w, height: h, pixels: p })
                && w == width && h == height && p@ == bytes@,
            ColorFormat::Bgra8 => r matches Ok(CapturedFrame::Rgba8 { width: w, height: h, pixels: p })
                && w == width && h == height && p@ == spec_bgra_to_rgba(bytes@),
            ColorFormat::Rgba16F => match spec_bytes_to_u16_le(bytes@) {
                Ok(units) => r matches Ok(CapturedFrame::Rgba16Float { width: w, height: h, pixels: p })
                    && w == width && h == height && p@ == units,
                Err(e) => r matches Err(err) && err@ == e,
            },
        },
{
    match format {
        ColorFormat::Rgba8 => Ok(CapturedFrame::Rgba8 { width, height, pixels: bytes }),
        ColorFormat::Rgba16F => match bytes_to_u16_le(bytes.as_slice()) {
            Ok(pixels) => Ok(CapturedFrame::Rgba16Float { width, height, pixels }),
            Err(e) => Err(e),
        },
        ColorFormat::Bgra8 => Ok(CapturedFrame::Rgba8 { width, height, pixels: bgra_to_rgba(bytes) }),
    }
}

/// The image a captured frame is saved as: an 8-bit frame becomes an SDR
/// image if its buffer holds all its pixels (else the conversion fails), a
/// half-float frame an HDR image.
pub fn captured_image_from_frame(frame: CapturedFrame) -> (r: Result<CapturedImage, Error>)
    ensures
        match frame {
            CapturedFrame::Rgba8 { width, height, pixels } => if rgba8_buffer_fits(width, height, pixels@.len()) {
                r matches Ok(CapturedImage::SdrRgba8 { width: w, height: h, pixels: p })
                    && w == width && h == height && p@ == pixels@
            } else {
                r matches Err(e) && e@ == ErrorView::Rgba8BufferConversion
            },
            CapturedFrame::Rgba16Float { width, height, pixels } => r matches Ok(
                CapturedImage::HdrRgba16Float { width: w, height: h, pixels: p },
            ) && w == width && h == height && p@ == pixels@,
        },
{
    match frame {
        CapturedFrame::Rgba8 { width, height, pixels } => match rgba8_image_from_raw(width, height, pixels) {
            Some(p) => Ok(CapturedImage::SdrRgba8 { width, height, pixels: p }),
            None => Err(Error::Rgba8BufferConversion),
        },
        CapturedFrame::Rgba16Float { width, height, pixels } => Ok(
            CapturedImage::HdrRgba16Float { width, height, pixels },
        ),
    }
}

/// The crop of a capture: the whole monitor when no rectangle is given, else
/// the rectangle cut to the monitor, relative to it.
pub fn capture_crop(rect: Option<Rect>, monitor: Rect) -> (r: Result<Option<CaptureRect>, Error>)
    ensures
        match rect {
            None => r matches Ok(None),
            Some(t) => match spec_rect_to_capture_rect(t, monitor) {
                Ok(c) => r matches Ok(Some(c2)) && c2 == c,
                Err(e) => r matches Err(err) && err@ == e@,
            },
        },
{
    match rect {
        None => Ok(None),
        Some(t) => match rect_to_capture_rect(t, monitor) {
            Ok(c) => Ok(Some(c)),
            Err(e) => Err(e),
        },
    }
}

/// The rectangle a capture of `kind` is taken of: the whole monitor for a
/// full-screen capture, else the window or the selected region cut to the
/// monitor; an error when that is missing or lies off the monitor.
pub open spec fn spec_capture_rect(
    kind: CaptureKind,
    window: Option<Rect>,
    selected: Option<Rect>,
    monitor: Rect,
) -> Result<Option<Rect>, ErrorView> {
    match kind {
        CaptureKind::FullScreen => Ok(None),
        CaptureKind::CurrentWindow => match window {
            None => Err(ErrorView::NoActiveWindow),
            Some(w) => match spec_clamp_rect_to_monitor(w, monitor) {
                Ok(r) => Ok(Some(r)),
                Err(e) => Err(e@),
            },
        },
        CaptureKind::SquareRegion => match selected {
            None => Err(ErrorView::NoRegionSelected),
            Some(s) => match spec_clamp_rect_to_monitor(s, monitor) {
                Ok(r) => Ok(Some(r)),
                Err(e) => Err(e@),
            },
        },
    }
}

/// The rectangle a capture of `kind` is taken of.
pub fn capture_rect_for(kind: CaptureKind, window: Option<Rect>, selected: Option<Rect>, monitor: Rect) -> (r: Result<Option<Rect>, Error>)
    ensures
        match r {
            Ok(v) => spec_capture_rect(kind, window, selected, monitor) == Ok::<Option<Rect>, ErrorView>(v),
            Err(e) => spec_capture_rect(kind, window, selected, monitor) == Err::<Option<Rect>, ErrorView>(e@),
        },
{
    match kind {
        CaptureKind::FullScreen => Ok(None),
        CaptureKind::CurrentWindow => match window {
            None => Err(Error::NoActiveWindow),
            Some(w) => match clamp_rect_to_monitor(w, monitor) {
                Ok(r) => Ok(Some(r)),
                Err(e) => Err(e),
            },
        },
        CaptureKind::SquareRegion => match selected {
            None => Err(Error::NoRegionSelected),
            Some(s) => match clamp_rect_to_monitor(s, monitor) {
                Ok(r) => Ok(Some(r)),
                Err(e) => Err(e),
            },
        },
    }
}

/// What happens once a capture is saved.
#[derive(Debug, Clone, Copy, PartialEq, Eq, Structural)]
pub struct AfterSave {
    /// Show the notification.
    pub notify: bool,
    /// Open the image.
    pub open: bool,
}

/// What happens once a capture is saved: the notification if it is enabled,
/// and opening the image if auto-open is on for its dynamic range.
pub fn after_save(config: &Config, is_hdr: bool) -> (a: AfterSave)
    ensures
        a.notify == config.show_notification,
        a.open == config.spec_auto_open_for(is_hdr),
{
    AfterSave { notify: config.show_notification, open: config.auto_open_for(is_hdr) }
}

/// The path a capture is saved at: its file name, built now, joined to the
/// output folder; the file-name error when that cannot be built.
pub fn capture_path(config: &Config, image: &CapturedImage, kind: CaptureKind, app_name: Option<&str>) -> (r: Result<String, Error>)
    ensures
        !strftime_pattern_valid(spec_file_pattern(*config, kind, opt_str_view(app_name)))
            ==> result_view(r) == Err::<String, ErrorView>(ErrorView::FileNamePatternInvalid),
        strftime_pattern_valid(spec_file_pattern(*config, kind, opt_str_view(app_name)))
            ==> (r is Ok || result_view(r) == Err::<String, ErrorView>(ErrorView::ClockUnavailable)),
        match r {
            Ok(path) => exists|t: LocalTimestamp|
                #[trigger] t.wf() && path@ == join_path(
                    config.output_dir@,
                    spec_file_name_at(*config, kind, opt_str_view(app_name), image.spec_extension(), t),
                ),
            Err(_) => true,
        },
{
    let extension = image.extension();
    match build_file_name(config, kind, app_name, extension) {
        Ok(name) => Ok(join_path_exec(config.output_dir.as_str(), name.as_str())),
        Err(e) => Err(e),
    }
}

} // verus!
