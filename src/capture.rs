//! Screen and window capture sources: their ids, display names, which windows
//! are offered, and how a captured frame becomes a JPEG data URI.
use base64::Engine;
use vstd::prelude::*;
use vstd::string::{is_ascii, StringSliceAdditionalSpecFns};
use crate::text::{
    ascii_chars, ascii_string, chars_of, contains_at, contains_chars, decimal_bytes, has_prefix,
    is_ascii_bytes, lemma_decimal_is_ascii, parse_unsigned, parse_unsigned_spec, push_all,
    push_decimal, same_chars, starts_with,
};

verus! {

broadcast use vstd::string::group_string_axioms;

/// A monitor or window that can be captured, as listed to the user.
pub struct CaptureSource {
    pub id: String,
    pub name: String,
    /// `monitor` or `window`.
    pub source_type: String,
    /// JPEG data URI of a small preview, when one could be made.
    pub thumbnail: Option<String>,
}

/// A captured frame as a JPEG data URI, with its size in pixels.
pub struct FrameResult {
    pub data_uri: String,
    pub width: u32,
    pub height: u32,
}

/// What a source id designates: a monitor by its position, a window by its id.
#[derive(Clone, Copy, Debug, PartialEq, Eq)]
pub enum SourceRef {
    Monitor(usize),
    Window(u32),
}

/// Failures of listing and grabbing capture sources.
#[derive(Debug, PartialEq, Eq)]
pub enum CaptureError {
    InvalidMonitorId,
    MonitorNotFound,
    InvalidWindowId,
    WindowNotFound,
    UnknownSourceType,
    /// The platform capture failed.
    Capture(String),
    /// The frame could not be encoded.
    Encode(String),
}

/// Bytes of an ASCII literal are its characters.
proof fn lemma_ascii_literal(s: &str)
    requires
        is_ascii(s),
    ensures
        is_ascii_bytes(s.spec_bytes()),
        ascii_chars(s.spec_bytes()) == s@,
{
    assert(ascii_chars(s.spec_bytes()) =~= s@);
}

/// The source id of monitor `index`: `monitor-<index>`.
pub open spec fn monitor_id_spec(index: nat) -> Seq<char> {
    "monitor-"@ + ascii_chars(decimal_bytes(index))
}

/// The source id of window `id`: `window-<id>`.
pub open spec fn window_id_spec(id: nat) -> Seq<char> {
    "window-"@ + ascii_chars(decimal_bytes(id))
}

/// Source id of the monitor at position `index`.
pub fn monitor_source_id(index: usize) -> (r: String)
    ensures
        r@ == monitor_id_spec(index as nat),
{
    let mut out: Vec<u8> = Vec::new();
    push_all(&mut out, "monitor-".as_bytes());
    push_decimal(&mut out, index as u64);
    proof {
        reveal_strlit("monitor-");
        lemma_ascii_literal("monitor-");
        lemma_decimal_is_ascii(index as nat);
        assert(ascii_chars(out@) =~= monitor_id_spec(index as nat));
    }
    ascii_string(out)
}

/// Source id of the window with platform id `id`.
pub fn window_source_id(id: u32) -> (r: String)
    ensures
        r@ == window_id_spec(id as nat),
{
    let mut out: Vec<u8> = Vec::new();
    push_all(&mut out, "window-".as_bytes());
    push_decimal(&mut out, id as u64);
    proof {
        reveal_strlit("window-");
        lemma_ascii_literal("window-");
        lemma_decimal_is_ascii(id as nat);
        assert(ascii_chars(out@) =~= window_id_spec(id as nat));
    }
    ascii_string(out)
}

/// Display name of monitor `index` of `count`: `Primary Display` when it is the
/// only one, else `Display <index + 1> ` followed by `(Primary)` for the primary.
pub open spec fn monitor_name_spec(index: nat, count: nat, primary: bool) -> Seq<char> {
    if count == 1 {
        "Primary Display"@
    } else {
        "Display "@ + ascii_chars(decimal_bytes(index + 1)) + " "@ + if primary {
            "(Primary)"@
        } else {
            Seq::<char>::empty()
        }
    }
}

/// Display name of the monitor at position `index` among `count` monitors.
pub fn monitor_name(index: usize, count: usize, primary: bool) -> (r: String)
    requires
        index < count,
    ensures
        r@ == monitor_name_spec(index as nat, count as nat, primary),
{
    let mut out: Vec<u8> = Vec::new();
    proof {
        reveal_strlit("Primary Display");
        reveal_strlit("Display ");
        reveal_strlit(" ");
        reveal_strlit("(Primary)");
        lemma_ascii_literal("Primary Display");
        lemma_ascii_literal("Display ");
        lemma_ascii_literal(" ");
        lemma_ascii_literal("(Primary)");
        lemma_decimal_is_ascii(index as nat + 1);
    }
    if count == 1 {
        push_all(&mut out, "Primary Display".as_bytes());
    } else {
        push_all(&mut out, "Display ".as_bytes());
        push_decimal(&mut out, index as u64 + 1);
        push_all(&mut out, " ".as_bytes());
        if primary {
            push_all(&mut out, "(Primary)".as_bytes());
        }
    }
    proof {
        assert(ascii_chars(out@) =~= monitor_name_spec(index as nat, count as nat, primary));
    }
    ascii_string(out)
}

/// What a source id designates: `monitor-<n>` with `n` a `usize`, or
/// `window-<n>` with `n` a `u32` (each number as integer parsing reads it).
pub open spec fn source_ref_spec(id: Seq<u8>) -> Result<SourceRef, CaptureError> {
    let mp = "monitor-".spec_bytes();
    let wp = "window-".spec_bytes();
    if has_prefix(id, mp) {
        match parse_unsigned_spec(id.subrange(mp.len() as int, id.len() as int), usize::MAX as nat) {
            Some(v) => Ok(SourceRef::Monitor(v as usize)),
            None => Err(CaptureError::InvalidMonitorId),
        }
    } else if has_prefix(id, wp) {
        match parse_unsigned_spec(id.subrange(wp.len() as int, id.len() as int), u32::MAX as nat) {
            Some(v) => Ok(SourceRef::Window(v as u32)),
            None => Err(CaptureError::InvalidWindowId),
        }
    } else {
        Err(CaptureError::UnknownSourceType)
    }
}

/// Reads a source id as `monitor_source_id` and `window_source_id` write them.
pub fn parse_source_id(id: &str) -> (r: Result<SourceRef, CaptureError>)
    ensures
        r == source_ref_spec(id.spec_bytes()),
{
    let bytes = id.as_bytes();
    let mp = "monitor-".as_bytes();
    let wp = "window-".as_bytes();
    if starts_with(bytes, mp) {
        let rest = vstd::slice::slice_subrange(bytes, mp.len(), bytes.len());
        match parse_unsigned(rest, usize::MAX as u64) {
            Some(v) => Ok(SourceRef::Monitor(v as usize)),
            None => Err(CaptureError::InvalidMonitorId),
        }
    } else if starts_with(bytes, wp) {
        let rest = vstd::slice::slice_subrange(bytes, wp.len(), bytes.len());
        match parse_unsigned(rest, u32::MAX as u64) {
            Some(v) => Ok(SourceRef::Window(v as u32)),
            None => Err(CaptureError::InvalidWindowId),
        }
    } else {
        Err(CaptureError::UnknownSourceType)
    }
}

/// Lower-case form of a string, as `str::to_lowercase` gives it.
pub uninterp spec fn lower_of(s: Seq<char>) -> Seq<char>;

/// Relies on `str::to_lowercase`: the result depends on the characters alone.
#[verifier::external_body]
fn lowercase(s: &str) -> (r: String)
    ensures
        r@ == lower_of(s@),
{
    s.to_lowercase()
}

/// Whether a window is offered for capture, from the byte length of its title
/// and the title in lower case: titles under two bytes and known system windows
/// are left out.
pub open spec fn window_listed_spec(title_len: int, lower: Seq<char>) -> bool {
    title_len >= 2 && !contains_at(lower, "task switching"@) && lower != "program manager"@
        && lower != "windows input experience"@ && lower != "msrdc"@
}

/// Whether a window is offered, given its title's byte length and the title
/// already in lower case.
pub fn is_listed_title(title_len: usize, lower: &str) -> (r: bool)
    ensures
        r == window_listed_spec(title_len as int, lower@),
{
    if title_len < 2 {
        return false;
    }
    let l = chars_of(lower);
    !contains_chars(&l, &chars_of("task switching")) && !same_chars(&l, &chars_of("program manager"))
        && !same_chars(&l, &chars_of("windows input experience")) && !same_chars(
        &l,
        &chars_of("msrdc"),
    )
}

/// Whether the window titled `title` is offered for capture.
pub fn window_listed(title: &str) -> (r: bool)
    ensures
        r == window_listed_spec(title.len() as int, lower_of(title@)),
{
    let lower = lowercase(title);
    is_listed_title(title.len(), lower.as_str())
}

/// The pixels of an RGBA buffer with the alpha byte of each pixel dropped.
pub open spec fn rgb_of(rgba: Seq<u8>) -> Seq<u8> {
    Seq::new((rgba.len() / 4 * 3) as nat, |i: int| rgba[(i / 3) * 4 + i % 3])
}

/// Alpha byte of pixel `p` of an RGBA buffer.
pub open spec fn alpha_at(rgba: Seq<u8>, p: int) -> u8 {
    rgba[p * 4 + 3]
}

/// Every pixel of an RGBA buffer is fully transparent.
pub open spec fn all_transparent_spec(rgba: Seq<u8>) -> bool {
    forall|p: int| 0 <= p < rgba.len() / 4 ==> #[trigger] alpha_at(rgba, p) == 0
}

/// Drops the alpha channel: RGBA pixels become RGB pixels.
pub fn rgba_to_rgb(rgba: &[u8]) -> (r: Vec<u8>)
    requires
        rgba@.len() % 4 == 0,
    ensures
        r@ == rgb_of(rgba@),
{
    let n = rgba.len();
    let pixels = n / 4;
    let mut out: Vec<u8> = Vec::new();
    let mut p: usize = 0;
    while p < pixels
        invariant
            n == rgba@.len(),
            pixels == rgba@.len() / 4,
            rgba@.len() % 4 == 0,
            p <= pixels,
            out@.len() == p * 3,
            forall|i: int| 0 <= i < p * 3 ==> out@[i] == rgba@[(i / 3) * 4 + i % 3],
        decreases pixels - p,
    {
        assert(4 * p + 3 < n) by (nonlinear_arith)
            requires
                p < pixels,
                pixels == n / 4,
        ;
        out.push(rgba[4 * p]);
        out.push(rgba[4 * p + 1]);
        out.push(rgba[4 * p + 2]);
        proof {
            assert forall|i: int| 0 <= i < (p + 1) * 3 implies out@[i] == rgba@[(i / 3) * 4 + i % 3] by {
                if i >= p * 3 {
                    assert(i / 3 == p && i % 3 == i - p * 3);
                }
            }
        }
        p = p + 1;
    }
    proof {
        assert(out@ =~= rgb_of(rgba@));
    }
    out
}

/// Whether every pixel of an RGBA buffer has alpha 0 (an empty capture).
pub fn all_transparent(rgba: &[u8]) -> (r: bool)
    ensures
        r == all_transparent_spec(rgba@),
{
    let n = rgba.len();
    let pixels = n / 4;
    let mut p: usize = 0;
    while p < pixels
        invariant
            n == rgba@.len(),
            pixels == rgba@.len() / 4,
            p <= pixels,
            forall|q: int| 0 <= q < p ==> #[trigger] alpha_at(rgba@, q) == 0,
        decreases pixels - p,
    {
        assert(p * 4 + 3 < n) by (nonlinear_arith)
            requires
                p < pixels,
                pixels == n / 4,
        ;
        if rgba[p * 4 + 3] != 0 {
            assert(alpha_at(rgba@, p as int) != 0);
            return false;
        }
        p = p + 1;
    }
    true
}

/// JPEG file that the `image` crate's encoder writes for RGB pixels.
pub uninterp spec fn jpeg_of(rgb: Seq<u8>, width: u32, height: u32, quality: u8) -> Seq<u8>;

#[verifier::external_type_specification]
#[verifier::external_body]
pub struct ExImageError(image::ImageError);

/// Relies on `image::codecs::jpeg::JpegEncoder::encode` (with `new_with_quality`):
/// RGB pixels of the stated size become a JPEG file; a size of 0 or above 65535
/// in either direction is an error. The buffer length is checked by an assertion
/// there, hence the `requires`.
#[verifier::external_body]
fn encode_jpeg(rgb: &[u8], width: u32, height: u32, quality: u8) -> (r: Result<
    Vec<u8>,
    image::ImageError,
>)
    requires
        rgb@.len() == width * height * 3,
    ensures
        r matches Ok(v) ==> v@ == jpeg_of(rgb@, width, height, quality),
        (width == 0 || height == 0 || width > 65535 || height > 65535) ==> r is Err,
{
    let mut buf: Vec<u8> = Vec::new();
    image::codecs::jpeg::JpegEncoder::new_with_quality(&mut buf, quality).encode(
        rgb,
        width,
        height,
        image::ExtendedColorType::Rgb8,
    )?;
    Ok(buf)
}

/// RGBA pixels that the `image` crate's triangle-filter resize produces.
pub uninterp spec fn resized_of(rgba: Seq<u8>, width: u32, height: u32, new_width: u32, new_height: u32) -> Seq<u8>;

/// Relies on `image::imageops::resize` with `FilterType::Triangle`: the image is
/// scaled to exactly the new size, four bytes per pixel.
#[verifier::external_body]
fn resize_rgba(rgba: Vec<u8>, width: u32, height: u32, new_width: u32, new_height: u32) -> (r: Vec<u8>)
    requires
        rgba@.len() == width * height * 4,
        new_width * new_height * 4 <= usize::MAX,
    ensures
        r@ == resized_of(rgba@, width, height, new_width, new_height),
        r@.len() == new_width * new_height * 4,
{
    match image::RgbaImage::from_raw(width, height, rgba) {
        Some(img) => image::imageops::resize(
            &img,
            new_width,
            new_height,
            image::imageops::FilterType::Triangle,
        ).into_raw(),
        None => Vec::new(),
    }
}

/// Standard base64, with padding, of a byte sequence.
pub uninterp spec fn base64_of(b: Seq<u8>) -> Seq<char>;

/// Relies on `base64::Engine::encode_string` with the standard engine: appends
/// the padded base64 text of `bytes`.
#[verifier::external_body]
fn append_base64(out: &mut String, bytes: &[u8])
    ensures
        final(out)@ == old(out)@ + base64_of(bytes@),
{
    base64::engine::general_purpose::STANDARD.encode_string(bytes, out)
}

/// A JPEG data URI: `data:image/jpeg;base64,` and the base64 of the file.
pub open spec fn jpeg_data_uri_spec(jpeg: Seq<u8>) -> Seq<char> {
    "data:image/jpeg;base64,"@ + base64_of(jpeg)
}

/// The data URI of a JPEG file.
pub fn jpeg_data_uri(jpeg: &[u8]) -> (r: String)
    ensures
        r@ == jpeg_data_uri_spec(jpeg@),
{
    let mut out: Vec<u8> = Vec::new();
    push_all(&mut out, "data:image/jpeg;base64,".as_bytes());
    proof {
        reveal_strlit("data:image/jpeg;base64,");
        lemma_ascii_literal("data:image/jpeg;base64,");
    }
    let mut uri = ascii_string(out);
    append_base64(&mut uri, jpeg);
    uri
}

/// JPEG quality of a grabbed frame: higher with the grid, whose small labels
/// must stay legible.
pub open spec fn frame_quality(with_grid: bool) -> u8 {
    if with_grid {
        90
    } else {
        75
    }
}

/// JPEG quality of a source preview.
pub const THUMBNAIL_QUALITY: u8 = 60;

/// Preview size of a capture source, in pixels.
pub const THUMBNAIL_WIDTH: u32 = 320;

pub const THUMBNAIL_HEIGHT: u32 = 200;

/// Encodes a captured RGBA frame (with the grid already drawn when
/// `with_grid`) as a JPEG data URI with the frame's size.
pub fn encode_frame(rgba: &[u8], width: u32, height: u32, with_grid: bool) -> (r: Result<
    FrameResult,
    CaptureError,
>)
    requires
        rgba@.len() == width * height * 4,
    ensures
        match r {
            Ok(f) => f.width == width && f.height == height && f.data_uri@ == jpeg_data_uri_spec(
                jpeg_of(rgb_of(rgba@), width, height, frame_quality(with_grid)),
            ),
            Err(e) => e is Encode,
        },
        (width == 0 || height == 0 || width > 65535 || height > 65535) ==> r is Err,
{
    let quality: u8 = if with_grid {
        90
    } else {
        75
    };
    let rgb = rgba_to_rgb(rgba);
    proof {
        assert(rgba@.len() / 4 * 3 == width * height * 3) by (nonlinear_arith)
            requires
                rgba@.len() == width * height * 4,
        ;
    }
    match encode_jpeg(rgb.as_slice(), width, height, quality) {
        Ok(jpeg) => Ok(FrameResult { data_uri: jpeg_data_uri(jpeg.as_slice()), width, height }),
        Err(e) => Err(CaptureError::Encode(e.to_string())),
    }
}

/// The preview data URI of a captured RGBA image: scaled to exactly
/// `max_w` by `max_h` and encoded at preview quality; nothing when encoding fails.
pub fn capture_thumbnail(rgba: Vec<u8>, width: u32, height: u32, max_w: u32, max_h: u32) -> (r:
    Option<String>)
    requires
        rgba@.len() == width * height * 4,
        max_w * max_h * 4 <= usize::MAX,
    ensures
        r matches Some(uri) ==> uri@ == jpeg_data_uri_spec(
            jpeg_of(
                rgb_of(resized_of(rgba@, width, height, max_w, max_h)),
                max_w,
                max_h,
                THUMBNAIL_QUALITY,
            ),
        ),
{
    let small = resize_rgba(rgba, width, height, max_w, max_h);
    let rgb = rgba_to_rgb(small.as_slice());
    proof {
        assert(small@.len() / 4 * 3 == max_w * max_h * 3) by (nonlinear_arith)
            requires
                small@.len() == max_w * max_h * 4,
        ;
    }
    match encode_jpeg(rgb.as_slice(), max_w, max_h, THUMBNAIL_QUALITY) {
        Ok(jpeg) => Some(jpeg_data_uri(jpeg.as_slice())),
        Err(_) => None,
    }
}

/// The listing entry of the monitor at position `index` among `count`.
pub fn monitor_source(index: usize, count: usize, primary: bool, thumbnail: Option<String>) -> (r:
    CaptureSource)
    requires
        index < count,
    ensures
        r.id@ == monitor_id_spec(index as nat),
        r.name@ == monitor_name_spec(index as nat, count as nat, primary),
        r.source_type@ == "monitor"@,
        r.thumbnail == thumbnail,
{
    CaptureSource {
        id: monitor_source_id(index),
        name: monitor_name(index, count, primary),
        source_type: "monitor".to_owned(),
        thumbnail,
    }
}

/// The listing entry of a window, named by its title.
pub fn window_source(id: u32, title: String, thumbnail: Option<String>) -> (r: CaptureSource)
    ensures
        r.id@ == window_id_spec(id as nat),
        r.name == title,
        r.source_type@ == "window"@,
        r.thumbnail == thumbnail,
{
    CaptureSource { id: window_source_id(id), name: title, source_type: "window".to_owned(), thumbnail }
}

} // verus!
