//! Dropped images: which files are accepted, what they are named, how they
//! are compressed to a size budget, and the Markdown link that embeds them.

use std::io::Cursor;
use std::path::{Path, PathBuf};
use base64::{DecodeError, Engine};
use image::{DynamicImage, ImageError, ImageFormat};
use vstd::prelude::*;
use crate::capture::{clock_reading, fill_date_time, local_now, LocalDateTime};
use crate::log_safety::path_text;
use crate::settings::Settings;
use crate::shortcuts::opt_view;
use crate::text::{
    chars_of, concat_chars, eq_ignore_ascii_case, eq_ignore_case_chars, string_from_chars, trim,
    trim_chars,
};

verus! {

/// `std::path::PathBuf`, carried through as an opaque value.
#[verifier::external_type_specification]
#[verifier::external_body]
pub struct ExPathBuf(PathBuf);

/// `image::DynamicImage`, a decoded image handed to the encoders as it is.
#[verifier::external_type_specification]
#[verifier::external_body]
pub struct ExDynamicImage(DynamicImage);

/// `image::ImageError`, an encoder failure, turned into a message.
#[verifier::external_type_specification]
#[verifier::external_body]
pub struct ExImageError(ImageError);

/// `base64::DecodeError`, a decoding failure, turned into a message.
#[verifier::external_type_specification]
#[verifier::external_body]
pub struct ExDecodeError(DecodeError);

/// Widest image kept as it is; wider ones are scaled down to it.
pub const MAX_IMAGE_WIDTH: u32 = 1920;

/// First JPEG quality tried.
pub const JPEG_START_QUALITY: u8 = 85;

/// Quality given up per attempt.
pub const JPEG_QUALITY_STEP: u8 = 5;

/// Below this quality an attempt is kept whatever its size.
pub const JPEG_MIN_QUALITY: u8 = 30;

/// Result of saving an image.
#[derive(Debug)]
pub struct SavedImage {
    /// Full path where the image was saved.
    pub full_path: PathBuf,
    /// File name only, for the Markdown link.
    pub filename: String,
    /// Final file size in bytes.
    pub size_bytes: usize,
}

/// What the window receives for a dropped image.
#[derive(Debug)]
pub struct ProcessedImage {
    pub markdown: String,
    pub saved_path: String,
    pub filename: String,
}

/// The extensions accepted, up to ASCII case.
pub open spec fn supported_extension(ext: Seq<char>) -> bool {
    ||| eq_ignore_ascii_case(ext, "png"@)
    ||| eq_ignore_ascii_case(ext, "jpg"@)
    ||| eq_ignore_ascii_case(ext, "jpeg"@)
    ||| eq_ignore_ascii_case(ext, "webp"@)
    ||| eq_ignore_ascii_case(ext, "gif"@)
}

pub open spec fn unsupported_msg() -> Seq<char> {
    "Unsupported file type. Supported: PNG, JPG, JPEG, WebP, GIF"@
}

/// What `Path::extension` gives for a path written as this text.
pub uninterp spec fn path_extension_of(path: Seq<char>) -> Option<Seq<char>>;

/// Relies on `Path::extension` of the text taken as a path: the part of the
/// file name after its last `.`, if there is one; it depends on the text
/// alone.
#[verifier::external_body]
fn extension_of(p: &str) -> (r: Option<String>)
    ensures
        opt_view(r) == path_extension_of(p@),
{
    Path::new(p).extension().map(|e| e.to_string_lossy().to_string())
}

/// Whether a file extension is one of PNG, JPG, JPEG, WebP and GIF, in any
/// ASCII case.
pub fn is_supported_extension(ext: &str) -> (r: bool)
    ensures
        r == supported_extension(ext@),
{
    let e = chars_of(ext);
    eq_ignore_case_chars(e.as_slice(), "png") || eq_ignore_case_chars(e.as_slice(), "jpg")
        || eq_ignore_case_chars(e.as_slice(), "jpeg") || eq_ignore_case_chars(e.as_slice(), "webp")
        || eq_ignore_case_chars(e.as_slice(), "gif")
}

/// Whether a path, as text, names a supported image: its extension is one
/// of the supported ones.
pub open spec fn is_image_path(path: Seq<char>) -> bool {
    match path_extension_of(path) {
        Some(e) => supported_extension(e),
        None => false,
    }
}

/// Whether the path written as `path` names a supported image.
pub fn is_supported_image_path(path: &str) -> (r: bool)
    ensures
        r == is_image_path(path@),
{
    match extension_of(path) {
        Some(ext) => is_supported_extension(ext.as_str()),
        None => false,
    }
}

/// Whether the file's extension is a supported image type; a path without
/// an extension is not.
pub fn is_supported_image(path: &Path) -> (r: bool)
    ensures
        exists|text: Seq<char>| r == is_image_path(text),
{
    let text = path_text(path);
    is_supported_image_path(text.as_str())
}

/// Refuses a dropped file whose type is not supported.
pub fn check_dropped_file(file_path: &str) -> (r: Result<(), String>)
    ensures
        is_image_path(file_path@) ==> r is Ok,
        !is_image_path(file_path@) ==> (r matches Err(e) && e@ == unsupported_msg()),
{
    if is_supported_image_path(file_path) {
        Ok(())
    } else {
        Err(String::from_str("Unsupported file type. Supported: PNG, JPG, JPEG, WebP, GIF"))
    }
}

/// An image file name: the template with date and time written in, and
/// `.jpg` added when it has no `.` at all.
pub open spec fn image_filename(template: Seq<char>, d: LocalDateTime) -> Seq<char> {
    let f = fill_date_time(template, d);
    if f.contains('.') {
        f
    } else {
        f + ".jpg"@
    }
}

fn has_dot(s: &[char]) -> (r: bool)
    ensures
        r == s@.contains('.'),
{
    let mut i: usize = 0;
    while i < s.len()
        invariant
            i <= s@.len(),
            forall|j: int| 0 <= j < i ==> s@[j] != '.',
        decreases s@.len() - i,
    {
        if s[i] == '.' {
            return true;
        }
        i = i + 1;
    }
    false
}

/// The image file name for `template` at `now`.
pub fn image_filename_at(template: &str, now: &LocalDateTime) -> (r: String)
    ensures
        r@ == image_filename(template@, *now),
{
    let f = chars_of(crate::capture::fill_time_template(template, now).as_str());
    if has_dot(f.as_slice()) {
        string_from_chars(&f)
    } else {
        string_from_chars(&concat_chars(f.as_slice(), chars_of(".jpg").as_slice()))
    }
}

/// The image file name for `template` at the current time.
pub fn generate_filename(template: &str) -> (r: String)
    ensures
        exists|d: LocalDateTime| clock_reading(d) && r@ == image_filename(template@, d),
{
    let now = local_now();
    image_filename_at(template, &now)
}

/// The wiki link that embeds an image: `![[name]]`, or `![[name|width]]`
/// when a default width is set.
pub open spec fn markdown_link(filename: Seq<char>, width: Seq<char>) -> Seq<char> {
    let w = trim(width);
    if w.len() == 0 {
        "![["@ + filename + "]]"@
    } else {
        "![["@ + filename + "|"@ + w + "]]"@
    }
}

pub fn build_markdown_link(filename: &str, settings: &Settings) -> (r: String)
    ensures
        r@ == markdown_link(filename@, settings.default_image_width@),
{
    let w = trim_chars(chars_of(settings.default_image_width.as_str()).as_slice());
    let open = chars_of("![[");
    let close = chars_of("]]");
    let head = concat_chars(open.as_slice(), chars_of(filename).as_slice());
    if w.len() == 0 {
        string_from_chars(&concat_chars(head.as_slice(), close.as_slice()))
    } else {
        let bar = concat_chars(head.as_slice(), chars_of("|").as_slice());
        let with_width = concat_chars(bar.as_slice(), w.as_slice());
        string_from_chars(&concat_chars(with_width.as_slice(), close.as_slice()))
    }
}

/// What the window receives for an image saved under `filename` at
/// `saved_path`.
pub fn processed_image(filename: String, saved_path: String, settings: &Settings) -> (r: ProcessedImage)
    ensures
        r.markdown@ == markdown_link(filename@, settings.default_image_width@),
        r.saved_path == saved_path,
        r.filename == filename,
{
    let markdown = build_markdown_link(filename.as_str(), settings);
    ProcessedImage { markdown, saved_path, filename }
}

#[derive(Clone, Copy, Debug, PartialEq, Eq, Structural)]
pub enum EncodedFormat {
    Png,
    Jpeg,
}

/// A compressed image, ready to be written.
#[derive(Debug)]
pub struct EncodedImage {
    pub bytes: Vec<u8>,
    pub format: EncodedFormat,
    /// The JPEG quality used; 0 for PNG.
    pub quality: u8,
    /// Size of the PNG encoding, when one was made.
    pub png_size: Option<usize>,
    /// Sizes of the JPEG encodings made, in the order of the qualities tried.
    pub jpeg_sizes: Vec<usize>,
}

/// The JPEG quality of attempt `i`: 85, 80, 75, ...
pub open spec fn quality_of_attempt(i: int) -> int {
    JPEG_START_QUALITY - JPEG_QUALITY_STEP * i
}

/// The outcome of compressing: a PNG when the target is a PNG file and its
/// PNG fits the budget; otherwise the first JPEG attempt kept, every attempt
/// before it at a higher quality having been made and not kept.
pub open spec fn compression_outcome(e: EncodedImage, png_target: bool, max_bytes: nat) -> bool {
    let sizes = e.jpeg_sizes@;
    let n = sizes.len() as int;
    match e.format {
        EncodedFormat::Png => {
            &&& png_target
            &&& e.png_size == Some(e.bytes@.len() as usize)
            &&& e.bytes@.len() <= max_bytes
            &&& n == 0
        },
        EncodedFormat::Jpeg => {
            &&& (png_target ==> (e.png_size matches Some(s) && s > max_bytes))
            &&& (!png_target ==> e.png_size is None)
            &&& n >= 1
            &&& e.quality == quality_of_attempt(n - 1)
            &&& (forall|i: int|
                0 <= i < n - 1 ==> !jpeg_attempt_kept(
                    #[trigger] sizes[i] as nat,
                    max_bytes,
                    quality_of_attempt(i) as nat,
                ))
            &&& jpeg_attempt_kept(sizes[n - 1] as nat, max_bytes, e.quality as nat)
            &&& sizes[n - 1] == e.bytes@.len()
        },
    }
}

/// Whether a JPEG attempt is kept: it fits the budget, or the quality has
/// fallen below the minimum.
pub open spec fn jpeg_attempt_kept(len: nat, max_bytes: nat, quality: nat) -> bool {
    len <= max_bytes || quality < JPEG_MIN_QUALITY
}

/// The qualities tried, in order: 85, 80, ... down to 25.
pub open spec fn tried_quality(q: nat) -> bool {
    25 <= q <= 85 && q % 5 == 0
}

/// Whether a JPEG attempt of `len` bytes at `quality` is kept.
pub fn keep_jpeg_attempt(len: usize, max_bytes: u64, quality: u8) -> (r: bool)
    ensures
        r == jpeg_attempt_kept(len as nat, max_bytes as nat, quality as nat),
{
    (len as u64) <= max_bytes || quality < JPEG_MIN_QUALITY
}

/// Relies on `DynamicImage::write_to` with `ImageFormat::Png`: the PNG
/// encoding of the image, or the encoder's error.
#[verifier::external_body]
fn encode_png(img: &DynamicImage) -> (r: Result<Vec<u8>, ImageError>)
{
    let mut buffer: Vec<u8> = Vec::new();
    img.write_to(&mut Cursor::new(&mut buffer), ImageFormat::Png).map(|_| buffer)
}

/// Relies on `JpegEncoder::new_with_quality` and `encode_image`, on the
/// image converted to RGB: the JPEG encoding at that quality (1 to 100), or
/// the encoder's error.
#[verifier::external_body]
fn encode_jpeg(img: &DynamicImage, quality: u8) -> (r: Result<Vec<u8>, ImageError>)
    requires
        1 <= quality <= 100,
{
    let mut buffer: Vec<u8> = Vec::new();
    let rgb = DynamicImage::ImageRgb8(img.to_rgb8());
    image::codecs::jpeg::JpegEncoder::new_with_quality(&mut buffer, quality).encode_image(&rgb).map(
        |_| buffer,
    )
}

/// Relies on `ImageError`'s `Display`: the error's message.
#[verifier::external_body]
fn image_error_text(e: &ImageError) -> (r: String)
{
    format!("{}", e)
}

fn encode_error(prefix: &str, e: &ImageError) -> (r: String)
    ensures
        exists|detail: Seq<char>| r@ == prefix@ + detail,
{
    let text = image_error_text(e);
    string_from_chars(&concat_chars(chars_of(prefix).as_slice(), chars_of(text.as_str()).as_slice()))
}

/// Compresses an image to fit `max_size_kb` kilobytes: as PNG when the
/// target is a PNG file and the PNG fits, otherwise as JPEG at falling
/// qualities from 85 in steps of 5 until an attempt fits or the quality
/// drops below 30.
pub fn compress_image(img: &DynamicImage, png_target: bool, max_size_kb: u32) -> (r: Result<EncodedImage, String>)
    ensures
        r matches Ok(e) ==> compression_outcome(e, png_target, max_size_kb as nat * 1024),
        r matches Err(msg) ==> (exists|d: Seq<char>| msg@ == "Failed to encode PNG: "@ + d) || (exists|d: Seq<char>| msg@ == "Failed to encode JPEG: "@ + d),
{
    let max_bytes: u64 = max_size_kb as u64 * 1024;
    let mut png_size: Option<usize> = None;
    if png_target {
        match encode_png(img) {
            Ok(buffer) => {
                if (buffer.len() as u64) <= max_bytes {
                    let size = buffer.len();
                    return Ok(
                        EncodedImage {
                            bytes: buffer,
                            format: EncodedFormat::Png,
                            quality: 0,
                            png_size: Some(size),
                            jpeg_sizes: Vec::new(),
                        },
                    );
                }
                png_size = Some(buffer.len());
            },
            Err(e) => {
                return Err(encode_error("Failed to encode PNG: ", &e));
            },
        }
    }
    let mut quality: u8 = JPEG_START_QUALITY;
    let mut sizes: Vec<usize> = Vec::new();
    loop
        invariant
            tried_quality(quality as nat),
            max_bytes == max_size_kb as nat * 1024,
            quality == quality_of_attempt(sizes@.len() as int),
            forall|i: int|
                0 <= i < sizes@.len() ==> !jpeg_attempt_kept(
                    #[trigger] sizes@[i] as nat,
                    max_bytes as nat,
                    quality_of_attempt(i) as nat,
                ),
            png_target ==> (png_size matches Some(s) && s > max_bytes),
            !png_target ==> png_size is None,
        decreases quality,
    {
        match encode_jpeg(img, quality) {
            Ok(buffer) => {
                let size = buffer.len();
                let kept = keep_jpeg_attempt(size, max_bytes, quality);
                sizes.push(size);
                if kept {
                    return Ok(
                        EncodedImage {
                            bytes: buffer,
                            format: EncodedFormat::Jpeg,
                            quality,
                            png_size,
                            jpeg_sizes: sizes,
                        },
                    );
                }
            },
            Err(e) => {
                return Err(encode_error("Failed to encode JPEG: ", &e));
            },
        }
        quality = quality - JPEG_QUALITY_STEP;
    }
}

/// Whether a path, as text, names a PNG file.
pub open spec fn is_png_path(path: Seq<char>) -> bool {
    match path_extension_of(path) {
        Some(e) => eq_ignore_ascii_case(e, "png"@),
        None => false,
    }
}

/// Whether the file `path` names is to be written as PNG first.
pub fn is_png_target(path: &Path) -> (r: bool)
    ensures
        exists|text: Seq<char>| r == is_png_path(text),
{
    let text = path_text(path);
    let r = match extension_of(text.as_str()) {
        Some(ext) => eq_ignore_case_chars(chars_of(ext.as_str()).as_slice(), "png"),
        None => false,
    };
    assert(r == is_png_path(text@));
    r
}

/// The bytes that standard, padded base64 text encodes, when it is valid.
pub uninterp spec fn base64_decoded(text: Seq<char>) -> Option<Seq<u8>>;

/// Relies on base64's `general_purpose::STANDARD.decode`: the decoded bytes
/// for valid text, an error otherwise; the outcome depends on the text
/// alone.
#[verifier::external_body]
fn decode_standard_base64(text: &str) -> (r: Result<Vec<u8>, DecodeError>)
    ensures
        match base64_decoded(text@) {
            Some(b) => r matches Ok(v) && v@ == b,
            None => r is Err,
        },
{
    base64::engine::general_purpose::STANDARD.decode(text)
}

/// Relies on `DecodeError`'s `Display`: the error's message.
#[verifier::external_body]
fn decode_error_text(e: &DecodeError) -> (r: String)
{
    format!("{}", e)
}

pub open spec fn decode_failure_prefix() -> Seq<char> {
    "Failed to decode base64: "@
}

/// The bytes of an image dropped as base64 text.
pub fn decode_dropped_bytes(text: &str) -> (r: Result<Vec<u8>, String>)
    ensures
        match base64_decoded(text@) {
            Some(b) => r matches Ok(v) && v@ == b,
            None => r matches Err(msg) && exists|d: Seq<char>| msg@ == decode_failure_prefix() + d,
        },
{
    match decode_standard_base64(text) {
        Ok(bytes) => Ok(bytes),
        Err(e) => {
            let detail = decode_error_text(&e);
            let msg = concat_chars(
                chars_of("Failed to decode base64: ").as_slice(),
                chars_of(detail.as_str()).as_slice(),
            );
            let out = string_from_chars(&msg);
            assert(out@ == decode_failure_prefix() + detail@);
            Err(out)
        },
    }
}

} // verus!
