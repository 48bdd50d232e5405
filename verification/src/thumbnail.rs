//! Thumbnail generation: integer scaling geometry, the image codec calls,
//! and data-URI assembly.
//!
//! The geometry is computed here in exact integer arithmetic: the longer
//! edge of the output equals the requested maximum, the shorter edge is the
//! other input edge scaled by the same ratio, rounded half up, and never
//! below one pixel. Decoding, resampling, and re-encoding are performed by
//! the image codec behind trusted calls; what they compute is a function of
//! their arguments alone, so their results carry names
//! ([`magic_format`], [`img_dims`], [`thumb_payload`]) that the contracts
//! here pin the emitted data URIs to.

use vstd::prelude::*;
use crate::storage::StorageError;
use crate::utils::{b64_encoding, base64_encode};

verus! {

/// The image container formats the thumbnailer distinguishes.
#[derive(Debug, Clone, Copy, PartialEq, Eq, Structural)]
pub enum ImgFormat {
    Png,
    Gif,
    WebP,
    Jpeg,
    Bmp,
    Tiff,
    Other,
}

/// The format a thumbnail is re-encoded in: PNG, GIF, and WebP are kept;
/// JPEG, BMP, TIFF, and anything unrecognized become JPEG.
pub open spec fn encode_format(f: ImgFormat) -> ImgFormat {
    match f {
        ImgFormat::Png => ImgFormat::Png,
        ImgFormat::Gif => ImgFormat::Gif,
        ImgFormat::WebP => ImgFormat::WebP,
        _ => ImgFormat::Jpeg,
    }
}

/// The MIME name of the re-encoded form of `f`: what labels a scaled
/// thumbnail.
pub open spec fn mime_of_format(f: ImgFormat) -> Seq<char> {
    match encode_format(f) {
        ImgFormat::Png => "image/png"@,
        ImgFormat::Gif => "image/gif"@,
        ImgFormat::WebP => "image/webp"@,
        _ => "image/jpeg"@,
    }
}

/// The best-guess MIME name for raw content whose magic bytes announce
/// `f`: what labels an unresized inline payload.
pub open spec fn raw_mime_of_format(f: ImgFormat) -> Seq<char> {
    match f {
        ImgFormat::Png => "image/png"@,
        ImgFormat::Gif => "image/gif"@,
        ImgFormat::WebP => "image/webp"@,
        ImgFormat::Jpeg => "image/jpeg"@,
        ImgFormat::Bmp => "image/bmp"@,
        ImgFormat::Tiff => "image/tiff"@,
        ImgFormat::Other => "application/octet-stream"@,
    }
}

/// A data URI: MIME tag and base64 payload in one self-describing string.
pub open spec fn spec_data_uri(mime: Seq<char>, payload_b64: Seq<char>) -> Seq<char> {
    "data:"@ + mime + ";base64,"@ + payload_b64
}

/// Wraps a payload as a data URI under the given MIME name.
pub fn data_uri(mime: &str, payload: &[u8]) -> (r: String)
    ensures
        r@ == spec_data_uri(mime@, b64_encoding(payload@)),
{
    let mut r = String::from_str("data:");
    r.append(mime);
    r.append(";base64,");
    let encoded = base64_encode(payload);
    r.append(encoded.as_str());
    proof {
        assert(r@ =~= spec_data_uri(mime@, b64_encoding(payload@)));
    }
    r
}

/// `side * m / longer`, rounded half up: the scaled length of the shorter
/// edge when the longer edge is scaled to `m`.
pub open spec fn spec_scaled(side: nat, m: nat, longer: nat) -> nat {
    if longer == 0 {
        0
    } else {
        (2 * side * m + longer) / (2 * longer)
    }
}

/// At least one: output edges never collapse to zero pixels.
pub open spec fn at_least_one(n: nat) -> nat {
    if n == 0 {
        1
    } else {
        n
    }
}

/// The output dimensions of a thumbnail of a `w` by `h` image under
/// maximum edge `m`: the longer edge becomes `m`, the shorter is scaled
/// uniformly and rounded half up, both clamped to at least one pixel.
pub open spec fn spec_thumbnail_dims(w: u32, h: u32, m: u32) -> (u32, u32) {
    if w >= h {
        (
            at_least_one(m as nat) as u32,
            at_least_one(spec_scaled(h as nat, m as nat, w as nat)) as u32,
        )
    } else {
        (
            at_least_one(spec_scaled(w as nat, m as nat, h as nat)) as u32,
            at_least_one(m as nat) as u32,
        )
    }
}

/// Computes the output dimensions of a thumbnail.
pub fn thumbnail_dimensions(w: u32, h: u32, m: u32) -> (r: (u32, u32))
    requires
        w >= 1,
        h >= 1,
    ensures
        r == spec_thumbnail_dims(w, h, m),
        r.0 >= 1 && r.1 >= 1,
        r.0 <= at_least_one(m as nat) && r.1 <= at_least_one(m as nat),
{
    if w >= h {
        let s = scaled_edge(h, m, w);
        let longer: u32 = if m == 0 {
            1
        } else {
            m
        };
        proof {
            assert(at_least_one(m as nat) <= u32::MAX);
            assert(at_least_one(spec_scaled(h as nat, m as nat, w as nat)) <= u32::MAX);
        }
        (longer, s)
    } else {
        let s = scaled_edge(w, m, h);
        let longer: u32 = if m == 0 {
            1
        } else {
            m
        };
        proof {
            assert(at_least_one(m as nat) <= u32::MAX);
            assert(at_least_one(spec_scaled(w as nat, m as nat, h as nat)) <= u32::MAX);
        }
        (s, longer)
    }
}

/// Computes one scaled edge, clamped to at least one pixel.
fn scaled_edge(side: u32, m: u32, longer: u32) -> (r: u32)
    requires
        1 <= side <= longer,
    ensures
        r == at_least_one(spec_scaled(side as nat, m as nat, longer as nat)),
        r >= 1,
        r <= at_least_one(m as nat),
{
    let s128 = side as u128;
    let m128 = m as u128;
    let l128 = longer as u128;
    proof {
        assert(2 * s128 * m128 + l128 <= u128::MAX) by (nonlinear_arith)
            requires
                s128 <= u32::MAX,
                m128 <= u32::MAX,
                l128 <= u32::MAX,
        ;
    }
    let t: u128 = (2u128 * s128 * m128 + l128) / (2u128 * l128);
    proof {
        assert(t <= m128) by (nonlinear_arith)
            requires
                1 <= s128 <= l128,
                t == (2 * s128 * m128 + l128) as int / (2 * l128) as int,
        ;
    }
    if t == 0 {
        1
    } else {
        t as u32
    }
}

/// The container format the magic bytes of `bytes` announce, if any: what
/// image::guess_format reads, a function of the bytes alone.
pub uninterp spec fn magic_format(bytes: Seq<u8>) -> Option<ImgFormat>;

/// The dimensions of the image `bytes` decode to, if they decode: what
/// image::load_from_memory reports, a function of the bytes alone.
pub uninterp spec fn img_dims(bytes: Seq<u8>) -> Option<(u32, u32)>;

/// The re-encoding of the image `bytes` decode to, resampled to `w` by
/// `h`, in the container `f` (taken as JPEG for the non-kept variants), if
/// everything decodes and encodes: a function of the arguments alone.
pub uninterp spec fn thumb_payload(bytes: Seq<u8>, w: u32, h: u32, f: ImgFormat) -> Option<
    Seq<u8>,
>;

/// Relies on image::guess_format: names the container the magic bytes
/// announce, one variant per recognized outside variant, or fails when the
/// magic bytes match no known container.
#[verifier::external_body]
fn guess_image_format(bytes: &[u8]) -> (r: Result<ImgFormat, String>)
    ensures
        r is Ok <==> magic_format(bytes@) is Some,
        r is Ok ==> r->Ok_0 == magic_format(bytes@)->Some_0,
{
    match image::guess_format(bytes) {
        Ok(image::ImageFormat::Png) => Ok(ImgFormat::Png),
        Ok(image::ImageFormat::Gif) => Ok(ImgFormat::Gif),
        Ok(image::ImageFormat::WebP) => Ok(ImgFormat::WebP),
        Ok(image::ImageFormat::Jpeg) => Ok(ImgFormat::Jpeg),
        Ok(image::ImageFormat::Bmp) => Ok(ImgFormat::Bmp),
        Ok(image::ImageFormat::Tiff) => Ok(ImgFormat::Tiff),
        Ok(_) => Ok(ImgFormat::Other),
        Err(e) => Err(e.to_string()),
    }
}

/// Relies on image::load_from_memory and GenericImageView::dimensions:
/// decodes the bytes and reads the decoded image's width and height, or
/// fails exactly when they do not decode.
#[verifier::external_body]
fn decode_dims(bytes: &[u8]) -> (r: Result<(u32, u32), String>)
    ensures
        r is Ok <==> img_dims(bytes@) is Some,
        r is Ok ==> r->Ok_0 == img_dims(bytes@)->Some_0,
{
    match image::load_from_memory(bytes) {
        Ok(img) => Ok(image::GenericImageView::dimensions(&img)),
        Err(e) => Err(e.to_string()),
    }
}

/// Relies on image::load_from_memory, DynamicImage::resize_exact (with
/// the Lanczos3 filter), and DynamicImage::write_to: decodes the bytes,
/// resamples to exactly `w` by `h`, and re-encodes in the named container,
/// failing exactly when decoding or encoding does.
#[verifier::external_body]
fn decode_resize_encode(bytes: &[u8], w: u32, h: u32, f: ImgFormat) -> (r: Result<
    Vec<u8>,
    String,
>)
    requires
        w >= 1,
        h >= 1,
    ensures
        r is Ok <==> thumb_payload(bytes@, w, h, f) is Some,
        r is Ok ==> r->Ok_0@ == thumb_payload(bytes@, w, h, f)->Some_0,
{
    let img = image::load_from_memory(bytes).map_err(|e| e.to_string())?;
    let resized = img.resize_exact(w, h, image::imageops::FilterType::Lanczos3);
    let fmt = match f {
        ImgFormat::Png => image::ImageFormat::Png,
        ImgFormat::Gif => image::ImageFormat::Gif,
        ImgFormat::WebP => image::ImageFormat::WebP,
        _ => image::ImageFormat::Jpeg,
    };
    let mut buf = std::io::Cursor::new(Vec::new());
    match resized.write_to(&mut buf, fmt) {
        Ok(()) => Ok(buf.into_inner()),
        Err(e) => Err(e.to_string()),
    }
}

/// The MIME name of the re-encoded form of `f`, as text.
pub fn format_mime(f: ImgFormat) -> (r: &'static str)
    ensures
        r@ == mime_of_format(f),
{
    match f {
        ImgFormat::Png => "image/png",
        ImgFormat::Gif => "image/gif",
        ImgFormat::WebP => "image/webp",
        _ => "image/jpeg",
    }
}

/// The best-guess MIME name for raw content announcing `f`, as text.
pub fn raw_format_mime(f: ImgFormat) -> (r: &'static str)
    ensures
        r@ == raw_mime_of_format(f),
{
    match f {
        ImgFormat::Png => "image/png",
        ImgFormat::Gif => "image/gif",
        ImgFormat::WebP => "image/webp",
        ImgFormat::Jpeg => "image/jpeg",
        ImgFormat::Bmp => "image/bmp",
        ImgFormat::Tiff => "image/tiff",
        ImgFormat::Other => "application/octet-stream",
    }
}

/// What thumbnailing decodable image content must yield: scaled to the
/// exact geometry, re-encoded in the re-encoded form of `fmt`, labeled
/// with that form's MIME name — and a decode failure, an empty reported
/// dimension, or an encode failure reported as a decode error.
pub open spec fn spec_render_outcome(
    content: Seq<u8>,
    fmt: ImgFormat,
    max_size: u32,
    r: Result<String, StorageError>,
) -> bool {
    match img_dims(content) {
        Option::None => r is Err && r->Err_0 is Decode,
        Option::Some(dims) => {
            if dims.0 == 0 || dims.1 == 0 {
                r is Err && r->Err_0 is Decode
            } else {
                let t = spec_thumbnail_dims(dims.0, dims.1, max_size);
                match thumb_payload(content, t.0, t.1, encode_format(fmt)) {
                    Option::Some(p) => r is Ok && r->Ok_0@ == spec_data_uri(
                        mime_of_format(fmt),
                        b64_encoding(p),
                    ),
                    Option::None => r is Err && r->Err_0 is Decode,
                }
            }
        },
    }
}

/// Scales decodable image content to the thumbnail geometry and re-encodes
/// it in the re-encoded form of `fmt`, labeling the data URI with that
/// form's MIME name.
pub fn render_scaled(content: &[u8], fmt: ImgFormat, max_size: u32) -> (r: Result<
    String,
    StorageError,
>)
    ensures
        spec_render_outcome(content@, fmt, max_size, r),
{
    let (w, h) = match decode_dims(content) {
        Ok(d) => d,
        Err(m) => {
            return Err(StorageError::Decode(m));
        },
    };
    if w == 0 || h == 0 {
        return Err(StorageError::Decode(String::from_str("image reports an empty dimension")));
    }
    let dims = thumbnail_dimensions(w, h, max_size);
    let enc = match fmt {
        ImgFormat::Png => ImgFormat::Png,
        ImgFormat::Gif => ImgFormat::Gif,
        ImgFormat::WebP => ImgFormat::WebP,
        _ => ImgFormat::Jpeg,
    };
    let payload = match decode_resize_encode(content, dims.0, dims.1, enc) {
        Ok(p) => p,
        Err(m) => {
            return Err(StorageError::Decode(m));
        },
    };
    Ok(data_uri(format_mime(fmt), payload.as_slice()))
}

/// What thumbnailing arbitrary bytes without filename context must yield:
/// content whose magic bytes announce no container comes back unresized
/// under `application/octet-stream`; content that announces one but does
/// not decode comes back unresized under that container's best-guess MIME
/// name; decodable content is scaled and re-encoded per
/// [`spec_render_outcome`].
pub open spec fn spec_thumbnail_outcome(
    content: Seq<u8>,
    max_size: u32,
    r: Result<String, StorageError>,
) -> bool {
    match magic_format(content) {
        Option::None => r is Ok && r->Ok_0@ == spec_data_uri(
            "application/octet-stream"@,
            b64_encoding(content),
        ),
        Option::Some(f) => {
            if img_dims(content) is None {
                r is Ok && r->Ok_0@ == spec_data_uri(raw_mime_of_format(f), b64_encoding(content))
            } else {
                spec_render_outcome(content, f, max_size, r)
            }
        },
    }
}

/// Builds a thumbnail from raw bytes, judging the container from the
/// magic bytes rather than any filename: how the Shell-Git backend
/// thumbnails content resolved without filename context. Content that is
/// not a decodable image comes back as an unresized inline payload with a
/// best-guess MIME name.
pub fn thumbnail_from_bytes(content: &[u8], max_size: u32) -> (r: Result<String, StorageError>)
    ensures
        spec_thumbnail_outcome(content@, max_size, r),
{
    let fmt = match guess_image_format(content) {
        Ok(f) => f,
        Err(_) => {
            return Ok(data_uri("application/octet-stream", content));
        },
    };
    match decode_dims(content) {
        Ok(_) => render_scaled(content, fmt, max_size),
        Err(_) => Ok(data_uri(raw_format_mime(fmt), content)),
    }
}

} // verus!
