//! Screen captures as image artifacts: the screen's BGRA pixels reordered
//! for the image encoder, PNG or JPEG encoding by the `image` crate, and the
//! artifact the encoded bytes make.
use image::ImageEncoder;
use vstd::prelude::*;

use crate::platform::BackendArtifact;
use crate::protocol::CaptureFormat;

verus! {

/// The bytes `image`'s PNG encoder writes for RGBA pixels of the given
/// size, or none when it refuses them.
pub uninterp spec fn png_encoding(rgba: Seq<u8>, width: u32, height: u32) -> Option<Seq<u8>>;

/// The bytes `image`'s JPEG encoder at quality 90 writes for RGB pixels
/// of the given size, or none when it refuses them.
pub uninterp spec fn jpeg_encoding(rgb: Seq<u8>, width: u32, height: u32) -> Option<Seq<u8>>;

/// Calls `image::codecs::png::PngEncoder::new(..).write_image(rgba, width,
/// height, Rgba8)` into a byte vector. The encoder panics unless the buffer
/// holds exactly `width * height` pixels, hence the `requires`. The bytes
/// (or the refusal) are only named, and are a function of the pixels and
/// the size.
#[verifier::external_body]
fn encode_png(rgba: &Vec<u8>, width: u32, height: u32) -> (r: Option<Vec<u8>>)
    requires
        rgba@.len() == width as int * height as int * 4,
    ensures
        match r {
            Some(b) => png_encoding(rgba@, width, height) == Some(b@),
            None => png_encoding(rgba@, width, height) is None,
        },
{
    let mut bytes = Vec::new();
    match image::codecs::png::PngEncoder::new(&mut bytes).write_image(rgba, width, height, image::ExtendedColorType::Rgba8) {
        Ok(()) => Some(bytes),
        Err(_) => None,
    }
}

/// Calls `image::codecs::jpeg::JpegEncoder::new_with_quality(.., 90)
/// .encode(rgb, width, height, Rgb8)` into a byte vector. The encoder panics
/// unless the buffer holds exactly `width * height` pixels, hence the
/// `requires`. The bytes (or the refusal, as for a size beyond 65535) are
/// only named, and are a function of the pixels and the size.
#[verifier::external_body]
fn encode_jpeg(rgb: &Vec<u8>, width: u32, height: u32) -> (r: Option<Vec<u8>>)
    requires
        rgb@.len() == width as int * height as int * 3,
    ensures
        match r {
            Some(b) => jpeg_encoding(rgb@, width, height) == Some(b@),
            None => jpeg_encoding(rgb@, width, height) is None,
        },
{
    let mut bytes = Vec::new();
    match image::codecs::jpeg::JpegEncoder::new_with_quality(&mut bytes, 90).encode(rgb, width, height, image::ExtendedColorType::Rgb8) {
        Ok(()) => Some(bytes),
        Err(_) => None,
    }
}

/// BGRA pixels as RGBA: each whole four-byte pixel with blue and red
/// swapped and full opacity; a trailing partial pixel is dropped.
pub open spec fn bgra_to_rgba(p: Seq<u8>) -> Seq<u8> {
    Seq::new(
        (p.len() / 4) * 4,
        |i: int|
            {
                let k = i / 4;
                let c = i % 4;
                if c == 0 {
                    p[4 * k + 2]
                } else if c == 1 {
                    p[4 * k + 1]
                } else if c == 2 {
                    p[4 * k]
                } else {
                    255u8
                }
            },
    )
}

/// RGBA pixels as RGB: each whole four-byte pixel without its alpha.
pub open spec fn rgba_to_rgb(p: Seq<u8>) -> Seq<u8> {
    Seq::new((p.len() / 4) * 3, |i: int| p[4 * (i / 3) + i % 3])
}

/// Reorders BGRA pixels as RGBA (see `bgra_to_rgba`).
pub fn bgra_pixels_to_rgba(pixels: &Vec<u8>) -> (r: Vec<u8>)
    ensures
        r@ == bgra_to_rgba(pixels@),
{
    let n = pixels.len() / 4;
    let mut out: Vec<u8> = Vec::new();
    let mut k: usize = 0;
    while k < n
        invariant
            n == pixels@.len() / 4,
            4 * n <= pixels@.len() <= usize::MAX,
            k <= n,
            out@.len() == 4 * k,
            forall|i: int| 0 <= i < 4 * k ==> #[trigger] out@[i] == bgra_to_rgba(pixels@)[i],
        decreases n - k,
    {
        let b = pixels[4 * k];
        let g = pixels[4 * k + 1];
        let r = pixels[4 * k + 2];
        out.push(r);
        out.push(g);
        out.push(b);
        out.push(255);
        proof {
            assert forall|i: int| 4 * k <= i < 4 * k + 4 implies #[trigger] out@[i] == bgra_to_rgba(pixels@)[i] by {
                assert(i / 4 == k);
            }
        }
        k = k + 1;
    }
    assert(out@ =~= bgra_to_rgba(pixels@));
    out
}

/// Drops the alpha of RGBA pixels (see `rgba_to_rgb`).
pub fn rgba_pixels_to_rgb(pixels: &Vec<u8>) -> (r: Vec<u8>)
    ensures
        r@ == rgba_to_rgb(pixels@),
{
    let n = pixels.len() / 4;
    let mut out: Vec<u8> = Vec::new();
    let mut k: usize = 0;
    while k < n
        invariant
            n == pixels@.len() / 4,
            4 * n <= pixels@.len() <= usize::MAX,
            k <= n,
            out@.len() == 3 * k,
            forall|i: int| 0 <= i < 3 * k ==> #[trigger] out@[i] == rgba_to_rgb(pixels@)[i],
        decreases n - k,
    {
        out.push(pixels[4 * k]);
        out.push(pixels[4 * k + 1]);
        out.push(pixels[4 * k + 2]);
        proof {
            assert forall|i: int| 3 * k <= i < 3 * k + 3 implies #[trigger] out@[i] == rgba_to_rgb(pixels@)[i] by {
                assert(i / 3 == k);
            }
        }
        k = k + 1;
    }
    assert(out@ =~= rgba_to_rgb(pixels@));
    out
}

/// The artifact encoded bytes make: `screenshot-png` as `image/png` or
/// `screenshot-jpeg` as `image/jpeg`; a refused encoding is an error.
pub open spec fn capture_artifact_of(format: CaptureFormat, encoded: Option<Seq<u8>>) -> Result<
    (Seq<char>, Seq<char>, Seq<u8>),
    Seq<char>,
> {
    match (format, encoded) {
        (CaptureFormat::Png, Some(b)) => Ok(("screenshot-png"@, "image/png"@, b)),
        (CaptureFormat::Jpeg, Some(b)) => Ok(("screenshot-jpeg"@, "image/jpeg"@, b)),
        (CaptureFormat::Png, None) => Err("failed to encode PNG screenshot"@),
        (CaptureFormat::Jpeg, None) => Err("failed to encode JPEG screenshot"@),
    }
}

/// The view of an artifact result.
pub open spec fn artifact_result_view(r: Result<BackendArtifact, String>) -> Result<(Seq<char>, Seq<char>, Seq<u8>), Seq<char>> {
    match r {
        Ok(a) => Ok((a.kind@, a.mime_type@, a.bytes@)),
        Err(m) => Err(m@),
    }
}

/// The artifact encoded bytes make (see `capture_artifact_of`).
pub fn capture_artifact(format: CaptureFormat, encoded: Option<Vec<u8>>) -> (r: Result<BackendArtifact, String>)
    ensures
        artifact_result_view(r) == capture_artifact_of(
            format,
            match encoded {
                Some(b) => Some(b@),
                None => None,
            },
        ),
{
    match (format, encoded) {
        (CaptureFormat::Png, Some(bytes)) => Ok(
            BackendArtifact { kind: String::from_str("screenshot-png"), mime_type: String::from_str("image/png"), bytes },
        ),
        (CaptureFormat::Jpeg, Some(bytes)) => Ok(
            BackendArtifact { kind: String::from_str("screenshot-jpeg"), mime_type: String::from_str("image/jpeg"), bytes },
        ),
        (CaptureFormat::Png, None) => Err(String::from_str("failed to encode PNG screenshot")),
        (CaptureFormat::Jpeg, None) => Err(String::from_str("failed to encode JPEG screenshot")),
    }
}

/// The encoding of captured BGRA pixels in a format: PNG of the RGBA
/// pixels, or JPEG of the RGB pixels.
pub open spec fn capture_encoding(pixels: Seq<u8>, width: u32, height: u32, format: CaptureFormat) -> Option<Seq<u8>> {
    match format {
        CaptureFormat::Png => png_encoding(bgra_to_rgba(pixels), width, height),
        CaptureFormat::Jpeg => jpeg_encoding(rgba_to_rgb(bgra_to_rgba(pixels)), width, height),
    }
}

/// The artifact of a screen capture of `width` by `height` BGRA pixels.
pub fn encode_capture_artifact(width: u32, height: u32, pixels: &Vec<u8>, format: CaptureFormat) -> (r: Result<
    BackendArtifact,
    String,
>)
    requires
        pixels@.len() == width as int * height as int * 4,
    ensures
        artifact_result_view(r) == capture_artifact_of(format, capture_encoding(pixels@, width, height, format)),
{
    let rgba = bgra_pixels_to_rgba(pixels);
    assert(rgba@.len() == pixels@.len());
    let encoded = match format {
        CaptureFormat::Png => encode_png(&rgba, width, height),
        CaptureFormat::Jpeg => {
            let rgb = rgba_pixels_to_rgb(&rgba);
            assert(rgb@.len() == width as int * height as int * 3);
            encode_jpeg(&rgb, width, height)
        },
    };
    capture_artifact(format, encoded)
}

} // verus!
