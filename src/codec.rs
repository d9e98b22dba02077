//! The thumbnail codec: target geometry, and decode, resample and encode
//! through the image and fast_image_resize crates.

use vstd::prelude::*;
use vstd::string::StringExecFns;

verus! {

/// Why a thumbnail could not be produced. Each carries a human-readable
/// reason.
#[derive(Clone, Debug, PartialEq, Eq)]
pub enum CodecError {
    /// The source is unreadable, corrupt or of an unsupported format.
    Decode(String),
    /// The geometry is degenerate (a zero side, a zero target) or resampling
    /// failed.
    Resize(String),
    /// The resampled image could not be encoded or written.
    Encode(String),
}

impl CodecError {
    /// The text of the error, as recorded in a catalog row's `last_error`.
    pub open spec fn text(&self) -> Seq<char> {
        match self {
            CodecError::Decode(m) => decode_prefix() + m@,
            CodecError::Resize(m) => resize_prefix() + m@,
            CodecError::Encode(m) => encode_prefix() + m@,
        }
    }

    /// Human-readable description; never empty.
    pub fn describe(&self) -> (r: String)
        ensures
            r@ == self.text(),
            r@.len() > 0,
    {
        let (mut r, m) = match self {
            CodecError::Decode(m) => (String::from_str("decode error: "), m),
            CodecError::Resize(m) => (String::from_str("resize error: "), m),
            CodecError::Encode(m) => (String::from_str("encode error: "), m),
        };
        proof {
            reveal_strlit("decode error: ");
            reveal_strlit("resize error: ");
            reveal_strlit("encode error: ");
        }
        r.append(m.as_str());
        r
    }
}

pub open spec fn decode_prefix() -> Seq<char> {
    seq!['d', 'e', 'c', 'o', 'd', 'e', ' ', 'e', 'r', 'r', 'o', 'r', ':', ' ']
}

pub open spec fn resize_prefix() -> Seq<char> {
    seq!['r', 'e', 's', 'i', 'z', 'e', ' ', 'e', 'r', 'r', 'o', 'r', ':', ' ']
}

pub open spec fn encode_prefix() -> Seq<char> {
    seq!['e', 'n', 'c', 'o', 'd', 'e', ' ', 'e', 'r', 'r', 'o', 'r', ':', ' ']
}

/// `a / b` rounded to the nearest integer, halves upwards.
pub open spec fn rounded_div(a: nat, b: nat) -> nat
    recommends
        b > 0,
{
    ((2 * a + b) / (2 * b)) as nat
}

/// The thumbnail dimensions for a `width` x `height` source and a target
/// size: the longer side becomes `target`, the other keeps the aspect ratio,
/// rounded to the nearest integer and at least 1.
pub open spec fn thumbnail_dims(width: nat, height: nat, target: nat) -> (nat, nat) {
    if width > height {
        (target, vstd::math::max(1, rounded_div(target * height, width) as int) as nat)
    } else {
        (vstd::math::max(1, rounded_div(target * width, height) as int) as nat, target)
    }
}

/// Whether a geometry is degenerate: a zero side or a zero target.
pub open spec fn degenerate(width: nat, height: nat, target: nat) -> bool {
    width == 0 || height == 0 || target == 0
}

fn scaled_side(target: u32, short: u32, long: u32) -> (r: u32)
    requires
        0 < short <= long,
        target > 0,
    ensures
        r as nat == vstd::math::max(1, rounded_div(target as nat * short as nat, long as nat) as int),
        1 <= r <= target,
{
    assert((target as int) * (short as int) <= 0xffff_ffff * 0xffff_ffff) by (nonlinear_arith)
        requires
            target <= 0xffff_ffff,
            short <= 0xffff_ffff,
    ;
    let ts: u128 = (target as u128) * (short as u128);
    let num: u128 = 2 * ts + long as u128;
    let den: u128 = 2 * (long as u128);
    let q: u128 = num / den;
    proof {
        let t = target as int;
        let s = short as int;
        let l = long as int;
        assert(ts as int == t * s);
        assert(num as int == 2 * (t * s) + l);
        assert(den as int == 2 * l);
        assert(2 * (t * s) + l <= 2 * t * l + l) by (nonlinear_arith)
            requires s <= l, t > 0;
        assert(2 * t * l + l < (t + 1) * (2 * l)) by (nonlinear_arith)
            requires l > 0;
        assert(q as int <= t) by (nonlinear_arith)
            requires
                q as int == (2 * (t * s) + l) / (2 * l),
                2 * (t * s) + l < (t + 1) * (2 * l),
                l > 0;
    }
    if q == 0 {
        1
    } else {
        q as u32
    }
}

/// The thumbnail dimensions for a `width` x `height` source, or `Resize`
/// exactly when the geometry is degenerate. The longer side of the result
/// equals `target`.
pub fn thumbnail_size(width: u32, height: u32, target: u32) -> (r: Result<(u32, u32), CodecError>)
    ensures
        degenerate(width as nat, height as nat, target as nat) <==> r is Err,
        r is Err ==> r->Err_0 is Resize,
        r is Ok ==> ((r->Ok_0.0 as nat, r->Ok_0.1 as nat) == thumbnail_dims(
            width as nat,
            height as nat,
            target as nat,
        )),
        r is Ok ==> vstd::math::max(r->Ok_0.0 as int, r->Ok_0.1 as int) == target,
        r is Ok ==> r->Ok_0.0 >= 1 && r->Ok_0.1 >= 1,
{
    if width == 0 || height == 0 || target == 0 {
        return Err(CodecError::Resize(String::from_str("degenerate dimensions")));
    }
    if width > height {
        Ok((target, scaled_side(target, height, width)))
    } else {
        Ok((scaled_side(target, width, height), target))
    }
}

/// The RGBA8 pixels that decoding `bytes` gives, with their width and
/// height, or `None` where the bytes are no image of a supported format.
pub uninterp spec fn decoded_rgba(bytes: Seq<u8>) -> Option<(u32, u32, Seq<u8>)>;

/// The WebP encoding of a `width` x `height` RGBA8 image, or `None` where the
/// encoder refuses it.
pub uninterp spec fn webp_encoding(width: u32, height: u32, pixels: Seq<u8>) -> Option<Seq<u8>>;

/// Relies on image::load_from_memory and DynamicImage::to_rgba8: the format
/// is guessed from the bytes, the image decoded and converted to RGBA8, whose
/// raw buffer holds four bytes per pixel.
#[verifier::external_body]
fn decode_rgba(bytes: &[u8]) -> (r: Result<(u32, u32, Vec<u8>), String>)
    ensures
        r is Ok <==> decoded_rgba(bytes@) is Some,
        r is Ok ==> decoded_rgba(bytes@) == Some((r->Ok_0.0, r->Ok_0.1, r->Ok_0.2@)),
        r is Ok ==> r->Ok_0.2@.len() >= 4 * r->Ok_0.0 * r->Ok_0.1,
{
    match image::load_from_memory(bytes) {
        Ok(img) => {
            let rgba = img.to_rgba8();
            Ok((rgba.width(), rgba.height(), rgba.into_raw()))
        },
        Err(e) => Err(e.to_string()),
    }
}

/// Relies on fast_image_resize's Image::from_vec_u8, Image::new and
/// Resizer::resize: the source view is accepted when the buffer holds four
/// bytes per pixel (byte pixels need no alignment), both images share one
/// pixel type and no crop is asked for, so resizing succeeds; the
/// destination is allocated with four bytes per pixel of the new size and
/// filled by the resampler.
#[verifier::external_body]
fn resample_rgba(width: u32, height: u32, pixels: Vec<u8>, new_width: u32, new_height: u32) -> (r: Result<Vec<u8>, String>)
    requires
        4 * width * height <= pixels@.len(),
        4 * new_width * new_height <= usize::MAX,
    ensures
        r is Ok,
        r is Ok ==> r->Ok_0@.len() == 4 * new_width * new_height,
{
    let src = fast_image_resize::images::Image::from_vec_u8(
        width,
        height,
        pixels,
        fast_image_resize::PixelType::U8x4,
    ).map_err(|e| e.to_string())?;
    let mut dst = fast_image_resize::images::Image::new(new_width, new_height, fast_image_resize::PixelType::U8x4);
    fast_image_resize::Resizer::new().resize(&src, &mut dst, None).map_err(|e| e.to_string())?;
    Ok(dst.into_vec())
}

/// Relies on image's RgbaImage::from_raw and ImageBuffer::write_to with
/// ImageFormat::WebP: the pixels are framed as an RGBA8 image and encoded
/// into memory. from_raw accepts a buffer of at least four bytes per pixel
/// and the encoder takes exactly that many; image-webp refuses only sides of
/// 0 or above 16384, and writes a RIFF header before it succeeds.
#[verifier::external_body]
fn encode_webp(width: u32, height: u32, pixels: Vec<u8>) -> (r: Result<Vec<u8>, String>)
    ensures
        r is Ok <==> webp_encoding(width, height, pixels@) is Some,
        r is Ok ==> webp_encoding(width, height, pixels@) == Some(r->Ok_0@),
        1 <= width <= MAX_WEBP_SIDE && 1 <= height <= MAX_WEBP_SIDE && pixels@.len() >= 4 * width
            * height ==> r is Ok,
        r is Ok ==> r->Ok_0@.len() > 0,
{
    let img = image::RgbaImage::from_raw(width, height, pixels).ok_or_else(|| "pixel buffer too small".to_string())?;
    let mut out = std::io::Cursor::new(Vec::new());
    img.write_to(&mut out, image::ImageFormat::WebP).map_err(|e| e.to_string())?;
    Ok(out.into_inner())
}

/// The longest side, in pixels, that the WebP format can hold.
pub const MAX_WEBP_SIDE: u32 = 16384;

/// An encoded thumbnail and its dimensions.
pub struct Thumbnail {
    pub width: u32,
    pub height: u32,
    /// The encoded WebP bytes.
    pub bytes: Vec<u8>,
}

/// What `render_thumbnail` owes for a source whose decoding gave `width`,
/// `height` and some pixels: its dimensions are those of `thumbnail_dims`,
/// and its bytes are the WebP encoding of a resampled image of that size.
pub open spec fn rendered_from(t: &Thumbnail, width: u32, height: u32, target: u32) -> bool {
    &&& (t.width as nat, t.height as nat) == thumbnail_dims(width as nat, height as nat, target as nat)
    &&& t.bytes@.len() > 0
    &&& exists|px: Seq<u8>|
        px.len() == 4 * t.width * t.height && #[trigger] webp_encoding(t.width, t.height, px) == Some(
            t.bytes@,
        )
}

/// Decodes `source`, scales it so that its longer side is `target`, and
/// encodes the result as non-empty WebP bytes. `Decode` comes exactly when
/// the bytes are no supported image, `Resize` exactly on a degenerate
/// geometry; any other image succeeds for a target up to `MAX_WEBP_SIDE`. A
/// larger target may give `Encode`, as WebP cannot hold such a side.
pub fn render_thumbnail(source: &[u8], target: u32) -> (r: Result<Thumbnail, CodecError>)
    requires
        4 * target * target <= usize::MAX,
    ensures
        decoded_rgba(source@) is None <==> (r is Err && r->Err_0 is Decode),
        match decoded_rgba(source@) {
            None => true,
            Some((w, h, _)) => {
                &&& degenerate(w as nat, h as nat, target as nat) <==> (r is Err && r->Err_0 is Resize)
                &&& !degenerate(w as nat, h as nat, target as nat) && target <= MAX_WEBP_SIDE ==> r is Ok
                &&& r is Err ==> !(r->Err_0 is Encode) || target > MAX_WEBP_SIDE
                &&& r is Ok ==> rendered_from(&r->Ok_0, w, h, target)
            },
        },
{
    let (width, height, pixels) = match decode_rgba(source) {
        Ok(d) => d,
        Err(m) => return Err(CodecError::Decode(m)),
    };
    let (new_width, new_height) = match thumbnail_size(width, height, target) {
        Ok(d) => d,
        Err(e) => return Err(e),
    };
    assert(4 * new_width * new_height <= 4 * target * target) by (nonlinear_arith)
        requires
            new_width <= target,
            new_height <= target,
    ;
    let resampled = match resample_rgba(width, height, pixels, new_width, new_height) {
        Ok(p) => p,
        Err(m) => return Err(CodecError::Resize(m)),
    };
    let ghost px = resampled@;
    match encode_webp(new_width, new_height, resampled) {
        Ok(bytes) => {
            let t = Thumbnail { width: new_width, height: new_height, bytes };
            assert(webp_encoding(t.width, t.height, px) == Some(t.bytes@));
            Ok(t)
        },
        Err(m) => Err(CodecError::Encode(m)),
    }
}

} // verus!
