//! Rendering of the text code as a QR image, and compositing onto a
//! frame.
//!
//! The raster work itself is done by outside image routines; this
//! module holds the verified geometry (target sizes and centering
//! offsets) and tracks the pixel dimensions of every image that flows
//! through the pipeline. Success is owed wherever the outside routines
//! fail only as a deterministic function of their input: whether a
//! code fits a QR symbol and whether bytes decode as an image are
//! named, and the rendering functions promise `Ok` under those names.

use vstd::prelude::*;
use vstd::utf8::encode_utf8;

use crate::errors::{ImageFault, PayBySquareError};

verus! {

#[verifier::external_type_specification]
#[verifier::external_body]
pub struct ExDynamicImage(image::DynamicImage);

#[verifier::external_type_specification]
#[verifier::external_body]
pub struct ExQrCode(qrcode::QrCode);

/// A decoded raster image together with its pixel dimensions and
/// whether it is already in eight-bit RGBA form. The fields are
/// private: only the trusted wrappers of this module build a
/// `Raster`, so the recorded dimensions always match the image.
pub struct Raster {
    width: u32,
    height: u32,
    rgba: bool,
    img: image::DynamicImage,
}

/// The pixel dimensions an outside decoder reads from an encoded
/// image; a function of the bytes alone.
pub uninterp spec fn png_dims_of(b: Seq<u8>) -> (nat, nat);

/// Whether an outside decoder accepts the bytes as an image; a
/// function of the bytes alone.
pub uninterp spec fn png_decodable(b: Seq<u8>) -> bool;

/// The eight-bit RGBA pixel bytes an outside decoder reads from an
/// encoded image, row by row; a function of the bytes alone.
pub uninterp spec fn png_content_of(b: Seq<u8>) -> Seq<u8>;

/// Whether the bytes fit into some QR symbol version; a function of
/// the bytes alone.
pub uninterp spec fn qr_encodable(data: Seq<u8>) -> bool;

/// Relies on `qrcode::QrCode::new`: builds a QR symbol at the default
/// error-correction level, failing exactly when the data is too long
/// for every QR version — a deterministic function of the bytes.
#[verifier::external_body]
fn qr_encode(code: &str) -> (r: Result<qrcode::QrCode, PayBySquareError>)
    ensures
        r is Ok <==> qr_encodable(encode_utf8(code@)),
        r matches Err(e) ==> e == PayBySquareError::QrError,
{
    match qrcode::QrCode::new(code.as_bytes()) {
        Ok(q) => Ok(q),
        Err(_) => Err(PayBySquareError::QrError),
    }
}

/// Relies on `qrcode`'s renderer with its default settings: the built
/// bitmap is square and at least one pixel wide.
#[verifier::external_body]
fn qr_to_raster(qr: &qrcode::QrCode) -> (r: Raster)
    ensures
        r.width == r.height,
        r.width >= 1,
{
    let buf = qr.render::<image::Luma<u8>>().build();
    let width = buf.width();
    let height = buf.height();
    Raster { width, height, rgba: false, img: image::DynamicImage::ImageLuma8(buf) }
}

/// Relies on `image::DynamicImage::resize_exact` with the
/// nearest-neighbor filter: the result has exactly the asked-for
/// dimensions and keeps the pixel form. The target buffer holds at
/// most 16 bytes per pixel, so its byte count must fit in `usize`.
#[verifier::external_body]
fn resize_nearest(r: &Raster, width: u32, height: u32) -> (res: Raster)
    requires
        16 * (width as int) * (height as int) <= usize::MAX as int,
    ensures
        res.width == width,
        res.height == height,
        res.rgba == r.rgba,
{
    let img = r.img.resize_exact(width, height, image::imageops::FilterType::Nearest);
    Raster { width, height, rgba: r.rgba, img }
}

/// Relies on `image::DynamicImage::to_rgba8`: converts to a
/// full-color-with-alpha raster of the same dimensions. The RGBA
/// buffer takes four bytes per pixel, so its byte count must fit in
/// `usize`.
#[verifier::external_body]
fn to_rgba(r: &Raster) -> (res: Raster)
    requires
        4 * (r.width as int) * (r.height as int) <= usize::MAX as int,
    ensures
        res.width == r.width,
        res.height == r.height,
        res.rgba,
{
    Raster {
        width: r.width,
        height: r.height,
        rgba: true,
        img: image::DynamicImage::ImageRgba8(r.img.to_rgba8()),
    }
}

/// Relies on `image::DynamicImage::write_to` with the PNG format: an
/// eight-bit RGBA image of nonzero, moderate dimensions always
/// encodes; a successful encoding is non-empty, stores the image's
/// own dimensions, and (when small enough for the decoder's default
/// allocation budget) decodes again.
#[verifier::external_body]
fn png_encode(r: &Raster) -> (res: Result<Vec<u8>, PayBySquareError>)
    ensures
        res matches Ok(v) ==> v@.len() > 0 && png_dims_of(v@) == (r.width as nat, r.height as nat),
        res matches Err(e) ==> e == PayBySquareError::ImageError(ImageFault::Encode),
        (r.rgba && 1 <= r.width <= 0x2000_0000 && 1 <= r.height <= 0x2000_0000) ==> res is Ok,
        4 * (r.width as int) * (r.height as int) <= 0x1000_0000 ==> (res matches Ok(v)
            ==> png_decodable(v@)),
{
    let mut png_data: Vec<u8> = Vec::new();
    let out = r.img.write_to(&mut std::io::Cursor::new(&mut png_data), image::ImageFormat::Png);
    match out {
        Ok(()) => Ok(png_data),
        Err(_) => Err(PayBySquareError::ImageError(ImageFault::Encode)),
    }
}

/// Relies on `image::load_from_memory`: decoding succeeds exactly when
/// the bytes form an image the decoder accepts — a deterministic
/// function of the bytes — and then carries exactly the dimensions
/// stored in them; on failure the given fault is reported.
#[verifier::external_body]
fn png_decode(data: &[u8], fault: ImageFault) -> (res: Result<Raster, PayBySquareError>)
    ensures
        res is Ok <==> png_decodable(data@),
        res matches Ok(r) ==> (r.width as nat, r.height as nat) == png_dims_of(data@),
        res matches Err(e) ==> e == PayBySquareError::ImageError(fault),
{
    match image::load_from_memory(data) {
        Ok(img) => {
            let width = img.width();
            let height = img.height();
            let rgba = matches!(img, image::DynamicImage::ImageRgba8(_));
            Ok(Raster { width, height, rgba, img })
        },
        Err(_) => Err(PayBySquareError::ImageError(fault)),
    }
}

/// Relies on `image::imageops::overlay`: alpha-composites the top
/// image onto the frame at the given offset, clipping out-of-range
/// regions; the result is an RGBA image with the frame's dimensions.
/// The frame's RGBA copy takes four bytes per pixel.
#[verifier::external_body]
fn composite(frame: &Raster, top: &Raster, x: u32, y: u32) -> (res: Raster)
    requires
        4 * (frame.width as int) * (frame.height as int) <= usize::MAX as int,
    ensures
        res.width == frame.width,
        res.height == frame.height,
        res.rgba,
{
    let mut base = frame.img.to_rgba8();
    image::imageops::overlay(&mut base, &top.img, x as i64, y as i64);
    Raster {
        width: frame.width,
        height: frame.height,
        rgba: true,
        img: image::DynamicImage::ImageRgba8(base),
    }
}

/// Relies on `image::RgbaImage::from_raw` and PNG encoding: a raw
/// buffer of exactly `4 * width * height` bytes becomes an image of
/// those dimensions; with nonzero, moderate dimensions the encoding
/// always succeeds, decodes back to those dimensions, and (when small
/// enough for the decoder's default allocation budget) to exactly the
/// same RGBA bytes, since eight-bit RGBA PNG is lossless.
#[verifier::external_body]
fn encode_rgba_pixels(width: u32, height: u32, pixels: Vec<u8>) -> (res: Result<
    Vec<u8>,
    PayBySquareError,
>)
    requires
        pixels@.len() == 4 * width * height,
    ensures
        res matches Ok(v) ==> v@.len() > 0 && png_dims_of(v@) == (width as nat, height as nat),
        res matches Err(e) ==> e == PayBySquareError::ImageError(ImageFault::Encode),
        (1 <= width <= 0x2000_0000 && 1 <= height <= 0x2000_0000) ==> res is Ok,
        4 * (width as int) * (height as int) <= 0x1000_0000 ==> (res matches Ok(v)
            ==> png_decodable(v@) && png_content_of(v@) == pixels@),
{
    let img: image::RgbaImage = match image::ImageBuffer::from_raw(width, height, pixels) {
        Some(b) => b,
        None => {
            return Err(PayBySquareError::ImageError(ImageFault::Encode));
        },
    };
    let mut png_data: Vec<u8> = Vec::new();
    let out = image::DynamicImage::ImageRgba8(img).write_to(
        &mut std::io::Cursor::new(&mut png_data),
        image::ImageFormat::Png,
    );
    match out {
        Ok(()) => Ok(png_data),
        Err(_) => Err(PayBySquareError::ImageError(ImageFault::Encode)),
    }
}

/// The side of the QR square inside a frame: 85 percent of the
/// frame's smaller dimension, rounded down.
pub open spec fn inner_qr_size(fw: int, fh: int) -> int {
    (if fw < fh {
        fw
    } else {
        fh
    }) * 85 / 100
}

/// Computes the QR side for a frame: 85 percent of the smaller frame
/// dimension, rounded down.
pub fn frame_inner_size(fw: u32, fh: u32) -> (r: u32)
    ensures
        r as int == inner_qr_size(fw as int, fh as int),
        r <= fw,
        r <= fh,
{
    let m: u32 = if fw < fh {
        fw
    } else {
        fh
    };
    let inner: u64 = (m as u64) * 85 / 100;
    proof {
        assert((m as int) * 85 / 100 <= m as int) by (nonlinear_arith);
        assert(inner == (m as int) * 85 / 100);
    }
    inner as u32
}

/// A frame the compositor accepts: its bytes decode, its raster
/// buffers fit in a machine word, and its inner QR square is at
/// least one pixel.
pub open spec fn frame_compositable(f: Seq<u8>) -> bool {
    let fw = png_dims_of(f).0 as int;
    let fh = png_dims_of(f).1 as int;
    let inner = inner_qr_size(fw, fh);
    &&& png_decodable(f)
    &&& fw <= 0x2000_0000
    &&& fh <= 0x2000_0000
    &&& 16 * inner * inner <= usize::MAX as int
    &&& 4 * fw * fh <= usize::MAX as int
    &&& inner >= 1
}

/// Computes the offset that centers a square of side `inner` in a
/// span of length `total`.
pub fn center_offset(total: u32, inner: u32) -> (r: u32)
    requires
        inner <= total,
    ensures
        r as int == (total - inner) / 2,
{
    (total - inner) / 2
}

/// Renders the code text as a square QR image: build the symbol,
/// rasterize, resize to `size` by `size`, convert to RGBA and encode
/// as PNG. Succeeds whenever the code fits a QR symbol and the size
/// is at least one pixel; a code too long for every QR version is the
/// QR-generation failure.
pub fn generate_qr_image(code: &str, size: u32) -> (r: Result<Vec<u8>, PayBySquareError>)
    requires
        16 * (size as int) * (size as int) <= usize::MAX as int,
    ensures
        r matches Ok(v) ==> v@.len() > 0 && png_dims_of(v@) == (size as nat, size as nat),
        r matches Err(e) ==> e == PayBySquareError::QrError || e == PayBySquareError::ImageError(
            ImageFault::Encode,
        ),
        !qr_encodable(encode_utf8(code@)) ==> r == Err::<Vec<u8>, PayBySquareError>(
            PayBySquareError::QrError,
        ),
        (qr_encodable(encode_utf8(code@)) && 1 <= size <= 0x2000_0000) ==> r is Ok,
        4 * (size as int) * (size as int) <= 0x1000_0000 ==> (r matches Ok(v) ==> png_decodable(
            v@,
        )),
{
    let qr = match qr_encode(code) {
        Ok(q) => q,
        Err(e) => {
            return Err(e);
        },
    };
    let raster = qr_to_raster(&qr);
    proof {
        assert(4 * (size as int) * (size as int) <= 16 * (size as int) * (size as int))
            by (nonlinear_arith);
    }
    let resized = resize_nearest(&raster, size, size);
    let rgba = to_rgba(&resized);
    png_encode(&rgba)
}

/// Overlays the QR image onto a frame, centered and scaled to 85
/// percent of the frame's smaller dimension; without frame bytes the
/// QR image passes through unchanged. The two decode failures are
/// reported apart; with both inputs decodable and a frame of sane
/// dimensions whose inner square is at least one pixel, compositing
/// succeeds.
pub fn add_frame(qr_data: Vec<u8>, frame_data: Option<&[u8]>) -> (r: Result<
    Vec<u8>,
    PayBySquareError,
>)
    ensures
        frame_data is None ==> (r matches Ok(v) && v@ == qr_data@),
        frame_data matches Some(f) ==> (r matches Ok(v) ==> v@.len() > 0 && png_dims_of(v@)
            == png_dims_of(f@)),
        r matches Err(e) ==> e matches PayBySquareError::ImageError(_),
        frame_data is Some && !png_decodable(qr_data@) ==> r == Err::<Vec<u8>, PayBySquareError>(
            PayBySquareError::ImageError(ImageFault::SourceDecode),
        ),
        frame_data matches Some(f) ==> ((png_decodable(qr_data@) && !png_decodable(f@)) ==> r
            == Err::<Vec<u8>, PayBySquareError>(PayBySquareError::ImageError(
            ImageFault::FrameDecode,
        ))),
        frame_data matches Some(f) ==> ((png_decodable(qr_data@) && frame_compositable(f@)) ==> r
            is Ok),
{
    let frame_bytes = match frame_data {
        Some(d) => d,
        None => {
            return Ok(qr_data);
        },
    };
    let qr_img = match png_decode(qr_data.as_slice(), ImageFault::SourceDecode) {
        Ok(img) => img,
        Err(e) => {
            return Err(e);
        },
    };
    let frame_img = match png_decode(frame_bytes, ImageFault::FrameDecode) {
        Ok(img) => img,
        Err(e) => {
            return Err(e);
        },
    };
    // A frame so large that a raster buffer's byte count no longer
    // fits in a machine word cannot be composited; the underlying
    // rasterizer would panic there, so this library refuses it.
    if frame_img.width > 0x2000_0000 || frame_img.height > 0x2000_0000 {
        return Err(PayBySquareError::ImageError(ImageFault::FrameDecode));
    }
    let inner = frame_inner_size(frame_img.width, frame_img.height);
    let x = center_offset(frame_img.width, inner);
    let y = center_offset(frame_img.height, inner);
    proof {
        assert(16 * (inner as int) * (inner as int) <= 0x4000_0000_0000_0000) by (nonlinear_arith)
            requires
                0 <= inner as int <= 0x2000_0000,
        ;
        assert(4 * (frame_img.width as int) * (frame_img.height as int) <= 0x1000_0000_0000_0000)
            by (nonlinear_arith)
            requires
                0 <= frame_img.width as int <= 0x2000_0000,
                0 <= frame_img.height as int <= 0x2000_0000,
        ;
    }
    let resize_bytes: u64 = 16 * (inner as u64) * (inner as u64);
    let frame_bytes_rgba: u64 = 4 * (frame_img.width as u64) * (frame_img.height as u64);
    if resize_bytes > usize::MAX as u64 || frame_bytes_rgba > usize::MAX as u64 {
        return Err(PayBySquareError::ImageError(ImageFault::FrameDecode));
    }
    let qr_resized = resize_nearest(&qr_img, inner, inner);
    let result = composite(&frame_img, &qr_resized, x, y);
    png_encode(&result)
}

/// The RGBA bytes of one pixel of the default frame: a blue border
/// ten pixels thick around a white fill.
pub open spec fn frame_pixel_bytes(size: int, x: int, y: int) -> Seq<u8> {
    if x < 10 || x + 10 >= size || y < 10 || y + 10 >= size {
        seq![0u8, 102u8, 204u8, 255u8]
    } else {
        seq![255u8, 255u8, 255u8, 255u8]
    }
}

/// The full raw RGBA buffer of the default frame, row by row.
pub open spec fn frame_pixels(size: int) -> Seq<u8> {
    Seq::new((4 * size * size) as nat, |k: int| frame_pixel_bytes(size, (k / 4) % size, (k / 4) / size)[k % 4])
}

/// Each byte of the buffer belongs to the pixel at its row-major
/// position.
proof fn lemma_frame_pixel_index(size: int, x: int, y: int, c: int)
    requires
        0 <= x < size,
        0 <= y < size,
        0 <= c < 4,
    ensures
        0 <= 4 * (y * size + x) + c < 4 * size * size,
        frame_pixels(size)[4 * (y * size + x) + c] == frame_pixel_bytes(size, x, y)[c],
{
    let k = 4 * (y * size + x) + c;
    vstd::arithmetic::div_mod::lemma_fundamental_div_mod_converse(k, 4, y * size + x, c);
    vstd::arithmetic::div_mod::lemma_fundamental_div_mod_converse(y * size + x, size, y, x);
    assert(0 <= k < 4 * size * size) by (nonlinear_arith)
        requires
            0 <= x < size,
            0 <= y < size,
            0 <= c < 4,
            k == 4 * (y * size + x) + c,
    ;
}

/// Generates the default decorative frame: a white square with a blue
/// border ten pixels thick, encoded as PNG. Succeeds for every size
/// from one pixel up to the raster-buffer limit, and the PNG decodes
/// back to exactly that bordered square.
pub fn generate_default_frame(size: u32) -> (r: Result<Vec<u8>, PayBySquareError>)
    ensures
        r matches Ok(v) ==> v@.len() > 0 && png_dims_of(v@) == (size as nat, size as nat),
        r matches Err(e) ==> e == PayBySquareError::ImageError(ImageFault::Encode),
        1 <= size <= 0x2000_0000 ==> r is Ok,
        4 * (size as int) * (size as int) <= 0x1000_0000 ==> (r matches Ok(v) ==> png_decodable(
            v@,
        ) && png_content_of(v@) == frame_pixels(size as int)),
{
    let mut pixels: Vec<u8> = Vec::new();
    let ghost s = size as int;
    for y in 0..size
        invariant
            pixels@.len() == 4 * ((y as int) * s),
            pixels@ == frame_pixels(s).take(4 * ((y as int) * s)),
            s == size as int,
    {
        for x in 0..size
            invariant
                pixels@.len() == 4 * ((y as int) * s + x),
                pixels@ == frame_pixels(s).take(4 * ((y as int) * s + x)),
                s == size as int,
                y < size,
        {
            let border: bool = x < 10 || x as u64 + 10 >= size as u64 || y < 10 || y as u64 + 10
                >= size as u64;
            if border {
                pixels.push(0);
                pixels.push(102);
                pixels.push(204);
                pixels.push(255);
            } else {
                pixels.push(255);
                pixels.push(255);
                pixels.push(255);
                pixels.push(255);
            }
            proof {
                let xi = x as int;
                let yi = y as int;
                lemma_frame_pixel_index(s, xi, yi, 0);
                lemma_frame_pixel_index(s, xi, yi, 1);
                lemma_frame_pixel_index(s, xi, yi, 2);
                lemma_frame_pixel_index(s, xi, yi, 3);
                assert(border == (xi < 10 || xi + 10 >= s || yi < 10 || yi + 10 >= s));
                assert(frame_pixels(s).len() == 4 * s * s);
                assert(pixels@ =~= frame_pixels(s).take(4 * (yi * s + xi) + 4));
                assert(4 * (yi * s + xi) + 4 == 4 * (yi * s + (xi + 1)));
            }
        }
        proof {
            let yi = y as int;
            assert((yi + 1) * s == yi * s + s) by (nonlinear_arith);
        }
    }
    proof {
        assert(4 * (s * s) == 4 * s * s) by (nonlinear_arith);
        assert(frame_pixels(s).len() == 4 * s * s);
        assert(pixels@ =~= frame_pixels(s));
    }
    encode_rgba_pixels(size, size, pixels)
}

} // verus!
