//! Turning a captured window into the image file that text recognition
//! reads.

use vstd::prelude::*;

verus! {

/// The RGB bytes that the `image` crate makes of an RGBA bitmap of `width`
/// by `height` pixels.
pub uninterp spec fn rgb_of_rgba(width: u32, height: u32, pixels: Seq<u8>) -> Seq<u8>;

/// The PNG file that the `image` crate writes for an RGB bitmap of `width`
/// by `height` pixels, or `None` where its encoder reports an error.
pub uninterp spec fn png_of_rgb(width: u32, height: u32, pixels: Seq<u8>) -> Option<Seq<u8>>;

/// The number of bytes of an RGBA bitmap of `width` by `height` pixels.
pub open spec fn rgba_len(width: u32, height: u32) -> nat {
    4 * (width as nat) * (height as nat)
}

/// The number of bytes of an RGB bitmap of `width` by `height` pixels.
pub open spec fn rgb_len(width: u32, height: u32) -> nat {
    3 * (width as nat) * (height as nat)
}

/// The PNG file of a capture: nothing where the bytes are too few for the
/// size, else what the encoder makes of the capture's colour channels.
pub open spec fn png_of_capture(width: u32, height: u32, pixels: Seq<u8>) -> Option<Seq<u8>> {
    if rgba_len(width, height) <= pixels.len() {
        png_of_rgb(width, height, rgb_of_rgba(width, height, pixels))
    } else {
        None
    }
}

/// Calls `DynamicImage::to_rgb8` of the `image` crate on the RGBA bitmap
/// that `ImageBuffer::from_raw` makes of the bytes, and hands back the bytes
/// of the RGB bitmap. Trusted: those bytes depend on the arguments alone,
/// and there are no fewer than three for each pixel, which the crate tests
/// when it makes the RGB bitmap of them. The precondition is the size test
/// of `from_raw`, which therefore accepts the bytes.
#[verifier::external_body]
fn rgba_to_rgb(width: u32, height: u32, pixels: Vec<u8>) -> (r: Vec<u8>)
    requires
        rgba_len(width, height) <= pixels@.len(),
    ensures
        r@ == rgb_of_rgba(width, height, pixels@),
        rgb_len(width, height) <= r@.len(),
{
    let rgba = image::RgbaImage::from_raw(width, height, pixels).unwrap();
    image::DynamicImage::ImageRgba8(rgba).to_rgb8().into_raw()
}

/// Calls `ImageBuffer::write_to` of the `image` crate with the PNG format on
/// the RGB bitmap that `ImageBuffer::from_raw` makes of the bytes, writing
/// into memory. Trusted: the file written depends on the arguments alone,
/// and `None` comes back exactly where the encoder reports an error. The
/// precondition is the size test of `from_raw`, which therefore accepts the
/// bytes.
#[verifier::external_body]
fn write_png(width: u32, height: u32, pixels: Vec<u8>) -> (r: Option<Vec<u8>>)
    requires
        rgb_len(width, height) <= pixels@.len(),
    ensures
        r is Some <==> png_of_rgb(width, height, pixels@) is Some,
        r is Some ==> r->Some_0@ == png_of_rgb(width, height, pixels@)->Some_0,
{
    let rgb = image::RgbImage::from_raw(width, height, pixels).unwrap();
    let mut file = std::io::Cursor::new(Vec::new());
    match rgb.write_to(&mut file, image::ImageFormat::Png) {
        Ok(()) => Some(file.into_inner()),
        Err(_) => None,
    }
}

/// Whether `len` bytes are enough for an RGBA bitmap of `width` by `height`
/// pixels.
pub fn capture_fits(width: u32, height: u32, len: usize) -> (r: bool)
    ensures
        r == (rgba_len(width, height) <= len),
{
    assert(4 * (width as nat) * (height as nat) <= 4 * 0xffff_ffff * 0xffff_ffff)
        by (nonlinear_arith)
        requires
            width <= 0xffff_ffff,
            height <= 0xffff_ffff,
    ;
    assert(4 * (width as nat) <= 4 * 0xffff_ffff);
    let needed: u128 = 4 * (width as u128) * (height as u128);
    needed <= len as u128
}

/// The PNG file of a captured window, without its alpha channel. A capture
/// with fewer bytes than its size calls for, or one that the encoder
/// refuses, gives `None`.
pub fn encode_capture(width: u32, height: u32, pixels: Vec<u8>) -> (r: Option<Vec<u8>>)
    ensures
        r is Some <==> png_of_capture(width, height, pixels@) is Some,
        r is Some ==> r->Some_0@ == png_of_capture(width, height, pixels@)->Some_0,
{
    if !capture_fits(width, height, pixels.len()) {
        return None;
    }
    let rgb = rgba_to_rgb(width, height, pixels);
    write_png(width, height, rgb)
}

} // verus!
