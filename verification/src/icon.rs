//! A picture for a user who has none: drawn from the bytes of the user's key.

use vstd::prelude::*;

use crate::keys::UserID;

verus! {

/// The side of the picture, in pixels.
pub const ICON_SIDE: u32 = 420;

/// The pixels that the `identicon` crate draws for `source`: rows of red,
/// green and blue bytes.
pub uninterp spec fn identicon_pixels(source: Seq<u8>) -> Seq<u8>;

/// The PNG file that the `image` crate writes for rows of red, green and
/// blue bytes, or `None` where it refuses them.
pub uninterp spec fn png_of_rgb(pixels: Seq<u8>, width: u32, height: u32) -> Option<Seq<u8>>;

/// `identicon::Identicon::new(..).image()`: the picture for `source`, as
/// its raw bytes: three for each of its 420 by 420 pixels. The crate reads
/// the bytes 12 to 15 of `source`.
#[verifier::external_body]
fn draw_identicon(source: &[u8]) -> (pixels: Vec<u8>)
    requires
        source@.len() >= 16,
    ensures
        pixels@ == identicon_pixels(source@),
        pixels@.len() == 3 * ICON_SIDE * ICON_SIDE,
{
    identicon::Identicon::new(source).image().into_raw()
}

/// `image::codecs::png::PngEncoder::encode` for eight-bit RGB: the PNG file
/// of the pixels, or `None` where the encoder reports an error. The encoder
/// allocates a row before it looks at the pixels, and cannot cut a picture
/// without width into rows; the sides are held to those of an icon.
#[verifier::external_body]
fn encode_png(pixels: &[u8], width: u32, height: u32) -> (png: Option<Vec<u8>>)
    requires
        0 < width <= ICON_SIDE,
        0 < height <= ICON_SIDE,
    ensures
        png matches Some(bytes) ==> png_of_rgb(pixels@, width, height) == Some(bytes@),
        png is None ==> png_of_rgb(pixels@, width, height) is None,
{
    let mut out = Vec::new();
    let encoder = image::codecs::png::PngEncoder::new(&mut out);
    match encoder.encode(pixels, width, height, image::ColorType::Rgb8) {
        Ok(()) => Some(out),
        Err(_) => None,
    }
}

/// The picture that stands for `user`, as a PNG file of `ICON_SIDE` by
/// `ICON_SIDE` pixels; `Err` where it cannot be encoded.
pub fn identicon_get_sync(user: &UserID) -> (r: Result<Vec<u8>, ()>)
    ensures
        match png_of_rgb(identicon_pixels(user@), ICON_SIDE, ICON_SIDE) {
            Some(png) => r matches Ok(bytes) && bytes@ == png,
            None => r is Err,
        },
{
    let pixels = draw_identicon(user.bytes());
    match encode_png(pixels.as_slice(), ICON_SIDE, ICON_SIDE) {
        Some(png) => Ok(png),
        None => Err(()),
    }
}

} // verus!
