//! Exchange of the sprite's RGBA buffer with the image codec: encoding
//! to PNG bytes and decoding arbitrary image bytes back to a buffer.

use vstd::prelude::*;
use crate::sprite::{Sprite, MAX_DIM};

verus! {

/// The PNG encoding of an RGBA buffer of the given size. The encoder is
/// deterministic, so the bytes are a function of the arguments alone.
pub uninterp spec fn png_encoding_of(width: u32, height: u32, pixels: Seq<u8>) -> Seq<u8>;

/// What the image codec makes of arbitrary bytes: nothing, or a width,
/// a height, and the decoded RGBA bytes. Decoding is deterministic, so
/// the outcome is a function of the input bytes alone.
pub uninterp spec fn decoded_image_of(data: Seq<u8>) -> Option<(u32, u32, Seq<u8>)>;

/// Buffer size up to which an encoded PNG is guaranteed to decode back:
/// the decoder refuses allocations past 512 MiB, so the lossless round
/// trip is only promised while the RGBA buffer stays safely under that.
pub const ROUND_TRIP_BYTE_LIMIT: u32 = 0x1000_0000;

/// Relies on `image::codecs::png::PngEncoder` and
/// `image::ImageEncoder::write_image`: encoding a well-sized RGBA buffer
/// to an in-memory PNG succeeds and depends on the arguments alone.
/// PNG is lossless, so `image::load_from_memory` decodes the output
/// back to the same dimensions and bytes; that round trip is only
/// stated for buffers under `ROUND_TRIP_BYTE_LIMIT`, within which the
/// decoder's default 512 MiB allocation limit cannot interfere.
#[verifier::external_body]
fn encode_png_bytes(width: u32, height: u32, pixels: &Vec<u8>) -> (r: Vec<u8>)
    requires
        1 <= width,
        1 <= height,
        pixels@.len() == width * height * 4,
    ensures
        r@ == png_encoding_of(width, height, pixels@),
        width * height * 4 <= ROUND_TRIP_BYTE_LIMIT ==> decoded_image_of(r@) == Some(
            (width, height, pixels@),
        ),
{
    let mut buf = Vec::new();
    let encoder = image::codecs::png::PngEncoder::new(&mut buf);
    image::ImageEncoder::write_image(
        encoder,
        pixels,
        width,
        height,
        image::ExtendedColorType::Rgba8,
    ).expect("PNG encoding of a well-sized RGBA buffer cannot fail");
    buf
}

/// Relies on `image::load_from_memory` and
/// `image::DynamicImage::to_rgba8`: the decoded image, if any, is a
/// function of the input bytes alone, and its RGBA buffer holds exactly
/// `width * height * 4` bytes.
#[verifier::external_body]
fn decode_image_bytes(data: &[u8]) -> (r: Option<(u32, u32, Vec<u8>)>)
    ensures
        (r is None) == (decoded_image_of(data@) is None),
        (r matches Some(t) ==> decoded_image_of(data@) == Some((t.0, t.1, t.2@)) && t.2@.len()
            == t.0 * t.1 * 4),
{
    match image::load_from_memory(data) {
        Ok(img) => {
            let rgba = img.to_rgba8();
            let (w, h) = (rgba.width(), rgba.height());
            Some((w, h, rgba.into_raw()))
        },
        Err(_) => None,
    }
}

/// Encode a sprite's buffer as PNG bytes. For sprites whose buffer
/// stays under `ROUND_TRIP_BYTE_LIMIT`, decoding the result recovers
/// exactly the sprite's dimensions and bytes: the codec is lossless.
pub fn sprite_to_png(sprite: &Sprite) -> (r: Vec<u8>)
    requires
        sprite.wf(),
    ensures
        r@ == png_encoding_of(sprite.width, sprite.height, sprite.pixels@),
        sprite.width * sprite.height * 4 <= ROUND_TRIP_BYTE_LIMIT ==> decoded_image_of(r@)
            == Some((sprite.width, sprite.height, sprite.pixels@)),
{
    encode_png_bytes(sprite.width, sprite.height, &sprite.pixels)
}

/// Why image bytes did not become a sprite: the bytes are not a
/// decodable raster image, or they decode to dimensions the editor's
/// buffer cannot hold (a zero side, or a side beyond `MAX_DIM`).
#[derive(Clone, Copy, PartialEq, Eq, Structural, Debug)]
pub enum DecodeError {
    Undecodable,
    UnsupportedSize { width: u32, height: u32 },
}

/// Decode image bytes into a sprite, telling a failure to decode apart
/// from a decodable image of unsupported dimensions.
pub fn decode_sprite(data: &[u8]) -> (r: Result<Sprite, DecodeError>)
    ensures
        match decoded_image_of(data@) {
            Some(t) => {
                if 1 <= t.0 <= MAX_DIM && 1 <= t.1 <= MAX_DIM {
                    (r matches Ok(s) && s.wf() && s.width == t.0 && s.height == t.1 && s.pixels@
                        == t.2)
                } else {
                    r == Err::<Sprite, DecodeError>(DecodeError::UnsupportedSize { width: t.0, height: t.1 })
                }
            },
            None => r == Err::<Sprite, DecodeError>(DecodeError::Undecodable),
        },
{
    match decode_image_bytes(data) {
        Some((width, height, pixels)) => {
            if 1 <= width && width <= MAX_DIM && 1 <= height && height <= MAX_DIM {
                Ok(Sprite { width, height, pixels })
            } else {
                Err(DecodeError::UnsupportedSize { width, height })
            }
        },
        None => Err(DecodeError::Undecodable),
    }
}

/// Decode image bytes into a sprite. Returns the decoded sprite when the
/// bytes parse as an image whose dimensions the editor can hold, and
/// nothing otherwise; `decode_sprite` tells the two failure reasons
/// apart.
pub fn png_to_sprite(data: &[u8]) -> (r: Option<Sprite>)
    ensures
        match decoded_image_of(data@) {
            Some(t) => {
                if 1 <= t.0 <= MAX_DIM && 1 <= t.1 <= MAX_DIM {
                    (r matches Some(s) && s.wf() && s.width == t.0 && s.height == t.1
                        && s.pixels@ == t.2)
                } else {
                    r is None
                }
            },
            None => r is None,
        },
{
    match decode_sprite(data) {
        Ok(sprite) => Some(sprite),
        Err(_) => None,
    }
}

} // verus!
