//! Byte codecs of outside crates: PNG by `image`, base64 by `base64`.

use vstd::prelude::*;

verus! {

/// The PNG file that `image` writes for an 8-bit RGBA pixel buffer of the
/// given width and height, or `None` where it writes none.
pub uninterp spec fn png_encoded(width: u32, height: u32, rgba: Seq<u8>) -> Option<Seq<u8>>;

/// The standard base64 text, with padding, of a byte sequence.
pub uninterp spec fn base64_text(bytes: Seq<u8>) -> Seq<char>;

/// The bytes that a standard base64 text with padding stands for, or `None`
/// where the text is none.
pub uninterp spec fn base64_bytes(text: Seq<char>) -> Option<Seq<u8>>;

/// The length of the base64 text of `n` bytes: four characters for every
/// three bytes or part of three.
pub open spec fn base64_len(n: nat) -> nat {
    4 * ((n + 2) / 3)
}

/// Calls `image::ImageBuffer::from_raw` for RGBA pixels of 8 bits and writes
/// the buffer with `ImageBuffer::write_to` as PNG. Trusted: the file depends
/// on the dimensions and the bytes alone, the result is `None` exactly where
/// either call fails, and `from_raw` fails where the buffer holds fewer than
/// four bytes for each pixel.
#[verifier::external_body]
pub(crate) fn encode_png(width: u32, height: u32, rgba: &Vec<u8>) -> (res: Option<Vec<u8>>)
    ensures
        match res {
            Some(png) => png_encoded(width, height, rgba@) == Some(png@),
            None => png_encoded(width, height, rgba@) is None,
        },
        rgba@.len() < 4 * width * height ==> res is None,
{
    let pixels = image::ImageBuffer::<image::Rgba<u8>, _>::from_raw(width, height, rgba.as_slice())?;
    let mut file = std::io::Cursor::new(Vec::new());
    pixels.write_to(&mut file, image::ImageFormat::Png).ok()?;
    Some(file.into_inner())
}

/// Calls `encode` of `base64::engine::general_purpose::STANDARD`. Trusted:
/// the result is the base64 text of the bytes. The call panics where the
/// length of the text does not fit `usize`, which `requires` leaves out.
#[verifier::external_body]
pub(crate) fn base64_encode(bytes: &Vec<u8>) -> (res: String)
    requires
        base64_len(bytes@.len()) <= usize::MAX,
    ensures
        res@ == base64_text(bytes@),
{
    base64::Engine::encode(&base64::engine::general_purpose::STANDARD, bytes)
}

/// Calls `decode` of `base64::engine::general_purpose::STANDARD`. Trusted:
/// the result is what the text stands for, and `None` exactly where the
/// decoder reports an error.
#[verifier::external_body]
pub(crate) fn base64_decode(text: &str) -> (res: Option<Vec<u8>>)
    ensures
        match res {
            Some(bytes) => base64_bytes(text@) == Some(bytes@),
            None => base64_bytes(text@) is None,
        },
{
    base64::Engine::decode(&base64::engine::general_purpose::STANDARD, text).ok()
}

} // verus!
