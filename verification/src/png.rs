//! The canvas as a PNG file. The encoder is that of the `image` crate.

use vstd::prelude::*;

verus! {

/// `image::ImageError`, with which the encoder reports that it wrote no file.
#[verifier::external_type_specification]
#[verifier::external_body]
pub struct ExImageError(image::ImageError);

/// The PNG file that the encoder writes for an image of eight-bit RGBA pixels
/// of the given size, or `None` where it writes none.
pub uninterp spec fn png_encoding(width: u32, height: u32, pixels: Seq<u8>) -> Option<Seq<u8>>;

/// `image::write_buffer_with_format`, asked for a PNG file of eight-bit RGBA
/// pixels and writing into memory. For a buffer of four bytes for each pixel
/// it returns: with the file that it wrote, or with its error. It has an
/// error for every image without width or without height, which the format
/// cannot hold. Nothing else is claimed of the file but that the same image
/// gives the same one.
#[verifier::external_body]
fn write_png(width: u32, height: u32, pixels: &Vec<u8>) -> (written: Result<
    Vec<u8>,
    image::ImageError,
>)
    requires
        pixels@.len() == 4 * width * height,
    ensures
        match written {
            Ok(file) => png_encoding(width, height, pixels@) == Some(file@),
            Err(_) => png_encoding(width, height, pixels@) is None,
        },
        width == 0 || height == 0 ==> written is Err,
{
    let mut file: Vec<u8> = Vec::new();
    image::write_buffer_with_format(
        &mut std::io::Cursor::new(&mut file),
        pixels,
        width,
        height,
        image::ExtendedColorType::Rgba8,
        image::ImageFormat::Png,
    )?;
    Ok(file)
}

/// The encoder wrote no file.
#[derive(Clone, Copy, PartialEq, Eq, Structural, Debug)]
pub struct EncodeError;

/// Whether `outcome` is what encoding the image gives: the file that the
/// encoder writes for it, or the error where it writes none.
pub open spec fn encodes(
    outcome: Result<Vec<u8>, EncodeError>,
    width: u32,
    height: u32,
    pixels: Seq<u8>,
) -> bool {
    match outcome {
        Ok(file) => png_encoding(width, height, pixels) == Some(file@),
        Err(_) => png_encoding(width, height, pixels) is None,
    }
}

/// Encodes a buffer of four bytes for each pixel as a PNG file of the given
/// size. An image without width or without height is never encoded.
pub fn encode_png(width: u32, height: u32, pixels: &Vec<u8>) -> (encoded: Result<
    Vec<u8>,
    EncodeError,
>)
    requires
        pixels@.len() == 4 * width * height,
    ensures
        encodes(encoded, width, height, pixels@),
        width == 0 || height == 0 ==> encoded is Err,
{
    match write_png(width, height, pixels) {
        Ok(file) => Ok(file),
        Err(_) => Err(EncodeError),
    }
}

} // verus!
