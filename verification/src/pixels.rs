use vstd::prelude::*;

use crate::text::{concat, decimal, decimal_text};

verus! {

/// An image file held in `bytes`, decoded and converted to 8-bit RGBA: its
/// width, height and pixel bytes row by row; when it cannot be decoded,
/// the text of the `image` crate's error.
pub uninterp spec fn decoded_rgba(bytes: Seq<u8>) -> Result<(u32, u32, Seq<u8>), Seq<char>>;

/// `image::load_from_memory` followed by `DynamicImage::to_rgba8`,
/// `dimensions` and `into_raw`. The decoding is named, not stated: image
/// formats take pages. It is a function of the bytes alone; an error of the
/// crate gives its text.
#[verifier::external_body]
pub(crate) fn decode_rgba(bytes: &[u8]) -> (r: Result<(u32, u32, Vec<u8>), String>)
    ensures
        match r {
            Ok(t) => decoded_rgba(bytes@) == Ok::<(u32, u32, Seq<u8>), Seq<char>>((t.0, t.1, t.2@)),
            Err(msg) => decoded_rgba(bytes@) == Err::<(u32, u32, Seq<u8>), Seq<char>>(msg@),
        },
{
    let image = image::load_from_memory(bytes).map_err(|e| e.to_string())?.to_rgba8();
    let (width, height) = image.dimensions();
    Ok((width, height, image.into_raw()))
}

/// The pixels of a saved clipboard image, to put back on the clipboard:
/// its width and height as `usize` and its RGBA bytes; the decoder's error
/// text when the file cannot be decoded.
pub fn clipboard_image_pixels(bytes: &[u8]) -> (r: Result<(usize, usize, Vec<u8>), String>)
    ensures
        match r {
            Ok(t) => decoded_rgba(bytes@) matches Ok(d) && t.0 == d.0 && t.1 == d.1 && t.2@ == d.2,
            Err(msg) => decoded_rgba(bytes@) == Err::<(u32, u32, Seq<u8>), Seq<char>>(msg@),
        },
{
    match decode_rgba(bytes) {
        Ok((width, height, pixels)) => Ok((width as usize, height as usize, pixels)),
        Err(msg) => Err(msg),
    }
}

/// Whether `len` bytes hold an RGBA image of `width` by `height` pixels:
/// at least four bytes per pixel (the check `ImageBuffer::from_raw`
/// makes).
pub fn image_fits(width: u32, height: u32, len: usize) -> (r: bool)
    ensures
        r == (4 * width * height <= len),
{
    let w = width as u128;
    let h = height as u128;
    assert(w * h <= 0xffff_ffff * 0xffff_ffff) by (nonlinear_arith)
        requires
            w <= 0xffff_ffff,
            h <= 0xffff_ffff,
    ;
    assert(4 * width * height == 4 * (w * h)) by (nonlinear_arith)
        requires
            w == width,
            h == height,
    ;
    4 * (w * h) <= len as u128
}

/// The refusal of image bytes that do not fit the image's size.
pub open spec fn image_size_text(width: usize, height: usize) -> Seq<char> {
    "图片数据尺寸不匹配: "@ + decimal(width as nat) + "x"@ + decimal(height as nat)
}

/// The text refusing image bytes that do not fit a `width` by `height`
/// image.
pub fn image_size_message(width: usize, height: usize) -> (r: String)
    ensures
        r@ == image_size_text(width, height),
{
    let w = decimal_text(width);
    let h = decimal_text(height);
    let mut r = concat("图片数据尺寸不匹配: ", w.as_str());
    r.append("x");
    r.append(h.as_str());
    r
}

} // verus!
