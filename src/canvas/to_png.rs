//! PNG encoding of a canvas, through the `png` crate.

use vstd::prelude::*;
use crate::canvas::to_rgba32::{lemma_rgba_bytes_len, rgba_bytes, ToRGBA32};
use crate::canvas::vcanvas::{Rgb, Sized, VCanvas};

verus! {

#[verifier::external_type_specification]
#[verifier::external_body]
pub struct ExEncodingError(png::EncodingError);

/// The PNG file that `png` writes for an 8-bit RGBA image of the given size
/// and pixel bytes.
pub uninterp spec fn png_of(width: u32, height: u32, rgba: Seq<u8>) -> Seq<u8>;

/// Relies on png's `Encoder` (`new`, `set_color`, `set_depth`, `write_header`)
/// and `Writer` (`write_image_data`, `finish`) to encode one RGBA image of 8
/// bits per channel into memory. `write_header` refuses a zero width or height
/// and nothing else for this colour type and depth; `write_image_data` checks
/// only that the buffer holds four bytes per pixel, which `requires` asks;
/// writing into a `Vec` does not fail.
#[verifier::external_body]
fn encode_rgba8(width: u32, height: u32, rgba: &Vec<u8>) -> (r: Result<Vec<u8>, png::EncodingError>)
    requires
        rgba@.len() == 4 * width * height,
    ensures
        r is Ok ==> r->Ok_0@ == png_of(width, height, rgba@),
        width == 0 || height == 0 ==> r is Err,
        width > 0 && height > 0 ==> r is Ok,
{
    let mut data = Vec::new();
    let mut encoder = png::Encoder::new(&mut data, width, height);
    encoder.set_color(png::ColorType::Rgba);
    encoder.set_depth(png::BitDepth::Eight);
    let mut writer = encoder.write_header()?;
    writer.write_image_data(rgba)?;
    writer.finish()?;
    Ok(data)
}

/// Why a canvas could not be encoded as PNG.
#[derive(Clone, Copy, Debug, PartialEq, Eq, Structural)]
pub enum PngError {
    /// The canvas has no pixels: its width or its height is zero.
    EmptyImage,
    /// The width or the height does not fit in 32 bits.
    TooLarge,
    /// The canvas does not hold one pixel per position.
    Malformed,
    /// The encoder refused the image.
    Encoding,
}

/// Encoding as a PNG file.
pub trait ToPNG {
    fn to_png(&self) -> Result<Vec<u8>, PngError>;
}

impl ToPNG for VCanvas<Rgb> {
    /// The PNG file of the canvas's RGBA bytes.
    fn to_png(&self) -> (r: Result<Vec<u8>, PngError>)
        ensures
            (self@.width == 0 || self@.height == 0) <==> r == Err::<Vec<u8>, PngError>(
                PngError::EmptyImage,
            ),
            (self@.width > 0 && self@.height > 0 && (self@.width > u32::MAX || self@.height
                > u32::MAX)) <==> r == Err::<Vec<u8>, PngError>(PngError::TooLarge),
            self@.width > 0 && self@.height > 0 && self@.width <= u32::MAX && self@.height
                <= u32::MAX && !self.wf() <==> r == Err::<Vec<u8>, PngError>(PngError::Malformed),
            self.wf() && self@.width > 0 && self@.height > 0 && self@.width <= u32::MAX
                && self@.height <= u32::MAX ==> r is Ok,
            r is Ok ==> r->Ok_0@ == png_of(
                self@.width as u32,
                self@.height as u32,
                rgba_bytes(self@.pixels),
            ),
    {
        let w = self.width();
        let h = self.height();
        if w == 0 || h == 0 {
            return Err(PngError::EmptyImage);
        }
        if w > u32::MAX as usize || h > u32::MAX as usize {
            return Err(PngError::TooLarge);
        }
        let n = self.get_pixels().len();
        match w.checked_mul(h) {
            Some(m) => {
                if m != n {
                    return Err(PngError::Malformed);
                }
            },
            None => {
                return Err(PngError::Malformed);
            },
        }
        let data = self.to_rgba32();
        proof {
            lemma_rgba_bytes_len(self@.pixels);
            assert(4 * (w as int) * (h as int) == 4 * ((w as int) * (h as int))) by (nonlinear_arith);
        }
        match encode_rgba8(w as u32, h as u32, &data) {
            Ok(bytes) => Ok(bytes),
            Err(_) => Err(PngError::Encoding),
        }
    }
}

} // verus!
