//! The plain-text PPM document of a canvas.

use vstd::prelude::*;
use crate::canvas::vcanvas::{Rgb, Sized, VCanvas};
use crate::decimal::{decimal, push_decimal};

verus! {

pub open spec fn ascii_space() -> u8 {
    32
}

pub open spec fn ascii_newline() -> u8 {
    10
}

/// The magic number of plain-text PPM, the size, and the largest channel
/// value, each on a line of its own.
pub open spec fn ppm_header(width: nat, height: nat, max_color_value: nat) -> Seq<u8> {
    seq![80u8, 51u8, ascii_newline()] + decimal(width) + seq![ascii_space()] + decimal(height)
        + seq![ascii_newline()] + decimal(max_color_value) + seq![ascii_newline()]
}

/// The three channels of a pixel in decimal, separated by spaces.
pub open spec fn rgb_text(p: Rgb) -> Seq<u8> {
    decimal(p.r as nat) + seq![ascii_space()] + decimal(p.g as nat) + seq![ascii_space()]
        + decimal(p.b as nat)
}

/// The pixels of one row, separated by spaces.
pub open spec fn row_text(row: Seq<Rgb>) -> Seq<u8>
    decreases row.len(),
{
    if row.len() == 0 {
        Seq::empty()
    } else if row.len() == 1 {
        rgb_text(row[0])
    } else {
        row_text(row.drop_last()) + seq![ascii_space()] + rgb_text(row.last())
    }
}

/// The first `rows` rows of a row-major pixel sequence, each ending in a newline.
pub open spec fn rows_text(pixels: Seq<Rgb>, width: nat, rows: nat) -> Seq<u8>
    decreases rows,
{
    if rows == 0 {
        Seq::empty()
    } else {
        let y = (rows - 1) as nat;
        rows_text(pixels, width, y) + row_text(pixels.subrange((y * width) as int, (rows * width) as int))
            + seq![ascii_newline()]
    }
}

/// The whole PPM document of a canvas with the given size and pixels.
pub open spec fn ppm_text(width: nat, height: nat, pixels: Seq<Rgb>) -> Seq<u8> {
    ppm_header(width, height, 255) + rows_text(pixels, width, height)
}

/// Encoding as PPM text.
pub trait ToPPM {
    /// The three header lines of a PPM document.
    fn create_ppm_header(&self, width: usize, height: usize, max_color_value: usize) -> (r: Vec<
        u8,
    >)
        ensures
            r@ == ppm_header(width as nat, height as nat, max_color_value as nat),
    {
        let mut header: Vec<u8> = Vec::new();
        header.push(80u8);
        header.push(51u8);
        header.push(10u8);
        push_decimal(&mut header, width);
        header.push(32u8);
        push_decimal(&mut header, height);
        header.push(10u8);
        push_decimal(&mut header, max_color_value);
        header.push(10u8);
        assert(header@ =~= ppm_header(width as nat, height as nat, max_color_value as nat));
        header
    }

    fn to_ppm(&self) -> Vec<u8>;
}

/// Appends the text of one pixel to `out`.
fn push_rgb_text(out: &mut Vec<u8>, p: Rgb)
    ensures
        final(out)@ == old(out)@ + rgb_text(p),
{
    push_decimal(out, p.r as usize);
    out.push(32u8);
    push_decimal(out, p.g as usize);
    out.push(32u8);
    push_decimal(out, p.b as usize);
    assert(out@ =~= old(out)@ + rgb_text(p));
}

impl ToPPM for VCanvas<Rgb> {
    /// The header for this canvas with 255 as largest channel value, then
    /// one line per row.
    fn to_ppm(&self) -> (r: Vec<u8>)
        ensures
            self.wf() ==> r@ == ppm_text(self@.width, self@.height, self@.pixels),
            !self.wf() ==> r@ == ppm_header(self@.width, self@.height, 255),
    {
        let w = self.width();
        let h = self.height();
        let mut byte_array = self.create_ppm_header(w, h, 255);
        let n = self.get_pixels().len();
        match w.checked_mul(h) {
            Some(m) => {
                if m != n {
                    return byte_array;
                }
            },
            None => {
                return byte_array;
            },
        }
        let ghost px = self@.pixels;
        let mut y: usize = 0;
        while y < h
            invariant
                self.wf(),
                w == self@.width,
                h == self@.height,
                px == self@.pixels,
                px.len() == w * h,
                y <= h,
                byte_array@ == ppm_header(w as nat, h as nat, 255) + rows_text(px, w as nat, y as nat),
            decreases h - y,
        {
            proof {
                lemma_row_bounds(w as int, h as int, y as int);
                assert(px.len() == w * h);
            }
            let ghost start = byte_array@;
            let ghost s = y * w;
            assert(s + w == (y + 1) * w) by (nonlinear_arith)
                requires
                    s == y * w,
            ;
            assert(px.subrange(s, s) =~= Seq::<Rgb>::empty());
            let mut x: usize = 0;
            while x < w
                invariant
                    self.wf(),
                    w == self@.width,
                    h == self@.height,
                    px == self@.pixels,
                    y < h,
                    x <= w,
                    (y + 1) * w <= w * h,
                    s == y * w,
                    0 <= s,
                    s + w <= px.len(),
                    byte_array@ == start + row_text(px.subrange(s, s + x)),
                decreases w - x,
            {
                if x > 0 {
                    byte_array.push(32u8);
                }
                let p = self.pixel_at(x, y);
                push_rgb_text(&mut byte_array, p);
                proof {
                    let row = px.subrange(s, s + x + 1);
                    assert(row.drop_last() =~= px.subrange(s, s + x));
                    assert(row.last() == px[s + x]);
                    assert(byte_array@ =~= start + row_text(row));
                }
                x = x + 1;
            }
            byte_array.push(10u8);
            proof {
                assert(y * w + w == (y + 1) * w) by (nonlinear_arith);
                assert(byte_array@ =~= ppm_header(w as nat, h as nat, 255) + rows_text(
                    px,
                    w as nat,
                    (y + 1) as nat,
                ));
            }
            y = y + 1;
        }
        byte_array
    }
}

proof fn lemma_row_bounds(w: int, h: int, y: int)
    requires
        0 <= y < h,
        0 <= w,
    ensures
        (y + 1) * w <= w * h,
        0 <= y * w,
{
    assert((y + 1) * w <= w * h) by (nonlinear_arith)
        requires
            0 <= y < h,
            0 <= w,
    ;
    assert(0 <= y * w) by (nonlinear_arith)
        requires
            0 <= y,
            0 <= w,
    ;
}

} // verus!
