//! The raw 8-bit RGBA bytes of a canvas.

use vstd::prelude::*;
use crate::canvas::vcanvas::{Rgb, VCanvas};

verus! {

/// Four bytes per pixel, in pixel order: red, green, blue, then an opaque alpha.
pub open spec fn rgba_bytes(pixels: Seq<Rgb>) -> Seq<u8>
    decreases pixels.len(),
{
    if pixels.len() == 0 {
        Seq::empty()
    } else {
        let p = pixels.last();
        rgba_bytes(pixels.drop_last()) + seq![p.r, p.g, p.b, 255u8]
    }
}

/// Four bytes per pixel.
pub proof fn lemma_rgba_bytes_len(pixels: Seq<Rgb>)
    ensures
        rgba_bytes(pixels).len() == 4 * pixels.len(),
    decreases pixels.len(),
{
    if pixels.len() > 0 {
        lemma_rgba_bytes_len(pixels.drop_last());
    }
}

/// Encoding as raw RGBA bytes.
pub trait ToRGBA32 {
    fn to_rgba32(&self) -> Vec<u8>;
}

impl ToRGBA32 for VCanvas<Rgb> {
    fn to_rgba32(&self) -> (r: Vec<u8>)
        ensures
            r@ == rgba_bytes(self@.pixels),
    {
        let pixels = self.get_pixels();
        let mut data: Vec<u8> = Vec::new();
        let mut i: usize = 0;
        while i < pixels.len()
            invariant
                pixels@ == self@.pixels,
                i <= pixels@.len(),
                data@ == rgba_bytes(pixels@.subrange(0, i as int)),
            decreases pixels@.len() - i,
        {
            let p = pixels[i];
            data.push(p.r);
            data.push(p.g);
            data.push(p.b);
            data.push(255u8);
            proof {
                let done = pixels@.subrange(0, i + 1);
                assert(done.drop_last() =~= pixels@.subrange(0, i as int));
                assert(data@ =~= rgba_bytes(done));
            }
            i = i + 1;
        }
        assert(pixels@.subrange(0, i as int) =~= pixels@);
        data
    }
}

} // verus!
