//! The order in which the pixels of an image are visited: column by column,
//! every pixel once.

use vstd::prelude::*;
use itertools::Itertools;
use vstd::arithmetic::div_mod::lemma_fundamental_div_mod_converse;

verus! {

/// The pixel positions `(x, y)` of a `width` by `height` image with `x`
/// outermost: position `i` is `(i / height, i % height)`.
pub open spec fn pixel_order(width: nat, height: nat) -> Seq<(usize, usize)> {
    Seq::new(
        width * height,
        |i: int| ((i / height as int) as usize, (i % height as int) as usize),
    )
}

/// Relies on itertools' `cartesian_product` over two ranges: every pair of an
/// element of the first range and one of the second, the first range
/// outermost, each range in its own order.
#[verifier::external_body]
fn cartesian_product(width: usize, height: usize) -> (r: Vec<(usize, usize)>)
    requires
        width * height <= usize::MAX,
    ensures
        r@ == pixel_order(width as nat, height as nat),
{
    (0..width).cartesian_product(0..height).collect()
}

/// Every pixel position of a `width` by `height` image, in `pixel_order`;
/// `None` when the number of pixels does not fit in a `usize`.
pub fn pixel_coordinates(width: usize, height: usize) -> (r: Option<Vec<(usize, usize)>>)
    ensures
        match r {
            Some(v) => width * height <= usize::MAX && v@ == pixel_order(width as nat, height as nat),
            None => width * height > usize::MAX,
        },
{
    match width.checked_mul(height) {
        Some(_) => Some(cartesian_product(width, height)),
        None => None,
    }
}

/// The pixel order visits every pixel of the image exactly once: pixel
/// `(x, y)` at position `x * height + y`, and nothing outside the image.
pub proof fn lemma_every_pixel_once(width: nat, height: nat)
    requires
        width * height <= usize::MAX,
    ensures
        forall|x: nat, y: nat|
            x < width && y < height ==> #[trigger] pixel_order(width, height)[(x * height + y) as int] == (
                x as usize,
                y as usize,
            ),
        forall|i: int|
            0 <= i < pixel_order(width, height).len() ==> (#[trigger] pixel_order(width, height)[i]).0
                < width && pixel_order(width, height)[i].1 < height,
        pixel_order(width, height).no_duplicates(),
{
    let s = pixel_order(width, height);
    assert forall|x: nat, y: nat| x < width && y < height implies #[trigger] s[(x * height + y) as int] == (
        x as usize,
        y as usize,
    ) by {
        assert(x * height + y < width * height) by (nonlinear_arith)
            requires
                x < width,
                y < height,
        ;
        assert(x * height <= usize::MAX) by (nonlinear_arith)
            requires
                x < width,
                width * height <= usize::MAX,
        ;
        lemma_fundamental_div_mod_converse((x * height + y) as int, height as int, x as int, y as int);
    }
    assert forall|i: int| 0 <= i < s.len() implies (#[trigger] s[i]).0 < width && s[i].1 < height by {
        assert(height > 0) by (nonlinear_arith)
            requires
                0 <= i < width * height,
        ;
        assert(i / (height as int) < width) by (nonlinear_arith)
            requires
                0 <= i < width * height,
                height > 0,
        ;
        assert(i / (height as int) <= i) by (nonlinear_arith)
            requires
                0 <= i,
                height > 0,
        ;
    }
    assert forall|i: int, j: int| 0 <= i < s.len() && 0 <= j < s.len() && i != j implies s[i]
        != s[j] by {
        assert(height > 0) by (nonlinear_arith)
            requires
                0 <= i < width * height,
        ;
        let h = height as int;
        if s[i] == s[j] {
            assert(i == (i / h) * h + i % h) by (nonlinear_arith)
                requires
                    h > 0,
            ;
            assert(j == (j / h) * h + j % h) by (nonlinear_arith)
                requires
                    h > 0,
            ;
            assert(i / h <= i && j / h <= j) by (nonlinear_arith)
                requires
                    h > 0,
                    i >= 0,
                    j >= 0,
            ;
            assert(i / h == j / h && i % h == j % h);
        }
    }
}

} // verus!
