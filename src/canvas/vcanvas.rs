//! The pixel buffer: `width * height` pixels stored row by row.

use vstd::prelude::*;

verus! {

/// Anything with a size in pixels.
pub trait Sized {
    fn width(&self) -> usize;

    fn height(&self) -> usize;
}

/// A pixel as three 8-bit channels, the form in which images are encoded.
#[derive(Clone, Copy, Debug, PartialEq, Eq, Structural)]
pub struct Rgb {
    pub r: u8,
    pub g: u8,
    pub b: u8,
}

impl Rgb {
    pub fn new(r: u8, g: u8, b: u8) -> (res: Rgb)
        ensures
            res == (Rgb { r, g, b }),
    {
        Rgb { r, g, b }
    }
}

/// A canvas of `width` columns and `height` rows. Pixel `(x, y)` is stored at
/// index `y * width + x`.
pub struct VCanvas<P> {
    pub width: usize,
    pub height: usize,
    pixels: Vec<P>,
}

/// What a canvas holds: its size and its pixels, row by row.
pub struct CanvasModel<P> {
    pub width: nat,
    pub height: nat,
    pub pixels: Seq<P>,
}

impl<P> View for VCanvas<P> {
    type V = CanvasModel<P>;

    closed spec fn view(&self) -> CanvasModel<P> {
        CanvasModel { width: self.width as nat, height: self.height as nat, pixels: self.pixels@ }
    }
}

/// The position of pixel `(x, y)` in the row-major pixel sequence.
pub open spec fn pixel_index(width: int, x: int, y: int) -> int {
    y * width + x
}

impl<P: Copy> VCanvas<P> {
    /// The pixel sequence holds exactly one pixel per position.
    pub open spec fn wf(&self) -> bool {
        self@.pixels.len() == self@.width * self@.height
    }

    /// A canvas of the given size with every pixel set to `background`.
    pub fn new(width: usize, height: usize, background: P) -> (res: Self)
        requires
            width * height <= usize::MAX,
        ensures
            res.wf(),
            res@.width == width,
            res@.height == height,
            res@.pixels == Seq::new((width * height) as nat, |i: int| background),
    {
        let n = width * height;
        let mut pixels: Vec<P> = Vec::new();
        let mut i: usize = 0;
        while i < n
            invariant
                i <= n,
                pixels@ == Seq::new(i as nat, |k: int| background),
            decreases n - i,
        {
            pixels.push(background);
            i = i + 1;
            assert(pixels@ =~= Seq::new(i as nat, |k: int| background));
        }
        VCanvas { width, height, pixels }
    }

    fn get_pixel_index(&self, x: usize, y: usize) -> (r: usize)
        requires
            self.wf(),
            x < self@.width,
            y < self@.height,
        ensures
            r == pixel_index(self@.width as int, x as int, y as int),
            r < self@.pixels.len(),
    {
        let len = self.pixels.len();
        proof {
            lemma_index_in_bounds(self.width as int, self.height as int, x as int, y as int);
        }
        let index = y * self.width + x;
        assert(index < len);
        index
    }

    /// Sets pixel `(x, y)` to `color`; every other pixel keeps its value.
    pub fn write_pixel(&mut self, x: usize, y: usize, color: P)
        requires
            old(self).wf(),
            x < old(self)@.width,
            y < old(self)@.height,
        ensures
            final(self).wf(),
            final(self)@.width == old(self)@.width,
            final(self)@.height == old(self)@.height,
            final(self)@.pixels == old(self)@.pixels.update(
                pixel_index(old(self)@.width as int, x as int, y as int),
                color,
            ),
    {
        let index = self.get_pixel_index(x, y);
        self.pixels.set(index, color);
    }

    /// The value of pixel `(x, y)`.
    pub fn pixel_at(&self, x: usize, y: usize) -> (r: P)
        requires
            self.wf(),
            x < self@.width,
            y < self@.height,
        ensures
            r == self@.pixels[pixel_index(self@.width as int, x as int, y as int)],
    {
        let index = self.get_pixel_index(x, y);
        self.pixels[index]
    }

    /// All pixels, row by row.
    pub fn get_pixels(&self) -> (r: &Vec<P>)
        ensures
            r@ == self@.pixels,
    {
        &self.pixels
    }
}

impl<P> Sized for VCanvas<P> {
    fn width(&self) -> (r: usize)
        ensures
            r == self@.width,
    {
        self.width
    }

    fn height(&self) -> (r: usize)
        ensures
            r == self@.height,
    {
        self.height
    }
}

/// The pixel on which a point whose coordinates round to `(x, y)` is drawn,
/// when `y` counts up from the bottom edge of a `width` by `height` canvas
/// and rows count down from the top; `None` when it falls off the canvas.
pub fn plot_position(width: usize, height: usize, x: usize, y: usize) -> (r: Option<(usize, usize)>)
    ensures
        r == (if x < width && 1 <= y <= height {
            Some((x, (height - y) as usize))
        } else {
            None
        }),
{
    if y > height {
        return None;
    }
    let screen_y = height - y;
    if x >= width || screen_y >= height {
        None
    } else {
        Some((x, screen_y))
    }
}

/// A position inside a `width` by `height` grid has its row-major index
/// inside the grid.
proof fn lemma_index_in_bounds(width: int, height: int, x: int, y: int)
    requires
        0 <= x < width,
        0 <= y < height,
    ensures
        0 <= pixel_index(width, x, y) < width * height,
{
    assert(0 <= y * width + x < width * height) by (nonlinear_arith)
        requires
            0 <= x < width,
            0 <= y < height,
    ;
}

} // verus!
