//! Pixel buffer laid out in output order: rows from the top of the image
//! to the bottom, each row from left to right.

use vstd::prelude::*;

verus! {

/// Position of the `k`-th emitted pixel: column `k % width`, and row
/// `height - 1 - k / width`, since image row 0 is the bottom row.
pub open spec fn scan_column(width: int, k: int) -> int {
    k % width
}

pub open spec fn scan_row(width: int, height: int, k: int) -> int {
    height - 1 - k / width
}

/// Place in the output stream of the pixel at column `i`, row `j`.
pub open spec fn scan_index(width: int, height: int, i: int, j: int) -> int {
    (height - 1 - j) * width + i
}

/// Column and row of the `k`-th pixel of the output stream.
pub fn scan_position(width: usize, height: usize, k: usize) -> (r: (usize, usize))
    requires
        k < width * height,
    ensures
        r.0 == scan_column(width as int, k as int),
        r.1 == scan_row(width as int, height as int, k as int),
        r.0 < width,
        r.1 < height,
{
    proof {
        lemma_scan_position_bounds(width as int, height as int, k as int);
    }
    (k % width, height - 1 - k / width)
}

/// Place in the output stream of the pixel at column `i`, row `j`.
pub fn emission_index(width: usize, height: usize, i: usize, j: usize) -> (r: usize)
    requires
        i < width,
        j < height,
        width * height <= usize::MAX,
    ensures
        r == scan_index(width as int, height as int, i as int, j as int),
        r < width * height,
{
    proof {
        lemma_scan_index_bounds(width as int, height as int, i as int, j as int);
    }
    (height - 1 - j) * width + i
}

/// The scan order visits every pixel once: the `k`-th emitted pixel is
/// stored at place `k`, and the pixel at column `i`, row `j` is emitted at a
/// place whose scan position is `(i, j)` again.
pub proof fn lemma_scan_order_bijective(width: int, height: int, k: int, i: int, j: int)
    requires
        width >= 0,
        height >= 0,
        0 <= k < width * height,
        0 <= i < width,
        0 <= j < height,
    ensures
        scan_index(width, height, scan_column(width, k), scan_row(width, height, k)) == k,
        scan_column(width, scan_index(width, height, i, j)) == i,
        scan_row(width, height, scan_index(width, height, i, j)) == j,
{
    lemma_scan_position_bounds(width, height, k);
    assert((k / width) * width + k % width == k) by (nonlinear_arith)
        requires width > 0;
    let q = height - 1 - j;
    assert(q * width + i == scan_index(width, height, i, j));
    assert((q * width + i) % width == i && (q * width + i) / width == q) by (nonlinear_arith)
        requires 0 <= i < width, q >= 0 {
        vstd::arithmetic::div_mod::lemma_fundamental_div_mod_converse(q * width + i, width, q, i);
    }
}

proof fn lemma_scan_position_bounds(width: int, height: int, k: int)
    requires
        0 <= k < width * height,
        width >= 0,
        height >= 0,
    ensures
        width > 0,
        height > 0,
        0 <= scan_column(width, k) < width,
        0 <= scan_row(width, height, k) < height,
{
    if width <= 0 {
        assert(width * height == 0) by (nonlinear_arith)
            requires width == 0;
    }
    if height <= 0 {
        assert(width * height == 0) by (nonlinear_arith)
            requires height == 0;
    }
    assert(0 <= k / width < height) by (nonlinear_arith)
        requires 0 <= k < width * height, width > 0;
}

proof fn lemma_scan_index_bounds(width: int, height: int, i: int, j: int)
    requires
        0 <= i < width,
        0 <= j < height,
    ensures
        0 <= scan_index(width, height, i, j) < width * height,
{
    assert(0 <= (height - 1 - j) * width + i < width * height) by (nonlinear_arith)
        requires 0 <= i < width, 0 <= j < height;
}

/// A quantised color: one byte per channel, red, green and blue.
#[derive(Clone, Copy, Debug, PartialEq, Eq, Structural)]
pub struct Rgb8 {
    pub r: u8,
    pub g: u8,
    pub b: u8,
}

/// The abstract content of an image: its size and its pixels in output order.
pub struct ImageView {
    pub width: nat,
    pub height: nat,
    pub pixels: Seq<Rgb8>,
}

impl ImageView {
    /// The pixel at column `i`, row `j` (row 0 is the bottom row).
    pub open spec fn at(self, i: int, j: int) -> Rgb8 {
        self.pixels[scan_index(self.width as int, self.height as int, i, j)]
    }

    pub open spec fn well_formed(self) -> bool {
        &&& self.pixels.len() == self.width * self.height
        &&& self.width * self.height <= usize::MAX
    }
}

pub open spec fn black() -> Rgb8 {
    Rgb8 { r: 0, g: 0, b: 0 }
}

/// A `width` by `height` grid of quantised colors, stored in the order in
/// which they are written out, so that pixels may be filled in any order.
pub struct Image {
    width: usize,
    height: usize,
    pixels: Vec<Rgb8>,
}

impl View for Image {
    type V = ImageView;

    closed spec fn view(&self) -> ImageView {
        ImageView { width: self.width as nat, height: self.height as nat, pixels: self.pixels@ }
    }
}

impl Image {
    /// An image of the given size with every pixel black.
    pub fn new(width: usize, height: usize) -> (r: Image)
        requires
            width * height <= usize::MAX,
        ensures
            r@.width == width,
            r@.height == height,
            r@.well_formed(),
            forall|k: int| 0 <= k < r@.pixels.len() ==> r@.pixels[k] == black(),
    {
        let n: usize = width * height;
        let mut pixels: Vec<Rgb8> = Vec::with_capacity(n);
        let mut k: usize = 0;
        while k < n
            invariant
                k <= n,
                pixels@.len() == k,
                forall|m: int| 0 <= m < k ==> pixels@[m] == black(),
            decreases n - k,
        {
            pixels.push(Rgb8 { r: 0, g: 0, b: 0 });
            k = k + 1;
        }
        Image { width, height, pixels }
    }

    pub fn width(&self) -> (r: usize)
        ensures
            r == self@.width,
    {
        self.width
    }

    pub fn height(&self) -> (r: usize)
        ensures
            r == self@.height,
    {
        self.height
    }

    /// The pixel at column `i`, row `j`.
    pub fn get(&self, i: usize, j: usize) -> (r: Rgb8)
        requires
            self@.well_formed(),
            i < self@.width,
            j < self@.height,
        ensures
            r == self@.at(i as int, j as int),
    {
        let k = emission_index(self.width, self.height, i, j);
        self.pixels[k]
    }

    /// Sets the pixel at column `i`, row `j` and leaves every other one.
    pub fn set(&mut self, i: usize, j: usize, c: Rgb8)
        requires
            old(self)@.well_formed(),
            i < old(self)@.width,
            j < old(self)@.height,
        ensures
            final(self)@.width == old(self)@.width,
            final(self)@.height == old(self)@.height,
            final(self)@.well_formed(),
            final(self)@.pixels == old(self)@.pixels.update(
                scan_index(old(self)@.width as int, old(self)@.height as int, i as int, j as int),
                c,
            ),
            final(self)@.at(i as int, j as int) == c,
    {
        let k = emission_index(self.width, self.height, i, j);
        self.pixels.set(k, c);
    }

    /// The pixels in output order: top row first, each row left to right.
    pub fn pixels(&self) -> (r: &Vec<Rgb8>)
        ensures
            r@ == self@.pixels,
    {
        &self.pixels
    }
}

} // verus!
