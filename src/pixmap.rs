//! The plain-text pixmap format: a header with the format tag `P3`, the
//! width, the height and the largest channel value 255, then one line per
//! pixel holding its red, green and blue values in decimal.

use vstd::prelude::*;
use crate::image::{Image, ImageView, Rgb8};

verus! {

pub open spec fn digit(d: nat) -> u8 {
    (48 + d % 10) as u8
}

/// Decimal digits of `n`, most significant first, without leading zeros.
pub open spec fn decimal(n: nat) -> Seq<u8>
    decreases n,
{
    if n < 10 {
        seq![digit(n)]
    } else {
        decimal(n / 10) + seq![digit(n)]
    }
}

/// `P3`, newline, width, space, height, newline, `255`, newline.
pub open spec fn header(width: nat, height: nat) -> Seq<u8> {
    seq![80u8, 51u8, 10u8] + decimal(width) + seq![32u8] + decimal(height) + seq![10u8]
        + seq![50u8, 53u8, 53u8, 10u8]
}

/// Red, space, green, space, blue, newline.
pub open spec fn pixel_line(c: Rgb8) -> Seq<u8> {
    decimal(c.r as nat) + seq![32u8] + decimal(c.g as nat) + seq![32u8] + decimal(c.b as nat)
        + seq![10u8]
}

/// The lines of the given pixels, in order.
pub open spec fn body(pixels: Seq<Rgb8>) -> Seq<u8>
    decreases pixels.len(),
{
    if pixels.len() == 0 {
        seq![]
    } else {
        body(pixels.drop_last()) + pixel_line(pixels.last())
    }
}

pub open spec fn encoding(v: ImageView) -> Seq<u8> {
    header(v.width, v.height) + body(v.pixels)
}

/// Appends the decimal digits of `n`.
pub fn push_decimal(out: &mut Vec<u8>, n: u64)
    ensures
        final(out)@ == old(out)@ + decimal(n as nat),
    decreases n,
{
    if n >= 10 {
        push_decimal(out, n / 10);
    }
    out.push(48 + (n % 10) as u8);
    assert(final(out)@ =~= old(out)@ + decimal(n as nat));
}

/// Appends the header of a `width` by `height` image.
pub fn write_header(out: &mut Vec<u8>, width: u64, height: u64)
    ensures
        final(out)@ == old(out)@ + header(width as nat, height as nat),
{
    out.push(80);
    out.push(51);
    out.push(10);
    push_decimal(out, width);
    out.push(32);
    push_decimal(out, height);
    out.push(10);
    out.push(50);
    out.push(53);
    out.push(53);
    out.push(10);
    assert(out@ =~= old(out)@ + header(width as nat, height as nat));
}

/// Appends the line of one pixel.
pub fn write_pixel(out: &mut Vec<u8>, c: Rgb8)
    ensures
        final(out)@ == old(out)@ + pixel_line(c),
{
    push_decimal(out, c.r as u64);
    out.push(32);
    push_decimal(out, c.g as u64);
    out.push(32);
    push_decimal(out, c.b as u64);
    out.push(10);
    assert(out@ =~= old(out)@ + pixel_line(c));
}

/// The whole image as text: its header, then its pixels from the top row
/// down, each row from left to right.
pub fn encode(image: &Image) -> (r: Vec<u8>)
    requires
        image@.well_formed(),
    ensures
        r@ == encoding(image@),
{
    let mut out: Vec<u8> = Vec::new();
    write_header(&mut out, image.width() as u64, image.height() as u64);
    let pixels = image.pixels();
    let n = pixels.len();
    let mut k: usize = 0;
    while k < n
        invariant
            k <= n,
            n == pixels@.len(),
            pixels@ == image@.pixels,
            out@ == header(image@.width, image@.height) + body(pixels@.subrange(0, k as int)),
        decreases n - k,
    {
        write_pixel(&mut out, pixels[k]);
        proof {
            let next = pixels@.subrange(0, k + 1);
            assert(next.drop_last() =~= pixels@.subrange(0, k as int));
            assert(out@ =~= header(image@.width, image@.height) + body(next));
        }
        k = k + 1;
    }
    assert(pixels@.subrange(0, n as int) =~= pixels@);
    out
}

} // verus!
