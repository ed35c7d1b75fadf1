//! The plain-text raster format: a header, then one line per pixel.

use vstd::prelude::*;

verus! {

/// One pixel as it is written: three channel values. A channel meant for
/// display lies between 0 and 255, but any value is written as it is.
#[derive(Clone, Copy, Debug, PartialEq, Eq, Structural)]
pub struct Rgb {
    pub r: i32,
    pub g: i32,
    pub b: i32,
}

/// The ASCII digit for a value below ten.
pub open spec fn digit(d: nat) -> u8 {
    (48 + d) as u8
}

/// A natural number in decimal, without leading zeros.
pub open spec fn decimal_nat(n: nat) -> Seq<u8>
    decreases n,
{
    if n < 10 {
        seq![digit(n)]
    } else {
        decimal_nat(n / 10).push(digit(n % 10))
    }
}

/// An integer in decimal, with a minus sign in front where it is negative.
pub open spec fn decimal(n: int) -> Seq<u8> {
    if n < 0 {
        seq![45u8] + decimal_nat((-n) as nat)
    } else {
        decimal_nat(n as nat)
    }
}

/// The header: the two-letter mark of the plain-text pixmap, the width
/// and the height, and the largest channel value, 255.
pub open spec fn header_spec(nx: int, ny: int) -> Seq<u8> {
    seq![80u8, 51u8, 10u8] + decimal(nx) + seq![32u8] + decimal(ny) + seq![
        10u8,
        50u8,
        53u8,
        53u8,
        10u8,
    ]
}

/// The line of one pixel: its three channels, a space between them.
pub open spec fn pixel_spec(p: Rgb) -> Seq<u8> {
    decimal(p.r as int) + seq![32u8] + decimal(p.g as int) + seq![32u8] + decimal(p.b as int)
        + seq![10u8]
}

/// The lines of the pixels, in their order.
pub open spec fn body_spec(pixels: Seq<Rgb>) -> Seq<u8>
    decreases pixels.len(),
{
    if pixels.len() == 0 {
        Seq::<u8>::empty()
    } else {
        body_spec(pixels.drop_last()) + pixel_spec(pixels.last())
    }
}

/// The whole image: the header, then the lines of the pixels.
pub open spec fn image_spec(nx: int, ny: int, pixels: Seq<Rgb>) -> Seq<u8> {
    header_spec(nx, ny) + body_spec(pixels)
}

fn push_decimal_nat(out: &mut Vec<u8>, n: u64)
    ensures
        final(out)@ == old(out)@ + decimal_nat(n as nat),
    decreases n,
{
    if n >= 10 {
        push_decimal_nat(out, n / 10);
    }
    let d: u8 = (n % 10) as u8;
    out.push(48 + d);
    proof {
        if n >= 10 {
            assert(final(out)@ =~= old(out)@ + decimal_nat((n / 10) as nat).push(digit((n % 10) as nat)));
        } else {
            assert(final(out)@ =~= old(out)@ + seq![digit(n as nat)]);
        }
    }
}

fn push_decimal(out: &mut Vec<u8>, n: i64)
    requires
        n > i64::MIN,
    ensures
        final(out)@ == old(out)@ + decimal(n as int),
{
    if n < 0 {
        out.push(45);
        push_decimal_nat(out, (-n) as u64);
        assert(final(out)@ =~= old(out)@ + (seq![45u8] + decimal_nat((-n) as nat)));
    } else {
        push_decimal_nat(out, n as u64);
    }
}

/// An integer in decimal.
pub fn format_decimal(n: i32) -> (text: Vec<u8>)
    ensures
        text@ == decimal(n as int),
{
    let mut text: Vec<u8> = Vec::new();
    push_decimal(&mut text, n as i64);
    assert(text@ =~= decimal(n as int));
    text
}

fn push_header(out: &mut Vec<u8>, nx: u32, ny: u32)
    ensures
        final(out)@ == old(out)@ + header_spec(nx as int, ny as int),
{
    out.push(80);
    out.push(51);
    out.push(10);
    push_decimal(out, nx as i64);
    out.push(32);
    push_decimal(out, ny as i64);
    out.push(10);
    out.push(50);
    out.push(53);
    out.push(53);
    out.push(10);
    assert(final(out)@ =~= old(out)@ + header_spec(nx as int, ny as int));
}

fn push_pixel(out: &mut Vec<u8>, p: Rgb)
    ensures
        final(out)@ == old(out)@ + pixel_spec(p),
{
    push_decimal(out, p.r as i64);
    out.push(32);
    push_decimal(out, p.g as i64);
    out.push(32);
    push_decimal(out, p.b as i64);
    out.push(10);
    assert(final(out)@ =~= old(out)@ + pixel_spec(p));
}

/// The header of an image `nx` wide and `ny` high.
pub fn header(nx: u32, ny: u32) -> (text: Vec<u8>)
    ensures
        text@ == header_spec(nx as int, ny as int),
{
    let mut text: Vec<u8> = Vec::new();
    push_header(&mut text, nx, ny);
    assert(text@ =~= header_spec(nx as int, ny as int));
    text
}

/// The line of one pixel.
pub fn pixel_line(p: Rgb) -> (text: Vec<u8>)
    ensures
        text@ == pixel_spec(p),
{
    let mut text: Vec<u8> = Vec::new();
    push_pixel(&mut text, p);
    assert(text@ =~= pixel_spec(p));
    text
}

/// The image file: the header for `nx` and `ny`, then one line for each of
/// `pixels` in the order given.
pub fn encode(nx: u32, ny: u32, pixels: &Vec<Rgb>) -> (text: Vec<u8>)
    ensures
        text@ == image_spec(nx as int, ny as int, pixels@),
{
    let mut text: Vec<u8> = Vec::new();
    push_header(&mut text, nx, ny);
    let mut k: usize = 0;
    while k < pixels.len()
        invariant
            k <= pixels@.len(),
            text@ =~= header_spec(nx as int, ny as int) + body_spec(pixels@.take(k as int)),
        decreases pixels@.len() - k,
    {
        push_pixel(&mut text, pixels[k]);
        proof {
            let upto = pixels@.take(k + 1);
            assert(upto.drop_last() =~= pixels@.take(k as int));
            assert(upto.last() == pixels@[k as int]);
        }
        k = k + 1;
    }
    assert(pixels@.take(k as int) =~= pixels@);
    text
}

} // verus!
