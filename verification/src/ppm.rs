//! The output writer: a colour buffer as a plain-text pixmap.
//!
//! The text starts with the line `P3`, a line with width and height, and the
//! line `255`. Then comes one line for each row of the raster, first row
//! first. A row is written from left to right, each pixel as its three levels
//! in decimal, each level followed by one space.

use vstd::prelude::*;
use crate::colour::Colour;
use crate::pixels::{has_shape, rows};

verus! {

/// The character `0`.
pub const ZERO: u8 = 48;

/// The space that follows every number of a row.
pub const SPACE: u8 = 32;

/// The end of a line.
pub const NEWLINE: u8 = 10;

/// The letter `P`, the first character of the text.
pub const LETTER_P: u8 = 80;

/// The digit `3`, which names the plain-text variant with three channels.
pub const DIGIT_3: u8 = 51;

/// The decimal digits of `n`, most significant first, without leading zeros.
pub open spec fn decimal(n: nat) -> Seq<u8>
    decreases n,
{
    if n < 10 {
        seq![(ZERO + n) as u8]
    } else {
        decimal(n / 10).push((ZERO + n % 10) as u8)
    }
}

/// One pixel: its three levels, each followed by a space.
pub open spec fn pixel_text(c: Colour) -> Seq<u8> {
    decimal(c.r as nat).push(SPACE) + decimal(c.g as nat).push(SPACE) + decimal(c.b as nat).push(
        SPACE,
    )
}

/// The pixels of one row, left to right, without the end of the line.
pub open spec fn row_text(row: Seq<Colour>) -> Seq<u8>
    decreases row.len(),
{
    if row.len() == 0 {
        Seq::empty()
    } else {
        row_text(row.drop_last()) + pixel_text(row.last())
    }
}

/// The rows of the raster, first row first, each ended by a newline.
pub open spec fn body_text(raster: Seq<Seq<Colour>>) -> Seq<u8>
    decreases raster.len(),
{
    if raster.len() == 0 {
        Seq::empty()
    } else {
        body_text(raster.drop_last()) + row_text(raster.last()).push(NEWLINE)
    }
}

/// The three lines before the rows: `P3`, width and height, `255`.
pub open spec fn header_text(width: nat, height: nat) -> Seq<u8> {
    seq![LETTER_P, DIGIT_3, NEWLINE] + decimal(width).push(SPACE) + decimal(height).push(NEWLINE)
        + decimal(255).push(NEWLINE)
}

/// The whole text of a raster.
pub open spec fn ppm_text(width: nat, height: nat, raster: Seq<Seq<Colour>>) -> Seq<u8> {
    header_text(width, height) + body_text(raster)
}

/// Appends the decimal digits of `n`.
fn push_decimal(out: &mut Vec<u8>, n: usize)
    ensures
        final(out)@ == old(out)@ + decimal(n as nat),
    decreases n,
{
    if n < 10 {
        let digit: u8 = ZERO + (n as u8);
        out.push(digit);
        assert(out@ =~= old(out)@ + decimal(n as nat));
    } else {
        push_decimal(out, n / 10);
        let digit: u8 = ZERO + ((n % 10) as u8);
        out.push(digit);
        assert(out@ =~= old(out)@ + decimal(n as nat));
    }
}

/// Appends one pixel.
fn push_pixel(out: &mut Vec<u8>, c: Colour)
    ensures
        final(out)@ == old(out)@ + pixel_text(c),
{
    push_decimal(out, c.r as usize);
    out.push(SPACE);
    push_decimal(out, c.g as usize);
    out.push(SPACE);
    push_decimal(out, c.b as usize);
    out.push(SPACE);
    assert(out@ =~= old(out)@ + pixel_text(c));
}

/// Appends one row and the end of its line.
fn push_row(out: &mut Vec<u8>, row: &Vec<Colour>)
    ensures
        final(out)@ == old(out)@ + row_text(row@).push(NEWLINE),
{
    let mut x: usize = 0;
    while x < row.len()
        invariant
            x <= row.len(),
            out@ == old(out)@ + row_text(row@.take(x as int)),
        decreases row.len() - x,
    {
        proof {
            assert(row@.take(x + 1).drop_last() =~= row@.take(x as int));
            assert(row@.take(x + 1).last() == row@[x as int]);
        }
        push_pixel(out, row[x]);
        assert(out@ =~= old(out)@ + row_text(row@.take(x + 1)));
        x = x + 1;
    }
    assert(row@.take(row.len() as int) =~= row@);
    out.push(NEWLINE);
    assert(out@ =~= old(out)@ + row_text(row@).push(NEWLINE));
}

/// Writes a rendered raster as a plain-text pixmap: the header with `width`
/// and `height`, then the rows of `buf` in their order.
pub fn write_ppm(width: usize, height: usize, buf: &Vec<Vec<Colour>>) -> (out: Vec<u8>)
    requires
        has_shape(rows(buf@), width as nat, height as nat),
    ensures
        out@ == ppm_text(width as nat, height as nat, rows(buf@)),
{
    let mut out: Vec<u8> = Vec::new();
    out.push(LETTER_P);
    out.push(DIGIT_3);
    out.push(NEWLINE);
    push_decimal(&mut out, width);
    out.push(SPACE);
    push_decimal(&mut out, height);
    out.push(NEWLINE);
    push_decimal(&mut out, 255);
    out.push(NEWLINE);
    assert(out@ =~= header_text(width as nat, height as nat));
    let mut y: usize = 0;
    while y < buf.len()
        invariant
            y <= buf.len(),
            out@ == header_text(width as nat, height as nat) + body_text(
                rows(buf@).take(y as int),
            ),
        decreases buf.len() - y,
    {
        proof {
            assert(rows(buf@).take(y + 1).drop_last() =~= rows(buf@).take(y as int));
            assert(rows(buf@).take(y + 1).last() == buf@[y as int]@);
        }
        push_row(&mut out, &buf[y]);
        assert(out@ =~= header_text(width as nat, height as nat) + body_text(
            rows(buf@).take(y + 1),
        ));
        y = y + 1;
    }
    assert(rows(buf@).take(buf.len() as int) =~= rows(buf@));
    out
}

} // verus!
