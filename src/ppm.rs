use vstd::prelude::*;

use crate::image::{Image, ImageView, Pixel};

verus! {

/// The decimal digits of `n` in ASCII, without leading zeros.
pub open spec fn decimal(n: nat) -> Seq<u8>
    decreases n,
{
    if n < 10 {
        seq![(48 + n) as u8]
    } else {
        decimal(n / 10) + seq![(48 + n % 10) as u8]
    }
}

/// "P3", then width and height, then the largest channel value 255, each on
/// a line of its own.
pub open spec fn ppm_header(v: ImageView) -> Seq<u8> {
    seq![80u8, 51u8, 10u8] + decimal(v.width) + seq![32u8] + decimal(v.height) + seq![
        10u8,
        50u8,
        53u8,
        53u8,
        10u8,
    ]
}

/// A pixel as one line: its red, green and blue values, separated by spaces.
pub open spec fn ppm_pixel(p: Pixel) -> Seq<u8> {
    decimal(p.r as nat) + seq![32u8] + decimal(p.g as nat) + seq![32u8] + decimal(p.b as nat)
        + seq![10u8]
}

pub open spec fn ppm_row(row: Seq<Pixel>) -> Seq<u8>
    decreases row.len(),
{
    if row.len() == 0 {
        seq![]
    } else {
        ppm_row(row.drop_last()) + ppm_pixel(row.last())
    }
}

/// The first `k` rows, top row first.
pub open spec fn ppm_rows(rows: Seq<Seq<Pixel>>, k: nat) -> Seq<u8>
    decreases k,
{
    if k == 0 {
        seq![]
    } else {
        ppm_rows(rows, (k - 1) as nat) + ppm_row(rows[k - 1])
    }
}

/// The image as plain-text PPM.
pub open spec fn ppm_file(v: ImageView) -> Seq<u8> {
    ppm_header(v) + ppm_rows(v.rows, v.height)
}

/// Appends the decimal digits of `n`.
pub fn push_decimal(out: &mut Vec<u8>, n: usize)
    ensures
        final(out)@ == old(out)@ + decimal(n as nat),
    decreases n,
{
    if n >= 10 {
        push_decimal(out, n / 10);
    }
    out.push((48 + n % 10) as u8);
    assert(final(out)@ =~= old(out)@ + decimal(n as nat));
}

fn push_ppm_pixel(out: &mut Vec<u8>, p: Pixel)
    ensures
        final(out)@ == old(out)@ + ppm_pixel(p),
{
    push_decimal(out, p.r as usize);
    out.push(32u8);
    push_decimal(out, p.g as usize);
    out.push(32u8);
    push_decimal(out, p.b as usize);
    out.push(10u8);
    assert(final(out)@ =~= old(out)@ + ppm_pixel(p));
}

impl Image {
    /// The image as plain-text PPM, rows top to bottom.
    pub fn ppm_bytes(&self) -> (bytes: Vec<u8>)
        requires
            self.wf(),
        ensures
            bytes@ == ppm_file(self@),
    {
        let width = self.width();
        let height = self.height();
        let mut out: Vec<u8> = Vec::new();
        out.push(80u8);
        out.push(51u8);
        out.push(10u8);
        push_decimal(&mut out, width);
        out.push(32u8);
        push_decimal(&mut out, height);
        out.push(10u8);
        out.push(50u8);
        out.push(53u8);
        out.push(53u8);
        out.push(10u8);
        let ghost header = out@;
        assert(header =~= ppm_header(self@));
        let mut row: usize = 0;
        while row < height
            invariant
                self.wf(),
                height == self@.height,
                width == self@.width,
                row <= height,
                header == ppm_header(self@),
                out@ == header + ppm_rows(self@.rows, row as nat),
            decreases height - row,
        {
            let ghost before = out@;
            let ghost src = self@.rows[row as int];
            let mut col: usize = 0;
            while col < width
                invariant
                    self.wf(),
                    width == self@.width,
                    row < self@.height,
                    src == self@.rows[row as int],
                    col <= width,
                    out@ == before + ppm_row(src.take(col as int)),
                decreases width - col,
            {
                let p = self.pixel(row, col);
                push_ppm_pixel(&mut out, p);
                assert(src.take(col + 1).drop_last() =~= src.take(col as int));
                col = col + 1;
            }
            assert(src.take(width as int) =~= src);
            row = row + 1;
            assert(out@ =~= header + ppm_rows(self@.rows, row as nat));
        }
        out
    }
}

} // verus!
