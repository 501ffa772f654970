use vstd::prelude::*;

use crate::image::{Image, ImageView, Pixel};

verus! {

/// Size of the file header plus the information header.
pub const BMP_HEADERS_SIZE: u32 = 54;

/// The two bytes of `n` modulo 2^16, least significant first.
pub open spec fn le16(n: nat) -> Seq<u8> {
    seq![(n % 256) as u8, ((n / 256) % 256) as u8]
}

/// The four bytes of `n` modulo 2^32, least significant first.
pub open spec fn le32(n: nat) -> Seq<u8> {
    seq![
        (n % 256) as u8,
        ((n / 256) % 256) as u8,
        ((n / 65536) % 256) as u8,
        ((n / 16777216) % 256) as u8,
    ]
}

/// Zero bytes that bring a row of `width` pixels to a multiple of four bytes.
pub open spec fn bmp_padding(width: nat) -> nat {
    ((4 - (3 * width) % 4) % 4) as nat
}

pub open spec fn bmp_row_size(width: nat) -> nat {
    3 * width + bmp_padding(width)
}

pub open spec fn bmp_data_size(v: ImageView) -> nat {
    bmp_row_size(v.width) * v.height
}

pub open spec fn bmp_file_size(v: ImageView) -> nat {
    54 + bmp_data_size(v)
}

/// The file header ("BM", file size, two reserved words, offset of the
/// pixels) and the 40-byte information header of a 24-bit uncompressed image.
pub open spec fn bmp_header(v: ImageView) -> Seq<u8> {
    seq![66u8, 77u8] + le32(bmp_file_size(v)) + le16(0) + le16(0) + le32(54)
        + le32(40) + le32(v.width) + le32(v.height) + le16(1) + le16(24)
        + le32(0) + le32(bmp_data_size(v)) + le32(0) + le32(0) + le32(0) + le32(0)
}

/// The pixels of a row as blue, green, red triples.
pub open spec fn bgr_bytes(row: Seq<Pixel>) -> Seq<u8>
    decreases row.len(),
{
    if row.len() == 0 {
        seq![]
    } else {
        let p = row.last();
        bgr_bytes(row.drop_last()) + seq![p.b, p.g, p.r]
    }
}

pub open spec fn bmp_row(row: Seq<Pixel>, width: nat) -> Seq<u8> {
    bgr_bytes(row) + Seq::new(bmp_padding(width), |_i: int| 0u8)
}

/// The first `k` rows of pixel data; BMP stores the bottom row first.
pub open spec fn bmp_rows(v: ImageView, k: nat) -> Seq<u8>
    decreases k,
{
    if k == 0 {
        seq![]
    } else {
        bmp_rows(v, (k - 1) as nat) + bmp_row(v.rows[v.height - k], v.width)
    }
}

pub open spec fn bmp_file(v: ImageView) -> Seq<u8> {
    bmp_header(v) + bmp_rows(v, v.height)
}

fn push_le16(out: &mut Vec<u8>, n: u16)
    ensures
        final(out)@ == old(out)@ + le16(n as nat),
{
    out.push((n % 256) as u8);
    out.push(((n / 256) % 256) as u8);
    assert(final(out)@ =~= old(out)@ + le16(n as nat));
}

fn push_le32(out: &mut Vec<u8>, n: u32)
    ensures
        final(out)@ == old(out)@ + le32(n as nat),
{
    out.push((n % 256) as u8);
    out.push(((n / 256) % 256) as u8);
    out.push(((n / 65536) % 256) as u8);
    out.push(((n / 16777216) % 256) as u8);
    assert(final(out)@ =~= old(out)@ + le32(n as nat));
}

impl Image {
    /// The image as a 24-bit BMP file, or `None` when the file would be
    /// larger than the format's 32-bit size fields can describe.
    pub fn bmp_bytes(&self) -> (r: Option<Vec<u8>>)
        requires
            self.wf(),
        ensures
            r is Some <==> bmp_file_size(self@) <= u32::MAX,
            r matches Some(bytes) ==> bytes@ == bmp_file(self@),
    {
        let width = self.width();
        let height = self.height();
        let pad: u128 = (4 - (3 * (width as u128)) % 4) % 4;
        let row_size: u128 = 3 * (width as u128) + pad;
        if row_size > u32::MAX as u128 {
            assert(bmp_data_size(self@) >= bmp_row_size(self@.width)) by (nonlinear_arith)
                requires
                    bmp_data_size(self@) == bmp_row_size(self@.width) * self@.height,
                    self@.height >= 1,
            ;
            return None;
        }
        assert(row_size * (height as u128) <= 0xffff_ffff * 0xffff_ffff_ffff_ffff) by (nonlinear_arith)
            requires
                row_size <= 0xffff_ffff,
                height <= 0xffff_ffff_ffff_ffff,
        ;
        let data_size: u128 = row_size * (height as u128);
        if 54 + data_size > u32::MAX as u128 {
            return None;
        }
        assert(height <= data_size) by (nonlinear_arith)
            requires
                data_size == row_size * height,
                row_size >= 3,
        ;
        let mut out: Vec<u8> = Vec::new();
        out.push(66u8);
        out.push(77u8);
        push_le32(&mut out, (54 + data_size) as u32);
        push_le16(&mut out, 0);
        push_le16(&mut out, 0);
        push_le32(&mut out, BMP_HEADERS_SIZE);
        push_le32(&mut out, 40);
        push_le32(&mut out, width as u32);
        push_le32(&mut out, height as u32);
        push_le16(&mut out, 1);
        push_le16(&mut out, 24);
        push_le32(&mut out, 0);
        push_le32(&mut out, data_size as u32);
        push_le32(&mut out, 0);
        push_le32(&mut out, 0);
        push_le32(&mut out, 0);
        push_le32(&mut out, 0);
        let ghost header = out@;
        assert(header =~= bmp_header(self@));
        let pad = pad as usize;
        let mut k: usize = 0;
        while k < height
            invariant
                self.wf(),
                height == self@.height,
                width == self@.width,
                pad == bmp_padding(self@.width),
                k <= height,
                header == bmp_header(self@),
                out@ == header + bmp_rows(self@, k as nat),
            decreases height - k,
        {
            let row = height - 1 - k;
            let ghost before = out@;
            let ghost src = self@.rows[row as int];
            let mut col: usize = 0;
            while col < width
                invariant
                    self.wf(),
                    width == self@.width,
                    row < self@.height,
                    src == self@.rows[row as int],
                    col <= width,
                    out@ == before + bgr_bytes(src.take(col as int)),
                decreases width - col,
            {
                let p = self.pixel(row, col);
                out.push(p.b);
                out.push(p.g);
                out.push(p.r);
                assert(src.take(col + 1).drop_last() =~= src.take(col as int));
                col = col + 1;
            }
            assert(src.take(width as int) =~= src);
            let mut z: usize = 0;
            while z < pad
                invariant
                    z <= pad,
                    out@ == before + bgr_bytes(src) + Seq::new(z as nat, |_i: int| 0u8),
                decreases pad - z,
            {
                out.push(0u8);
                z = z + 1;
                assert(out@ =~= before + bgr_bytes(src) + Seq::new(z as nat, |_i: int| 0u8));
            }
            k = k + 1;
            assert(out@ =~= header + bmp_rows(self@, k as nat));
        }
        Some(out)
    }
}

} // verus!
