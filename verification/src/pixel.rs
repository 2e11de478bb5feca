//! The pixel reconstructor: turns one reconstructed scanline into RGB
//! pixels according to the color model, dropping any alpha channel.

use vstd::prelude::*;
use crate::PixelRGB;
use crate::png::DecodeError;

verus! {

/// Whether pixel `i` of the row can be reconstructed: for the indexed
/// model the palette must hold the index; the other models cannot fail.
pub open spec fn pixel_ok(
    row: Seq<u8>,
    color_type: u8,
    bpp: int,
    i: int,
    palette: Seq<(u8, u8, u8)>,
) -> bool {
    if color_type == 3 {
        (row[i * bpp] as int) < palette.len()
    } else {
        true
    }
}

/// Pixel `i` of the row: grayscale models replicate the first byte of the
/// group, true-color models take three bytes, the indexed model looks the
/// first byte up in the palette. An alpha byte is read past, never kept.
pub open spec fn pixel_at(
    row: Seq<u8>,
    color_type: u8,
    bpp: int,
    i: int,
    palette: Seq<(u8, u8, u8)>,
) -> PixelRGB
    recommends
        pixel_ok(row, color_type, bpp, i, palette),
{
    if color_type == 0 || color_type == 4 {
        let v = row[i * bpp];
        PixelRGB(v, v, v)
    } else if color_type == 2 || color_type == 6 {
        PixelRGB(row[i * bpp], row[i * bpp + 1], row[i * bpp + 2])
    } else {
        let e = palette[row[i * bpp] as int];
        PixelRGB(e.0, e.1, e.2)
    }
}

/// All `width` pixels of one reconstructed row, or `Format` when an
/// indexed pixel points past the palette.
pub open spec fn spec_row_pixels(
    row: Seq<u8>,
    color_type: u8,
    bpp: int,
    width: int,
    palette: Seq<(u8, u8, u8)>,
) -> Result<Seq<PixelRGB>, DecodeError> {
    if forall|i: int| 0 <= i < width ==> pixel_ok(row, color_type, bpp, i, palette) {
        Ok(Seq::new(width as nat, |i: int| pixel_at(row, color_type, bpp, i, palette)))
    } else {
        Err(DecodeError::Format)
    }
}

/// An indexed-color row holding a palette index at or past the palette
/// length fails with `Format`: no pixel is ever read from outside the
/// palette.
pub proof fn lemma_indexed_out_of_range(
    row: Seq<u8>,
    bpp: int,
    width: int,
    palette: Seq<(u8, u8, u8)>,
    i: int,
)
    requires
        0 <= i < width,
        row[i * bpp] >= palette.len(),
    ensures
        spec_row_pixels(row, 3, bpp, width, palette) == Err::<Seq<PixelRGB>, DecodeError>(
            DecodeError::Format,
        ),
{
    assert(!pixel_ok(row, 3, bpp, i, palette));
}

/// Reconstructs the pixels of one row, stepping through it in `bpp`-byte
/// groups.
pub fn row_pixels(
    row: &Vec<u8>,
    color_type: u8,
    bpp: usize,
    width: u32,
    palette: &Vec<(u8, u8, u8)>,
) -> (r: Result<Vec<PixelRGB>, DecodeError>)
    requires
        color_type == 0 || color_type == 2 || color_type == 3 || color_type == 4
            || color_type == 6,
        bpp >= 1,
        (color_type == 2 || color_type == 6) ==> bpp >= 3,
        row@.len() == width * bpp,
    ensures
        match spec_row_pixels(row@, color_type, bpp as int, width as int, palette@) {
            Ok(s) => r matches Ok(v) && v@ == s,
            Err(e) => r == Err::<Vec<PixelRGB>, DecodeError>(e),
        },
{
    let rlen: usize = row.len();
    let mut out: Vec<PixelRGB> = Vec::new();
    let mut i: u32 = 0;
    let mut idx: usize = 0;
    while i < width
        invariant
            i <= width,
            idx == i * bpp,
            rlen == row@.len(),
            row@.len() == width * bpp,
            bpp >= 1,
            color_type == 0 || color_type == 2 || color_type == 3 || color_type == 4
                || color_type == 6,
            (color_type == 2 || color_type == 6) ==> bpp >= 3,
            out@.len() == i,
            forall|j: int|
                0 <= j < i ==> pixel_ok(row@, color_type, bpp as int, j, palette@),
            forall|j: int|
                0 <= j < i ==> out@[j] == pixel_at(row@, color_type, bpp as int, j, palette@),
        decreases width - i,
    {
        proof {
            assert((i + 1) * (bpp as int) == i * (bpp as int) + bpp) by (nonlinear_arith);
            assert((i + 1) * (bpp as int) <= width * (bpp as int)) by (nonlinear_arith)
                requires
                    i < width,
                    bpp >= 1,
            ;
            assert(idx + bpp <= rlen);
        }
        let px: PixelRGB = if color_type == 0 || color_type == 4 {
            let v = row[idx];
            PixelRGB(v, v, v)
        } else if color_type == 2 || color_type == 6 {
            PixelRGB(row[idx], row[idx + 1], row[idx + 2])
        } else {
            let pi = row[idx];
            if (pi as usize) >= palette.len() {
                proof {
                    assert(!pixel_ok(row@, color_type, bpp as int, i as int, palette@));
                }
                return Err(DecodeError::Format);
            }
            let e = palette[pi as usize];
            PixelRGB(e.0, e.1, e.2)
        };
        out.push(px);
        assert(out@[i as int] == pixel_at(row@, color_type, bpp as int, i as int, palette@));
        i = i + 1;
        idx = idx + bpp;
    }
    proof {
        assert(out@ =~= Seq::new(
            width as nat,
            |j: int| pixel_at(row@, color_type, bpp as int, j, palette@),
        ));
    }
    Ok(out)
}

} // verus!
