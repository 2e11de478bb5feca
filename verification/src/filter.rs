//! The scanline defilter engine: reverses the per-row byte filter
//! (None, Sub, Up, Average, Paeth) that PNG applies before compression.
//! All byte arithmetic wraps modulo 256.

use vstd::prelude::*;

verus! {

/// Byte addition modulo 256, the wraparound the filter formulas demand.
pub open spec fn add256(x: u8, y: u8) -> u8 {
    ((x + y) % 256) as u8
}

/// The Paeth predictor: of `a` (left), `b` (up) and `c` (up-left), the one
/// closest to `a + b - c`, ties broken in the order `a`, then `b`, then `c`.
pub open spec fn spec_paeth(a: u8, b: u8, c: u8) -> u8 {
    let p = a + b - c;
    let pa = if p >= a { p - a } else { a - p };
    let pb = if p >= b { p - b } else { b - p };
    let pc = if p >= c { p - c } else { c - p };
    if pa <= pb && pa <= pc {
        a
    } else if pb <= pc {
        b
    } else {
        c
    }
}

/// The reconstructed byte at position `x` of a row, given the filter type,
/// the filtered ("raw") row, the reconstructed previous row, and the byte
/// width `bpp` of one complete pixel. Positions before the row start read
/// as zero, as does the previous row of the image's first scanline when a
/// zero-filled row stands for it.
pub open spec fn recon_byte(ft: u8, raw: Seq<u8>, prev: Seq<u8>, bpp: int, x: int) -> u8
    recommends
        prev.len() == raw.len(),
        bpp >= 1,
    decreases x,
{
    if x < 0 || x >= raw.len() {
        0u8
    } else {
        let rx = raw[x];
        let a = if bpp >= 1 && x >= bpp {
            recon_byte(ft, raw, prev, bpp, x - bpp)
        } else {
            0u8
        };
        let b = if x < prev.len() {
            prev[x]
        } else {
            0u8
        };
        let c = if bpp >= 1 && x >= bpp && x - bpp < prev.len() {
            prev[x - bpp]
        } else {
            0u8
        };
        if ft == 0 {
            rx
        } else if ft == 1 {
            add256(rx, a)
        } else if ft == 2 {
            add256(rx, b)
        } else if ft == 3 {
            add256(rx, (((a + b) / 2) as u8))
        } else {
            add256(rx, spec_paeth(a, b, c))
        }
    }
}

/// A whole reconstructed row.
pub open spec fn recon_row(ft: u8, raw: Seq<u8>, prev: Seq<u8>, bpp: int) -> Seq<u8> {
    Seq::new(raw.len(), |x: int| recon_byte(ft, raw, prev, bpp, x))
}

/// Byte addition modulo 256.
fn add_wrap(x: u8, y: u8) -> (r: u8)
    ensures
        r == add256(x, y),
{
    (((x as u16) + (y as u16)) % 256) as u8
}

/// The Paeth predictor on concrete bytes.
fn paeth(a: u8, b: u8, c: u8) -> (r: u8)
    ensures
        r == spec_paeth(a, b, c),
{
    let p: i32 = a as i32 + b as i32 - c as i32;
    let da: i32 = p - a as i32;
    let db: i32 = p - b as i32;
    let dc: i32 = p - c as i32;
    let pa: i32 = if da < 0 { -da } else { da };
    let pb: i32 = if db < 0 { -db } else { db };
    let pc: i32 = if dc < 0 { -dc } else { dc };
    if pa <= pb && pa <= pc {
        a
    } else if pb <= pc {
        b
    } else {
        c
    }
}

/// Reverses one row's filter: `raw` is the filtered row from the
/// decompressed stream, `prev` the reconstructed row above it (all zero for
/// the first scanline), `bpp` the byte width of one complete pixel.
pub fn defilter_row(ft: u8, raw: &Vec<u8>, prev: &Vec<u8>, bpp: usize) -> (out: Vec<u8>)
    requires
        ft <= 4,
        bpp >= 1,
        prev@.len() == raw@.len(),
    ensures
        out@ == recon_row(ft, raw@, prev@, bpp as int),
{
    let n = raw.len();
    let mut out: Vec<u8> = Vec::new();
    let mut x: usize = 0;
    while x < n
        invariant
            x <= n,
            n == raw@.len(),
            prev@.len() == raw@.len(),
            ft <= 4,
            bpp >= 1,
            out@.len() == x,
            forall|j: int|
                0 <= j < x ==> out@[j] == recon_byte(ft, raw@, prev@, bpp as int, j),
        decreases n - x,
    {
        let a: u8 = if x >= bpp { out[x - bpp] } else { 0 };
        let b: u8 = prev[x];
        let c: u8 = if x >= bpp { prev[x - bpp] } else { 0 };
        let rx: u8 = raw[x];
        let v: u8 = if ft == 0 {
            rx
        } else if ft == 1 {
            add_wrap(rx, a)
        } else if ft == 2 {
            add_wrap(rx, b)
        } else if ft == 3 {
            add_wrap(rx, (((a as u16 + b as u16) / 2) as u8))
        } else {
            add_wrap(rx, paeth(a, b, c))
        };
        out.push(v);
        assert(out@[x as int] == recon_byte(ft, raw@, prev@, bpp as int, x as int));
        x = x + 1;
    }
    proof {
        assert(out@ =~= recon_row(ft, raw@, prev@, bpp as int));
    }
    out
}

} // verus!
