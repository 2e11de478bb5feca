//! The PNG container: signature check, chunk stream reading, header
//! parsing, palette accumulation, payload decompression, and the
//! top-level decode that drives the defilter engine and the pixel
//! reconstructor.

use vstd::prelude::*;
use crate::filter::{defilter_row, recon_row};
use crate::pixel::spec_row_pixels;
use crate::{IntermediateImage, PixelRGB, Pixels};

verus! {

/// Why a decode failed. Every failure is fatal to the decode; there is no
/// partial image.
#[derive(Clone, Copy, PartialEq, Eq, Structural, Debug)]
pub enum DecodeError {
    /// The first 8 bytes are not the PNG signature.
    SignatureMismatch,
    /// Fewer bytes are available than a length field promises, at any layer.
    TruncatedInput,
    /// Interlacing, a bit depth other than 8, an unknown color model code,
    /// a nonzero compression or filter method, or an unknown filter-type byte.
    UnsupportedFormat,
    /// A palette index out of range, or a zero dimension.
    Format,
    /// The zlib stream could not be inflated.
    Decompression,
}

/// The image metadata carried by the IHDR chunk.
#[derive(Clone, Copy, PartialEq, Eq, Structural, Debug)]
pub struct PNGInfo {
    pub width: u32,
    pub height: u32,
    pub bitdepth: u8,
    pub color_type: u8,
    pub compression_method: u8,
    pub filter_method: u8,
    pub interlace_adam7: bool,
}

/// The metadata before any IHDR chunk has been seen: all fields zero.
pub open spec fn spec_default_info() -> PNGInfo {
    PNGInfo {
        width: 0,
        height: 0,
        bitdepth: 0,
        color_type: 0,
        compression_method: 0,
        filter_method: 0,
        interlace_adam7: false,
    }
}

impl Default for PNGInfo {
    fn default() -> (r: PNGInfo)
        ensures
            r == spec_default_info(),
    {
        PNGInfo {
            width: 0,
            height: 0,
            bitdepth: 0,
            color_type: 0,
            compression_method: 0,
            filter_method: 0,
            interlace_adam7: false,
        }
    }
}

/// The 4 bytes at `i` read as a big-endian unsigned number.
pub open spec fn be32(s: Seq<u8>, i: int) -> int
    recommends
        0 <= i,
        i + 4 <= s.len(),
{
    s[i] * 0x1000000 + s[i + 1] * 0x10000 + s[i + 2] * 0x100 + s[i + 3]
}

/// A recognized color model code: 0 grayscale, 2 true color, 3 indexed,
/// 4 grayscale with alpha, 6 true color with alpha.
pub open spec fn valid_color_type(ct: u8) -> bool {
    ct == 0 || ct == 2 || ct == 3 || ct == 4 || ct == 6
}

/// A bit depth the container admits.
pub open spec fn valid_bitdepth(bd: u8) -> bool {
    bd == 1 || bd == 2 || bd == 4 || bd == 8 || bd == 16
}

/// Bits per pixel: bit depth times channel count, with one channel for
/// the grayscale and indexed models, two for grayscale with alpha, three
/// for true color and four for true color with alpha.
pub open spec fn spec_bpp_bits(info: PNGInfo) -> int
    recommends
        valid_color_type(info.color_type),
{
    if info.color_type == 0 {
        info.bitdepth as int
    } else if info.color_type == 2 {
        3 * info.bitdepth
    } else if info.color_type == 3 {
        info.bitdepth as int
    } else if info.color_type == 4 {
        2 * info.bitdepth
    } else {
        4 * info.bitdepth
    }
}

/// Metadata the rest of the pipeline can decode from.
pub open spec fn info_well_formed(info: PNGInfo) -> bool {
    &&& valid_color_type(info.color_type)
    &&& valid_bitdepth(info.bitdepth)
    &&& info.compression_method == 0
    &&& info.filter_method == 0
    &&& !info.interlace_adam7
    &&& info.width > 0
    &&& info.height > 0
}

/// What the 13 IHDR bytes mean, with the checks in the order the parser
/// makes them: the interlace flag first, so that an interlaced header is
/// rejected whatever the rest of it holds.
pub open spec fn parse_ihdr(d: Seq<u8>) -> Result<PNGInfo, DecodeError> {
    if d.len() < 13 {
        Err(DecodeError::TruncatedInput)
    } else {
        let info = PNGInfo {
            width: be32(d, 0) as u32,
            height: be32(d, 4) as u32,
            bitdepth: d[8],
            color_type: d[9],
            compression_method: d[10],
            filter_method: d[11],
            interlace_adam7: d[12] == 1,
        };
        if d[12] != 0 {
            Err(DecodeError::UnsupportedFormat)
        } else if !valid_color_type(info.color_type) {
            Err(DecodeError::UnsupportedFormat)
        } else if !valid_bitdepth(info.bitdepth) {
            Err(DecodeError::UnsupportedFormat)
        } else if info.compression_method != 0 {
            Err(DecodeError::UnsupportedFormat)
        } else if info.filter_method != 0 {
            Err(DecodeError::UnsupportedFormat)
        } else if info.width == 0 || info.height == 0 {
            Err(DecodeError::Format)
        } else {
            Ok(info)
        }
    }
}

/// Reads the 4 bytes at `i` as a big-endian unsigned 32-bit number.
fn be32_read(d: &[u8], i: usize) -> (r: u32)
    requires
        i + 4 <= d@.len(),
    ensures
        r == be32(d@, i as int),
{
    (d[i] as u32) * 0x1000000 + (d[i + 1] as u32) * 0x10000 + (d[i + 2] as u32) * 0x100 + (d[i
        + 3] as u32)
}

impl PNGInfo {
    /// Parses the 13-byte IHDR chunk body into `self`. On any rejection
    /// `self` is left as it was.
    pub fn from_idhr(&mut self, idhr: &[u8]) -> (r: Result<(), DecodeError>)
        ensures
            match parse_ihdr(idhr@) {
                Ok(info) => r is Ok && *final(self) == info,
                Err(e) => r == Err::<(), DecodeError>(e) && *final(self) == *old(self),
            },
    {
        if idhr.len() < 13 {
            return Err(DecodeError::TruncatedInput);
        }
        let width = be32_read(idhr, 0);
        let height = be32_read(idhr, 4);
        let bitdepth = idhr[8];
        let color_type = idhr[9];
        let compression_method = idhr[10];
        let filter_method = idhr[11];
        let interlace = idhr[12];
        if interlace != 0 {
            return Err(DecodeError::UnsupportedFormat);
        }
        if !(color_type == 0 || color_type == 2 || color_type == 3 || color_type == 4
            || color_type == 6) {
            return Err(DecodeError::UnsupportedFormat);
        }
        if !(bitdepth == 1 || bitdepth == 2 || bitdepth == 4 || bitdepth == 8 || bitdepth == 16) {
            return Err(DecodeError::UnsupportedFormat);
        }
        if compression_method != 0 {
            return Err(DecodeError::UnsupportedFormat);
        }
        if filter_method != 0 {
            return Err(DecodeError::UnsupportedFormat);
        }
        if width == 0 || height == 0 {
            return Err(DecodeError::Format);
        }
        self.width = width;
        self.height = height;
        self.bitdepth = bitdepth;
        self.color_type = color_type;
        self.compression_method = compression_method;
        self.filter_method = filter_method;
        self.interlace_adam7 = false;
        Ok(())
    }

    /// Bits per pixel of this metadata.
    pub fn get_bpp(&self) -> (r: u8)
        requires
            valid_color_type(self.color_type),
            valid_bitdepth(self.bitdepth),
        ensures
            r == spec_bpp_bits(*self),
    {
        match self.color_type {
            0 => self.bitdepth,
            2 => self.bitdepth * 3,
            3 => self.bitdepth,
            4 => self.bitdepth * 2,
            _ => self.bitdepth * 4,
        }
    }
}

/// One (red, green, blue) palette entry per complete 3-byte group of a
/// PLTE chunk body, in chunk order; a trailing partial group is ignored.
pub open spec fn plte_entries(d: Seq<u8>) -> Seq<(u8, u8, u8)> {
    Seq::new((d.len() / 3) as nat, |j: int| (d[3 * j], d[3 * j + 1], d[3 * j + 2]))
}

/// What the chunk stream from offset `i` on yields, on top of what has
/// been gathered so far: the parsed IHDR metadata (if any), the palette
/// entries in file order, and the IDAT payloads concatenated in file
/// order. Each chunk is a 4-byte big-endian length, a 4-byte tag, the
/// body, and a 4-byte checksum that is read and discarded. IEND ends the
/// stream; an unknown tag is skipped; running out of bytes mid-chunk is
/// `TruncatedInput`.
pub open spec fn spec_parse_chunks(
    s: Seq<u8>,
    i: int,
    ihdr: Option<PNGInfo>,
    palette: Seq<(u8, u8, u8)>,
    idat: Seq<u8>,
) -> Result<(Option<PNGInfo>, Seq<(u8, u8, u8)>, Seq<u8>), DecodeError>
    decreases s.len() - i,
{
    if i < 0 || i + 8 > s.len() {
        Err(DecodeError::TruncatedInput)
    } else {
        let clen = be32(s, i);
        let tag = be32(s, i + 4);
        if i + 12 + clen > s.len() {
            Err(DecodeError::TruncatedInput)
        } else {
            let body = s.subrange(i + 8, i + 8 + clen);
            let next = i + 12 + clen;
            if tag == 0x49454E44 {  // "IEND"
                Ok((ihdr, palette, idat))
            } else if tag == 0x49484452 {  // "IHDR"
                match parse_ihdr(body) {
                    Ok(info) => spec_parse_chunks(s, next, Some(info), palette, idat),
                    Err(e) => Err(e),
                }
            } else if tag == 0x504C5445 {  // "PLTE"
                spec_parse_chunks(s, next, ihdr, palette + plte_entries(body), idat)
            } else if tag == 0x49444154 {  // "IDAT"
                spec_parse_chunks(s, next, ihdr, palette, idat + body)
            } else {
                spec_parse_chunks(s, next, ihdr, palette, idat)
            }
        }
    }
}

/// Reads the chunk stream that follows the signature: gathers the header,
/// the palette and the concatenated compressed payload, stopping at IEND.
/// When no IHDR was seen the returned metadata is the all-zero default.
#[verifier::loop_isolation(false)]
pub fn parse_chunks(data: &[u8]) -> (r: Result<
    (PNGInfo, Vec<(u8, u8, u8)>, Vec<u8>),
    DecodeError,
>)
    ensures
        match spec_parse_chunks(
            data@,
            8,
            None::<PNGInfo>,
            Seq::<(u8, u8, u8)>::empty(),
            Seq::<u8>::empty(),
        ) {
            Ok(acc) => {
                &&& r matches Ok(t)
                &&& t.1@ == acc.1
                &&& t.2@ == acc.2
                &&& (acc.0 matches Some(x) ==> t.0 == x && info_well_formed(x))
                &&& (acc.0 is None ==> t.0 == spec_default_info())
            },
            Err(e) => r == Err::<(PNGInfo, Vec<(u8, u8, u8)>, Vec<u8>), DecodeError>(e),
        },
{
    let ghost full = spec_parse_chunks(
        data@,
        8,
        None::<PNGInfo>,
        Seq::<(u8, u8, u8)>::empty(),
        Seq::<u8>::empty(),
    );
    let mut info = PNGInfo::default();
    let ghost mut cur: Option<PNGInfo> = None;
    let mut palette: Vec<(u8, u8, u8)> = Vec::new();
    let mut idat: Vec<u8> = Vec::new();
    let mut i: usize = 8;
    loop
        invariant
            spec_parse_chunks(data@, i as int, cur, palette@, idat@) == full,
            cur matches Some(x) ==> info == x && info_well_formed(x),
            cur is None ==> info == spec_default_info(),
        decreases data@.len() - i,
    {
        if data.len() < i || data.len() - i < 8 {
            return Err(DecodeError::TruncatedInput);
        }
        let clen = be32_read(data, i);
        let tag = be32_read(data, i + 4);
        if data.len() - i - 8 < 4 || (clen as usize) > data.len() - i - 12 {
            return Err(DecodeError::TruncatedInput);
        }
        let body: &[u8] = vstd::slice::slice_subrange(data, i + 8, i + 8 + clen as usize);
        let next: usize = i + 12 + clen as usize;
        if tag == 0x49454E44 {  // "IEND"
            return Ok((info, palette, idat));
        } else if tag == 0x49484452 {  // "IHDR"
            match info.from_idhr(body) {
                Ok(()) => {
                    proof {
                        cur = Some(info);
                    }
                },
                Err(e) => {
                    return Err(e);
                },
            }
        } else if tag == 0x504C5445 {  // "PLTE"
            let ghost palette_before = palette@;
            let blen: usize = body.len();
            let samples: usize = blen / 3;
            let mut j: usize = 0;
            while j < samples
                invariant
                    samples == body@.len() / 3,
                    j <= samples,
                    palette@ == palette_before + plte_entries(body@).take(j as int),
                decreases samples - j,
            {
                proof {
                    assert(3 * (j as int) + 3 <= 3 * (samples as int));
                    assert(3 * (samples as int) <= blen as int);
                }
                let e = (body[3 * j], body[3 * j + 1], body[3 * j + 2]);
                palette.push(e);
                proof {
                    assert(palette@ =~= palette_before + plte_entries(body@).take(j + 1));
                }
                j = j + 1;
            }
            proof {
                assert(palette@ =~= palette_before + plte_entries(body@));
            }
        } else if tag == 0x49444154 {  // "IDAT"
            let ghost idat_before = idat@;
            let mut k: usize = 0;
            while k < body.len()
                invariant
                    k <= body@.len(),
                    idat@ == idat_before + body@.take(k as int),
                decreases body@.len() - k,
            {
                idat.push(body[k]);
                proof {
                    assert(idat@ =~= idat_before + body@.take(k + 1));
                }
                k = k + 1;
            }
            proof {
                assert(idat@ =~= idat_before + body@);
            }
        }
        i = next;
    }
}

/// What `inflate::inflate_bytes_zlib` yields on a byte sequence: the
/// inflated bytes, or `None` for a stream the inflater rejects.
pub uninterp spec fn zlib_inflate_of(s: Seq<u8>) -> Option<Seq<u8>>;

/// Relies on inflate::inflate_bytes_zlib: inflating a zlib-wrapped
/// DEFLATE stream, a function of the input bytes alone, with no partial
/// result on failure.
#[verifier::external_body]
fn inflate_zlib(data: &Vec<u8>) -> (r: Option<Vec<u8>>)
    ensures
        r is Some <==> zlib_inflate_of(data@) is Some,
        r matches Some(v) ==> zlib_inflate_of(data@) == Some(v@),
{
    inflate::inflate_bytes_zlib(data.as_slice()).ok()
}

/// A zero-filled row, standing for the scanline above the first one.
pub open spec fn zero_row(n: int) -> Seq<u8> {
    Seq::new(n as nat, |i: int| 0u8)
}

/// Puts already-reconstructed pixels in front of the outcome for the
/// remaining rows.
pub open spec fn prepend_pixels(
    px: Seq<PixelRGB>,
    r: Result<Seq<PixelRGB>, DecodeError>,
) -> Result<Seq<PixelRGB>, DecodeError> {
    match r {
        Ok(rest) => Ok(px + rest),
        Err(e) => Err(e),
    }
}

/// The pixels of rows `row .. height` of the decompressed stream: each
/// row is one filter-type byte (0 to 4, anything else is unsupported)
/// followed by `width * bpp` filtered bytes, reconstructed against the
/// previous reconstructed row and handed to the pixel reconstructor.
pub open spec fn spec_decode_rows(
    raw: Seq<u8>,
    row: int,
    prev: Seq<u8>,
    color_type: u8,
    bpp: int,
    width: int,
    height: int,
    palette: Seq<(u8, u8, u8)>,
) -> Result<Seq<PixelRGB>, DecodeError>
    decreases height - row,
{
    if row >= height {
        Ok(Seq::empty())
    } else {
        let off = row * (1 + width * bpp);
        let ft = raw[off];
        if ft > 4 {
            Err(DecodeError::UnsupportedFormat)
        } else {
            let rec = recon_row(ft, raw.subrange(off + 1, off + 1 + width * bpp), prev, bpp);
            match spec_row_pixels(rec, color_type, bpp, width, palette) {
                Err(e) => Err(e),
                Ok(px) => match spec_decode_rows(
                    raw,
                    row + 1,
                    rec,
                    color_type,
                    bpp,
                    width,
                    height,
                    palette,
                ) {
                    Err(e) => Err(e),
                    Ok(rest) => Ok(px + rest),
                },
            }
        }
    }
}

/// The first 8 bytes are the canonical PNG signature.
pub open spec fn is_png_signature(s: Seq<u8>) -> bool {
    s.len() >= 8 && s[0] == 0x89 && s[1] == 0x50 && s[2] == 0x4e && s[3] == 0x47 && s[4] == 0x0d
        && s[5] == 0x0a && s[6] == 0x1a && s[7] == 0x0a
}

/// What decoding a whole byte stream yields: the dimensions and the
/// row-major pixel sequence, or the error of the first stage that fails.
pub open spec fn spec_decode(s: Seq<u8>) -> Result<(u32, u32, Seq<PixelRGB>), DecodeError> {
    if !is_png_signature(s) {
        Err(DecodeError::SignatureMismatch)
    } else {
        match spec_parse_chunks(
            s,
            8,
            None::<PNGInfo>,
            Seq::<(u8, u8, u8)>::empty(),
            Seq::<u8>::empty(),
        ) {
            Err(e) => Err(e),
            Ok(acc) => {
                let info = match acc.0 {
                    Some(x) => x,
                    None => spec_default_info(),
                };
                if info.bitdepth != 8 {
                    Err(DecodeError::UnsupportedFormat)
                } else {
                    let bpp = spec_bpp_bits(info) / 8;
                    match zlib_inflate_of(acc.2) {
                        None => Err(DecodeError::Decompression),
                        Some(raw) => {
                            if raw.len() < info.height * (1 + info.width * bpp) {
                                Err(DecodeError::TruncatedInput)
                            } else {
                                match spec_decode_rows(
                                    raw,
                                    0,
                                    zero_row(info.width * bpp),
                                    info.color_type,
                                    bpp,
                                    info.width as int,
                                    info.height as int,
                                    acc.1,
                                ) {
                                    Err(e) => Err(e),
                                    Ok(px) => Ok((info.width, info.height, px)),
                                }
                            }
                        },
                    }
                }
            },
        }
    }
}

/// The canonical 8-byte PNG signature.
pub open spec fn png_signature() -> Seq<u8> {
    seq![0x89u8, 0x50u8, 0x4eu8, 0x47u8, 0x0du8, 0x0au8, 0x1au8, 0x0au8]
}

/// An input shorter than 8 bytes, or whose first 8 bytes differ from the
/// canonical PNG signature in at least one position, fails with
/// `SignatureMismatch`.
pub proof fn lemma_signature_mismatch(s: Seq<u8>)
    requires
        s.len() < 8 || exists|i: int| 0 <= i < 8 && s[i] != png_signature()[i],
    ensures
        spec_decode(s) == Err::<(u32, u32, Seq<PixelRGB>), DecodeError>(
            DecodeError::SignatureMismatch,
        ),
{
    if s.len() >= 8 {
        let i = choose|i: int| 0 <= i < 8 && s[i] != png_signature()[i];
        assert(png_signature()[0] == 0x89);
        assert(png_signature()[1] == 0x50);
        assert(png_signature()[2] == 0x4e);
        assert(png_signature()[3] == 0x47);
        assert(png_signature()[4] == 0x0d);
        assert(png_signature()[5] == 0x0a);
        assert(png_signature()[6] == 0x1a);
        assert(png_signature()[7] == 0x0a);
        assert(!is_png_signature(s));
    }
}

/// An IHDR body whose interlace byte is nonzero is rejected as
/// unsupported, whatever the rest of the header holds.
pub proof fn lemma_interlace_rejected(d: Seq<u8>)
    requires
        d.len() >= 13,
        d[12] != 0,
    ensures
        parse_ihdr(d) == Err::<PNGInfo, DecodeError>(DecodeError::UnsupportedFormat),
{
}

/// A stream whose chunks parse, whose header asks for 8-bit depth, and
/// whose inflated payload is shorter than `height * (1 + width * bpp)`
/// bytes fails with `TruncatedInput`: there is no silently short image.
pub proof fn lemma_short_payload_rejected(s: Seq<u8>)
    requires
        is_png_signature(s),
        ({
            &&& spec_parse_chunks(
                s,
                8,
                None::<PNGInfo>,
                Seq::<(u8, u8, u8)>::empty(),
                Seq::<u8>::empty(),
            ) matches Ok(acc)
            &&& acc.0 matches Some(info)
            &&& info.bitdepth == 8
            &&& zlib_inflate_of(acc.2) matches Some(raw)
            &&& raw.len() < info.height * (1 + info.width * (spec_bpp_bits(info) / 8))
        }),
    ensures
        spec_decode(s) == Err::<(u32, u32, Seq<PixelRGB>), DecodeError>(
            DecodeError::TruncatedInput,
        ),
{
}

/// Rows `row .. height` yield exactly `(height - row) * width` pixels
/// when their decoding succeeds.
pub proof fn lemma_decode_rows_len(
    raw: Seq<u8>,
    row: int,
    prev: Seq<u8>,
    color_type: u8,
    bpp: int,
    width: int,
    height: int,
    palette: Seq<(u8, u8, u8)>,
)
    requires
        0 <= row <= height,
        width >= 0,
        spec_decode_rows(raw, row, prev, color_type, bpp, width, height, palette) is Ok,
    ensures
        spec_decode_rows(raw, row, prev, color_type, bpp, width, height, palette).unwrap().len()
            == (height - row) * width,
    decreases height - row,
{
    if row >= height {
        assert((height - row) * width == 0) by (nonlinear_arith)
            requires
                row == height,
        ;
    } else {
        let off = row * (1 + width * bpp);
        let ft = raw[off];
        let rec = recon_row(ft, raw.subrange(off + 1, off + 1 + width * bpp), prev, bpp);
        lemma_decode_rows_len(raw, row + 1, rec, color_type, bpp, width, height, palette);
        assert((height - row) * width == width + (height - (row + 1)) * width)
            by (nonlinear_arith);
    }
}

/// A decode that succeeds yields exactly `width * height` pixels: the
/// image invariant every consumer of the pixel grid relies on.
pub proof fn lemma_decode_pixel_count(s: Seq<u8>)
    requires
        spec_decode(s) is Ok,
    ensures
        spec_decode(s).unwrap().2.len() == spec_decode(s).unwrap().0 * spec_decode(s).unwrap().1,
{
    let accr = spec_parse_chunks(
        s,
        8,
        None::<PNGInfo>,
        Seq::<(u8, u8, u8)>::empty(),
        Seq::<u8>::empty(),
    );
    let acc = accr.unwrap();
    let info = match acc.0 {
        Some(x) => x,
        None => spec_default_info(),
    };
    let bpp = spec_bpp_bits(info) / 8;
    let raw = zlib_inflate_of(acc.2).unwrap();
    lemma_decode_rows_len(
        raw,
        0,
        zero_row(info.width * bpp),
        info.color_type,
        bpp,
        info.width as int,
        info.height as int,
        acc.1,
    );
    assert((info.height as int) * (info.width as int) == (info.width as int) * (
    info.height as int)) by (nonlinear_arith);
}

/// Decodes a PNG byte stream into an RGB pixel grid: checks the
/// signature, reads the chunk stream, inflates the concatenated IDAT
/// payload, reverses the per-scanline filters and reconstructs the
/// pixels, row-major, top-left first.
#[verifier::loop_isolation(false)]
#[verifier::rlimit(30)]
pub fn png_to_intermediate(data: &[u8]) -> (r: Result<IntermediateImage, DecodeError>)
    ensures
        match spec_decode(data@) {
            Ok(t) => {
                &&& r matches Ok(img)
                &&& img.width == t.0
                &&& img.height == t.1
                &&& img.pixels is RGB
                &&& img.pixels.rgb_seq() == t.2
            },
            Err(e) => r matches Err(e2) && e2 == e,
        },
{
    if data.len() < 8 || !(data[0] == 0x89 && data[1] == 0x50 && data[2] == 0x4e && data[3] == 0x47
        && data[4] == 0x0d && data[5] == 0x0a && data[6] == 0x1a && data[7] == 0x0a) {
        return Err(DecodeError::SignatureMismatch);
    }
    let (info, palette, idat) = match parse_chunks(data) {
        Ok(t) => t,
        Err(e) => {
            return Err(e);
        },
    };
    if info.bitdepth != 8 {
        return Err(DecodeError::UnsupportedFormat);
    }
    let ghost acc = spec_parse_chunks(
        data@,
        8,
        None::<PNGInfo>,
        Seq::<(u8, u8, u8)>::empty(),
        Seq::<u8>::empty(),
    ).unwrap();
    proof {
        assert(acc.0 is Some);
        assert(info_well_formed(info));
    }
    let bpp_bits = info.get_bpp();
    let bpp: usize = (bpp_bits / 8) as usize;
    proof {
        assert(bpp == spec_bpp_bits(info) / 8);
        assert(1 <= bpp <= 4);
        assert((info.color_type == 2 || info.color_type == 6) ==> bpp >= 3);
    }
    let inflated = match inflate_zlib(&idat) {
        Some(v) => v,
        None => {
            return Err(DecodeError::Decompression);
        },
    };
    let ilen: usize = inflated.len();
    proof {
        assert((info.width as int) * (bpp as int) <= 0x4_0000_0000) by (nonlinear_arith)
            requires
                info.width <= 0xFFFF_FFFFu32,
                bpp <= 4,
        ;
    }
    let wbig: u128 = (info.width as u128) * (bpp as u128);
    proof {
        assert((info.height as int) * (1 + wbig as int) <= 0xFFFF_FFFFu64 * 0x4_0000_0001u64)
            by (nonlinear_arith)
            requires
                info.height <= 0xFFFF_FFFFu32,
                wbig <= 0x4_0000_0000,
        ;
    }
    let expected: u128 = (info.height as u128) * (1 + wbig);
    if (ilen as u128) < expected {
        return Err(DecodeError::TruncatedInput);
    }
    proof {
        assert((info.height as int) * (1 + (info.width as int) * (bpp as int)) >= 1
            + (info.width as int) * (bpp as int)) by (nonlinear_arith)
            requires
                info.height >= 1,
                (info.width as int) * (bpp as int) >= 0,
        ;
    }
    let wb: usize = (info.width as usize) * bpp;
    let mut prev: Vec<u8> = Vec::new();
    let mut z: usize = 0;
    while z < wb
        invariant
            z <= wb,
            prev@.len() == z,
            forall|j: int| 0 <= j < z ==> prev@[j] == 0,
        decreases wb - z,
    {
        prev.push(0);
        z = z + 1;
    }
    proof {
        assert(prev@ =~= zero_row(wb as int));
    }
    let ghost rows_full = spec_decode_rows(
        inflated@,
        0,
        zero_row((info.width as int) * (bpp as int)),
        info.color_type,
        bpp as int,
        info.width as int,
        info.height as int,
        palette@,
    );
    let mut px: Vec<PixelRGB> = Vec::new();
    let mut row: u32 = 0;
    let mut off: usize = 0;
    proof {
        if rows_full is Ok {
            assert(Seq::<PixelRGB>::empty() + rows_full.unwrap() =~= rows_full.unwrap());
        }
    }
    while row < info.height
        invariant
            row <= info.height,
            off == row * (1 + wb as int),
            prev@.len() == wb,
            prepend_pixels(
                px@,
                spec_decode_rows(
                    inflated@,
                    row as int,
                    prev@,
                    info.color_type,
                    bpp as int,
                    info.width as int,
                    info.height as int,
                    palette@,
                ),
            ) == rows_full,
        decreases info.height - row,
    {
        proof {
            assert((row + 1) * (1 + wb as int) == row * (1 + wb as int) + (1 + wb as int))
                by (nonlinear_arith);
            assert((row + 1) * (1 + wb as int) <= (info.height as int) * (1 + wb as int))
                by (nonlinear_arith)
                requires
                    row < info.height,
                    wb >= 0,
            ;
            assert(off + 1 + wb <= ilen);
        }
        let ghost drow = spec_decode_rows(
            inflated@,
            row as int,
            prev@,
            info.color_type,
            bpp as int,
            info.width as int,
            info.height as int,
            palette@,
        );
        let ft = inflated[off];
        if ft > 4 {
            proof {
                assert(drow == Err::<Seq<PixelRGB>, DecodeError>(DecodeError::UnsupportedFormat));
            }
            return Err(DecodeError::UnsupportedFormat);
        }
        let mut rr: Vec<u8> = Vec::new();
        let mut k: usize = 0;
        while k < wb
            invariant
                k <= wb,
                rr@.len() == k,
                forall|j: int| 0 <= j < k ==> rr@[j] == inflated@[off + 1 + j],
            decreases wb - k,
        {
            rr.push(inflated[off + 1 + k]);
            k = k + 1;
        }
        proof {
            assert(rr@ =~= inflated@.subrange(off + 1, off + 1 + wb));
        }
        let rec = defilter_row(ft, &rr, &prev, bpp);
        let ghost dnext = spec_decode_rows(
            inflated@,
            row as int + 1,
            rec@,
            info.color_type,
            bpp as int,
            info.width as int,
            info.height as int,
            palette@,
        );
        let rowpx = match crate::pixel::row_pixels(&rec, info.color_type, bpp, info.width, &palette)
            {
            Ok(v) => v,
            Err(e) => {
                proof {
                    assert(drow == Err::<Seq<PixelRGB>, DecodeError>(e));
                }
                return Err(e);
            },
        };
        proof {
            assert(drow == prepend_pixels(rowpx@, dnext));
        }
        let ghost px_before = px@;
        let mut m: usize = 0;
        let rn: usize = rowpx.len();
        while m < rn
            invariant
                m <= rn,
                rn == rowpx@.len(),
                px@ == px_before + rowpx@.take(m as int),
            decreases rn - m,
        {
            px.push(rowpx[m]);
            proof {
                assert(px@ =~= px_before + rowpx@.take(m + 1));
            }
            m = m + 1;
        }
        proof {
            assert(px@ =~= px_before + rowpx@);
            if dnext is Ok {
                assert((px_before + rowpx@) + dnext.unwrap() =~= px_before + (rowpx@
                    + dnext.unwrap()));
            }
            assert(prepend_pixels(px@, dnext) == prepend_pixels(px_before, drow));
        }
        prev = rec;
        off = off + 1 + wb;
        row = row + 1;
    }
    proof {
        assert(px@ + Seq::<PixelRGB>::empty() =~= px@);
        assert(rows_full == Ok::<Seq<PixelRGB>, DecodeError>(px@));
    }
    Ok(
        IntermediateImage {
            width: info.width,
            height: info.height,
            pixels: Pixels::RGB(px),
        },
    )
}

} // verus!
