use png2bmp::filter::defilter_row;
use png2bmp::png::{png_to_intermediate, DecodeError, PNGInfo};
use png2bmp::{IntermediateImage, PixelRGB, Pixels};

fn adler32(data: &[u8]) -> u32 {
    let mut a: u32 = 1;
    let mut b: u32 = 0;
    for &x in data {
        a = (a + x as u32) % 65521;
        b = (b + a) % 65521;
    }
    (b << 16) | a
}

/// A zlib stream holding `data` in a single stored (uncompressed) block.
fn zlib_store(data: &[u8]) -> Vec<u8> {
    assert!(data.len() < 65536);
    let mut out: Vec<u8> = vec![0x78, 0x01];
    out.push(0x01); // final block, stored
    let len = data.len() as u16;
    out.push((len & 0xff) as u8);
    out.push((len >> 8) as u8);
    let nlen = !len;
    out.push((nlen & 0xff) as u8);
    out.push((nlen >> 8) as u8);
    out.extend_from_slice(data);
    let ad = adler32(data);
    out.push((ad >> 24) as u8);
    out.push((ad >> 16) as u8);
    out.push((ad >> 8) as u8);
    out.push(ad as u8);
    out
}

fn chunk(tag: &[u8; 4], body: &[u8]) -> Vec<u8> {
    let mut out: Vec<u8> = Vec::new();
    let len = body.len() as u32;
    out.extend_from_slice(&[(len >> 24) as u8, (len >> 16) as u8, (len >> 8) as u8, len as u8]);
    out.extend_from_slice(tag);
    out.extend_from_slice(body);
    out.extend_from_slice(&[0, 0, 0, 0]); // checksum: read and discarded
    out
}

fn ihdr_body(w: u32, h: u32, bitdepth: u8, color_type: u8, interlace: u8) -> Vec<u8> {
    vec![
        (w >> 24) as u8,
        (w >> 16) as u8,
        (w >> 8) as u8,
        w as u8,
        (h >> 24) as u8,
        (h >> 16) as u8,
        (h >> 8) as u8,
        h as u8,
        bitdepth,
        color_type,
        0,
        0,
        interlace,
    ]
}

fn png_file(chunks: &[Vec<u8>]) -> Vec<u8> {
    let mut out: Vec<u8> = vec![0x89, 0x50, 0x4e, 0x47, 0x0d, 0x0a, 0x1a, 0x0a];
    for c in chunks {
        out.extend_from_slice(c);
    }
    out
}

fn rgb_pixels(img: &IntermediateImage) -> &Vec<PixelRGB> {
    match &img.pixels {
        Pixels::RGB(v) => v,
        Pixels::RGBA(_) => panic!("decoder must produce RGB pixels"),
    }
}

fn simple_png(w: u32, h: u32, color_type: u8, scanlines: &[u8]) -> Vec<u8> {
    png_file(&[
        chunk(b"IHDR", &ihdr_body(w, h, 8, color_type, 0)),
        chunk(b"IDAT", &zlib_store(scanlines)),
        chunk(b"IEND", &[]),
    ])
}

#[test]
fn signature_mismatch_every_byte() {
    let good = simple_png(1, 1, 0, &[0, 200]);
    for i in 0..8 {
        let mut bad = good.clone();
        bad[i] ^= 0xff;
        match png_to_intermediate(&bad) {
            Err(DecodeError::SignatureMismatch) => (),
            other => panic!("byte {} malformed: expected SignatureMismatch, got {:?}", i, other.is_ok()),
        }
    }
}

#[test]
fn signature_short_input() {
    assert!(matches!(
        png_to_intermediate(&[0x89, 0x50, 0x4e]),
        Err(DecodeError::SignatureMismatch)
    ));
    assert!(matches!(png_to_intermediate(&[]), Err(DecodeError::SignatureMismatch)));
}

#[test]
fn round_trip_truecolor_2x2() {
    // filter type 0 on both rows: decoded pixels are the scanline bytes.
    let scanlines = [0, 1, 2, 3, 4, 5, 6, 0, 7, 8, 9, 10, 11, 12];
    let file = simple_png(2, 2, 2, &scanlines);
    let img = png_to_intermediate(&file).unwrap();
    assert_eq!(img.width, 2);
    assert_eq!(img.height, 2);
    let px = rgb_pixels(&img);
    assert_eq!(
        *px,
        vec![
            PixelRGB(1, 2, 3),
            PixelRGB(4, 5, 6),
            PixelRGB(7, 8, 9),
            PixelRGB(10, 11, 12),
        ]
    );
}

#[test]
fn defilter_each_type() {
    let prev: Vec<u8> = vec![10, 20, 30, 40, 50, 60, 70, 80, 90, 100, 110, 120];
    let raw: Vec<u8> = vec![1, 2, 3, 4, 5, 6, 7, 8, 9, 10, 11, 12];
    // type 0 (None): unchanged.
    assert_eq!(defilter_row(0, &raw, &prev, 4), raw);
    // type 1 (Sub): add the reconstructed byte one pixel to the left.
    assert_eq!(
        defilter_row(1, &raw, &prev, 4),
        vec![1, 2, 3, 4, 6, 8, 10, 12, 15, 18, 21, 24]
    );
    // type 2 (Up): add the byte straight above.
    assert_eq!(
        defilter_row(2, &raw, &prev, 4),
        vec![11, 22, 33, 44, 55, 66, 77, 88, 99, 110, 121, 132]
    );
    // type 3 (Average): add floor((left + up) / 2).
    assert_eq!(
        defilter_row(3, &raw, &prev, 4),
        vec![6, 12, 18, 24, 33, 42, 51, 60, 70, 81, 91, 102]
    );
    // type 4 (Paeth): add the predictor nearest to left + up - upleft.
    assert_eq!(
        defilter_row(4, &raw, &prev, 4),
        vec![11, 22, 33, 44, 55, 66, 77, 88, 99, 110, 121, 132]
    );
}

#[test]
fn defilter_wraps_modulo_256() {
    let prev: Vec<u8> = vec![200, 200];
    let raw: Vec<u8> = vec![100, 57];
    // Up: 100 + 200 = 300 -> 44; 57 + 200 = 257 -> 1.
    assert_eq!(defilter_row(2, &raw, &prev, 1), vec![44, 1]);
}

#[test]
fn paeth_tie_prefers_a_over_c() {
    // second byte sees a = 8, b = 11, c = 10: |p-a| == |p-c| == 1, and a wins.
    let prev: Vec<u8> = vec![10, 11];
    let raw: Vec<u8> = vec![254, 1];
    assert_eq!(defilter_row(4, &raw, &prev, 1), vec![8, 9]);
}

#[test]
fn paeth_tie_prefers_b_over_c() {
    // second byte sees a = 11, b = 8, c = 10: |p-b| == |p-c| == 1, and b wins.
    let prev: Vec<u8> = vec![10, 8];
    let raw: Vec<u8> = vec![1, 2];
    assert_eq!(defilter_row(4, &raw, &prev, 1), vec![11, 10]);
}

#[test]
fn indexed_lookup_out_of_range() {
    // two palette entries; the scanline asks for index 2 == palette length.
    let file = png_file(&[
        chunk(b"IHDR", &ihdr_body(1, 1, 8, 3, 0)),
        chunk(b"PLTE", &[1, 2, 3, 4, 5, 6]),
        chunk(b"IDAT", &zlib_store(&[0, 2])),
        chunk(b"IEND", &[]),
    ]);
    assert!(matches!(png_to_intermediate(&file), Err(DecodeError::Format)));
}

#[test]
fn indexed_lookup_in_range() {
    let file = png_file(&[
        chunk(b"IHDR", &ihdr_body(1, 1, 8, 3, 0)),
        chunk(b"PLTE", &[1, 2, 3, 40, 50, 60]),
        chunk(b"IDAT", &zlib_store(&[0, 1])),
        chunk(b"IEND", &[]),
    ]);
    let img = png_to_intermediate(&file).unwrap();
    assert_eq!(*rgb_pixels(&img), vec![PixelRGB(40, 50, 60)]);
}

#[test]
fn indexed_without_palette_fails() {
    let file = simple_png(1, 1, 3, &[0, 0]);
    assert!(matches!(png_to_intermediate(&file), Err(DecodeError::Format)));
}

#[test]
fn truncated_decompressed_payload() {
    // 1x1 grayscale needs 2 decompressed bytes; hand it 1.
    let file = simple_png(1, 1, 0, &[0]);
    assert!(matches!(png_to_intermediate(&file), Err(DecodeError::TruncatedInput)));
}

#[test]
fn truncated_chunk_stream() {
    // a declared chunk length larger than what follows.
    let mut file = png_file(&[chunk(b"IHDR", &ihdr_body(1, 1, 8, 0, 0))]);
    file.extend_from_slice(&[0, 0, 0, 9, b'I', b'D', b'A', b'T', 1, 2]);
    assert!(matches!(png_to_intermediate(&file), Err(DecodeError::TruncatedInput)));
}

#[test]
fn interlace_rejected() {
    let file = simple_png_interlaced();
    assert!(matches!(png_to_intermediate(&file), Err(DecodeError::UnsupportedFormat)));
}

fn simple_png_interlaced() -> Vec<u8> {
    png_file(&[
        chunk(b"IHDR", &ihdr_body(1, 1, 8, 0, 1)),
        chunk(b"IDAT", &zlib_store(&[0, 200])),
        chunk(b"IEND", &[]),
    ])
}

#[test]
fn grayscale_1x1_value_200() {
    let file = simple_png(1, 1, 0, &[0, 200]);
    let img = png_to_intermediate(&file).unwrap();
    assert_eq!(img.width, 1);
    assert_eq!(img.height, 1);
    assert_eq!(*rgb_pixels(&img), vec![PixelRGB(200, 200, 200)]);
}

#[test]
fn grayscale_alpha_drops_alpha() {
    let file = simple_png(2, 1, 4, &[0, 10, 255, 20, 128]);
    let img = png_to_intermediate(&file).unwrap();
    assert_eq!(*rgb_pixels(&img), vec![PixelRGB(10, 10, 10), PixelRGB(20, 20, 20)]);
}

#[test]
fn truecolor_alpha_drops_alpha() {
    let file = simple_png(1, 1, 6, &[0, 1, 2, 3, 99]);
    let img = png_to_intermediate(&file).unwrap();
    assert_eq!(*rgb_pixels(&img), vec![PixelRGB(1, 2, 3)]);
}

#[test]
fn sub_filter_through_full_decode() {
    // 2x1 grayscale, Sub filter: second byte reconstructs to 3 + 10 = 13.
    let file = simple_png(2, 1, 0, &[1, 10, 3]);
    let img = png_to_intermediate(&file).unwrap();
    assert_eq!(*rgb_pixels(&img), vec![PixelRGB(10, 10, 10), PixelRGB(13, 13, 13)]);
}

#[test]
fn up_filter_through_full_decode() {
    // 1x2 grayscale: second row adds the reconstructed row above.
    let file = simple_png(1, 2, 0, &[0, 10, 2, 5]);
    let img = png_to_intermediate(&file).unwrap();
    assert_eq!(*rgb_pixels(&img), vec![PixelRGB(10, 10, 10), PixelRGB(15, 15, 15)]);
}

#[test]
fn average_and_paeth_through_full_decode() {
    // 2x2 grayscale: first row Average-filtered, second row Paeth-filtered.
    let file = simple_png(2, 2, 0, &[3, 10, 20, 4, 5, 7]);
    let img = png_to_intermediate(&file).unwrap();
    assert_eq!(
        *rgb_pixels(&img),
        vec![
            PixelRGB(10, 10, 10),
            PixelRGB(25, 25, 25),
            PixelRGB(15, 15, 15),
            PixelRGB(32, 32, 32),
        ]
    );
}

#[test]
fn unknown_filter_type_rejected() {
    let file = simple_png(1, 1, 0, &[5, 200]);
    assert!(matches!(png_to_intermediate(&file), Err(DecodeError::UnsupportedFormat)));
}

#[test]
fn bad_zlib_stream_rejected() {
    let file = png_file(&[
        chunk(b"IHDR", &ihdr_body(1, 1, 8, 0, 0)),
        chunk(b"IDAT", &[1, 2, 3]),
        chunk(b"IEND", &[]),
    ]);
    assert!(matches!(png_to_intermediate(&file), Err(DecodeError::Decompression)));
}

#[test]
fn missing_ihdr_rejected() {
    let file = png_file(&[
        chunk(b"IDAT", &zlib_store(&[0, 200])),
        chunk(b"IEND", &[]),
    ]);
    assert!(matches!(png_to_intermediate(&file), Err(DecodeError::UnsupportedFormat)));
}

#[test]
fn bitdepth_other_than_8_rejected() {
    let file = png_file(&[
        chunk(b"IHDR", &ihdr_body(1, 1, 16, 0, 0)),
        chunk(b"IDAT", &zlib_store(&[0, 200, 100])),
        chunk(b"IEND", &[]),
    ]);
    assert!(matches!(png_to_intermediate(&file), Err(DecodeError::UnsupportedFormat)));
}

#[test]
fn unknown_color_type_rejected() {
    let file = simple_png(1, 1, 5, &[0, 200]);
    assert!(matches!(png_to_intermediate(&file), Err(DecodeError::UnsupportedFormat)));
}

#[test]
fn unknown_chunks_are_skipped() {
    let file = png_file(&[
        chunk(b"IHDR", &ihdr_body(1, 1, 8, 0, 0)),
        chunk(b"tEXt", &[1, 2, 3, 4]),
        chunk(b"IDAT", &zlib_store(&[0, 77])),
        chunk(b"IEND", &[]),
    ]);
    let img = png_to_intermediate(&file).unwrap();
    assert_eq!(*rgb_pixels(&img), vec![PixelRGB(77, 77, 77)]);
}

#[test]
fn idat_chunks_concatenate() {
    let stream = zlib_store(&[0, 1, 2, 3, 4, 5, 6]);
    let (a, b) = stream.split_at(4);
    let file = png_file(&[
        chunk(b"IHDR", &ihdr_body(2, 1, 8, 2, 0)),
        chunk(b"IDAT", a),
        chunk(b"IDAT", b),
        chunk(b"IEND", &[]),
    ]);
    let img = png_to_intermediate(&file).unwrap();
    assert_eq!(*rgb_pixels(&img), vec![PixelRGB(1, 2, 3), PixelRGB(4, 5, 6)]);
}

#[test]
fn from_idhr_parses_header() {
    let mut info = PNGInfo::default();
    let body = ihdr_body(640, 480, 8, 2, 0);
    assert!(info.from_idhr(&body).is_ok());
    assert_eq!(info.width, 640);
    assert_eq!(info.height, 480);
    assert_eq!(info.bitdepth, 8);
    assert_eq!(info.color_type, 2);
    assert_eq!(info.get_bpp(), 24);
}

#[test]
fn get_bpp_indexed_follows_bit_depth() {
    // one channel for indexed color: bits per pixel equal the bit depth.
    let mut info = PNGInfo::default();
    let body = ihdr_body(1, 1, 4, 3, 0);
    assert!(info.from_idhr(&body).is_ok());
    assert_eq!(info.get_bpp(), 4);
}

#[test]
fn from_idhr_rejects_interlace() {
    let mut info = PNGInfo::default();
    let body = ihdr_body(640, 480, 8, 2, 1);
    assert!(matches!(info.from_idhr(&body), Err(DecodeError::UnsupportedFormat)));
    assert_eq!(info.width, 0);
}

#[test]
fn from_idhr_rejects_short_body() {
    let mut info = PNGInfo::default();
    assert!(matches!(
        info.from_idhr(&[0, 0, 0, 1, 0, 0, 0, 1]),
        Err(DecodeError::TruncatedInput)
    ));
}

#[test]
fn from_idhr_rejects_zero_dimensions() {
    let mut info = PNGInfo::default();
    let body = ihdr_body(0, 480, 8, 2, 0);
    assert!(matches!(info.from_idhr(&body), Err(DecodeError::Format)));
}

#[test]
fn palette_partial_group_ignored() {
    // 5 palette bytes make one entry; the trailing two bytes are dropped,
    // so index 1 is out of range.
    let file = png_file(&[
        chunk(b"IHDR", &ihdr_body(1, 1, 8, 3, 0)),
        chunk(b"PLTE", &[7, 8, 9, 10, 11]),
        chunk(b"IDAT", &zlib_store(&[0, 1])),
        chunk(b"IEND", &[]),
    ]);
    assert!(matches!(png_to_intermediate(&file), Err(DecodeError::Format)));
}

#[test]
fn palette_chunks_accumulate() {
    let file = png_file(&[
        chunk(b"IHDR", &ihdr_body(2, 1, 8, 3, 0)),
        chunk(b"PLTE", &[1, 2, 3]),
        chunk(b"PLTE", &[4, 5, 6]),
        chunk(b"IDAT", &zlib_store(&[0, 1, 0])),
        chunk(b"IEND", &[]),
    ]);
    let img = png_to_intermediate(&file).unwrap();
    assert_eq!(*rgb_pixels(&img), vec![PixelRGB(4, 5, 6), PixelRGB(1, 2, 3)]);
}

#[test]
fn pixel_count_matches_dimensions() {
    let scanlines = [
        0, 1, 2, 3, 4, 5, 6, 7, 8, 9, // row of 3 true-color pixels
        2, 1, 1, 1, 1, 1, 1, 1, 1, 1, // Up-filtered second row
    ];
    let file = simple_png(3, 2, 2, &scanlines);
    let img = png_to_intermediate(&file).unwrap();
    assert_eq!(rgb_pixels(&img).len() as u32, img.width * img.height);
}
