use sss_fontbuild::codec::{collapse_bits, encode_glyph, reverse_chunk, rgb_to_2bit, GlyphImage, PixelFormat};
use sss_fontbuild::codepoint::parse_codepoint_from_filename;
use sss_fontbuild::compress::compress_font;
use sss_fontbuild::consts::{detect_game, Game};
use sss_fontbuild::errors::FontErrorKind;
use sss_fontbuild::font::{assemble_standalone, create_font_data};
use sss_fontbuild::patch::insert_data_into_file;

// Test-only inverse of the bit packer: reads the eight bits back out under
// the inverted convention (a set bit means the value was 0).
fn unpack(b: u8) -> Vec<u8> {
    let mut v = Vec::new();
    let mut i = 0;
    while i < 8 {
        if (b >> i) & 1 == 1 {
            v.push(0u8);
        } else {
            v.push(1u8);
        }
        i += 1;
    }
    v
}

fn rgb_glyph(width: u32, height: u32, px: (u8, u8, u8)) -> GlyphImage {
    let n = (width * height) as usize;
    let mut data = Vec::new();
    for _ in 0..n {
        data.push(px.0);
        data.push(px.1);
        data.push(px.2);
    }
    GlyphImage { width, height, format: PixelFormat::Rgb, data }
}

#[test]
fn game_profile_constants() {
    assert_eq!(Game::SSS.system_dat_size(), 252232);
    assert_eq!(Game::SSSC.system_dat_size(), 258552);
    assert_eq!(Game::SSS.font_start_address(), 0x16FC4);
    assert_eq!(Game::SSSC.font_start_address(), 0x1757C);
    assert_eq!(Game::SSS.font_len_uncompressed(), 29376);
    assert_eq!(Game::SSSC.font_len_uncompressed(), 32256);
    assert_eq!(Game::SSS.font_len_compressed(), 28097);
    assert_eq!(Game::SSSC.font_len_compressed(), 30885);
}

#[test]
fn detect_game_by_size() {
    assert_eq!(detect_game(252232).unwrap(), Game::SSS);
    assert_eq!(detect_game(258552).unwrap(), Game::SSSC);
    let err = detect_game(1000).unwrap_err();
    assert_eq!(err.kind, FontErrorKind::ProfileMismatch);
}

#[test]
fn classifier_known_triplets() {
    assert_eq!(rgb_to_2bit(&[217, 217, 217]), vec![0, 1]);
    assert_eq!(rgb_to_2bit(&[216, 216, 216]), vec![0, 1]);
    assert_eq!(rgb_to_2bit(&[0, 16, 64]), vec![0, 0]);
    assert_eq!(rgb_to_2bit(&[128, 128, 176]), vec![1, 0]);
}

#[test]
fn classifier_unknown_triplets_are_transparent() {
    assert_eq!(rgb_to_2bit(&[1, 2, 3]), vec![1, 1]);
    assert_eq!(rgb_to_2bit(&[255, 255, 255]), vec![1, 1]);
    assert_eq!(rgb_to_2bit(&[217, 217, 216]), vec![1, 1]);
    assert_eq!(rgb_to_2bit(&[]), vec![1, 1]);
}

#[test]
fn pack_bits_sets_bit_for_zero_value() {
    // Alternating values: the 0s sit at even positions, so even bits are set.
    let packed = collapse_bits(&[0, 1, 0, 1, 0, 1, 0, 1]).unwrap();
    assert_eq!(packed, 0x55);
    assert_eq!(collapse_bits(&[0; 8]).unwrap(), 0xFF);
    assert_eq!(collapse_bits(&[1; 8]).unwrap(), 0x00);
    assert_eq!(collapse_bits(&[0, 1, 1, 1, 1, 1, 1, 1]).unwrap(), 0x01);
}

#[test]
fn pack_bits_round_trip() {
    let known: Vec<u8> = vec![0, 1, 0, 1, 0, 1, 0, 1];
    let packed = collapse_bits(&known).unwrap();
    assert_eq!(unpack(packed), known);
    let known2: Vec<u8> = vec![1, 1, 0, 0, 1, 0, 1, 1];
    assert_eq!(unpack(collapse_bits(&known2).unwrap()), known2);
}

#[test]
fn pack_bits_rejects_bad_input() {
    let err = collapse_bits(&[0, 1, 0]).unwrap_err();
    assert_eq!(err.kind, FontErrorKind::Format);
    let err = collapse_bits(&[0, 1, 0, 1, 0, 1, 0, 2]).unwrap_err();
    assert_eq!(err.kind, FontErrorKind::Format);
}

#[test]
fn reverse_chunk_reverses() {
    assert_eq!(reverse_chunk(&[1, 2, 3]), vec![3, 2, 1]);
    assert_eq!(reverse_chunk(&[]), Vec::<u8>::new());
}

#[test]
fn encode_uniform_dark_blue_16x16() {
    // Every pixel carries the dark-blue code [0, 0]; every bit value is 0,
    // the flips move nothing visible, and the packer sets every bit.
    let glyph = rgb_glyph(16, 16, (0, 16, 64));
    let out = encode_glyph(&glyph).unwrap();
    assert_eq!(out.len(), 64);
    assert!(out.iter().all(|&b| b == 0xFF));
}

#[test]
fn encode_uniform_light_blue_rgba_16x16() {
    // Light blue is [1, 0]: in every group of eight the odd positions hold
    // 0, so every output byte is 0xAA. The alpha channel is dropped.
    let mut data = Vec::new();
    for _ in 0..256 {
        data.extend_from_slice(&[128, 128, 176, 255]);
    }
    let glyph = GlyphImage { width: 16, height: 16, format: PixelFormat::Rgba, data };
    let out = encode_glyph(&glyph).unwrap();
    assert_eq!(out.len(), 64);
    assert!(out.iter().all(|&b| b == 0xAA));
}

#[test]
fn encode_dark_blue_8x16_expands_rows() {
    // An 8-wide row classifies to sixteen 0s and is widened with sixteen
    // background 1s. After the horizontal flip each row reads sixteen 1s
    // then sixteen 0s, packing to 00 00 FF FF per row; the final byte-level
    // reversal of each 8-byte group yields FF FF 00 00 FF FF 00 00.
    let glyph = rgb_glyph(8, 16, (0, 16, 64));
    let out = encode_glyph(&glyph).unwrap();
    assert_eq!(out.len(), 64);
    for k in 0..16 {
        assert_eq!(&out[4 * k..4 * k + 4], &[0xFF, 0xFF, 0x00, 0x00]);
    }
}

#[test]
fn encode_grey_glyphs() {
    // Greyscale value 0 is ink [0, 0]: all bits 0, every byte packs to 0xFF.
    let glyph = GlyphImage {
        width: 16,
        height: 16,
        format: PixelFormat::Grey,
        data: vec![0; 256],
    };
    let out = encode_glyph(&glyph).unwrap();
    assert_eq!(out.len(), 64);
    assert!(out.iter().all(|&b| b == 0xFF));

    // Greyscale with alpha: only the grey byte is read.
    let mut data = Vec::new();
    for _ in 0..256 {
        data.extend_from_slice(&[0, 123]);
    }
    let glyph = GlyphImage { width: 16, height: 16, format: PixelFormat::GreyAlpha, data };
    let out = encode_glyph(&glyph).unwrap();
    assert_eq!(out.len(), 64);
    assert!(out.iter().all(|&b| b == 0xFF));
}

#[test]
fn encode_always_yields_64_bytes() {
    let cases = vec![
        rgb_glyph(8, 16, (217, 217, 217)),
        rgb_glyph(16, 16, (1, 2, 3)),
        GlyphImage { width: 8, height: 16, format: PixelFormat::Grey, data: vec![7; 128] },
        GlyphImage { width: 16, height: 16, format: PixelFormat::GreyAlpha, data: vec![9; 512] },
    ];
    for glyph in cases {
        assert_eq!(encode_glyph(&glyph).unwrap().len(), 64);
    }
}

#[test]
fn encode_rejects_bad_geometry() {
    let err = encode_glyph(&rgb_glyph(8, 8, (0, 16, 64))).unwrap_err();
    assert_eq!(err.kind, FontErrorKind::Format);
    let err = encode_glyph(&rgb_glyph(12, 16, (0, 16, 64))).unwrap_err();
    assert_eq!(err.kind, FontErrorKind::Format);
    let short = GlyphImage { width: 16, height: 16, format: PixelFormat::Rgb, data: vec![0; 10] };
    let err = encode_glyph(&short).unwrap_err();
    assert_eq!(err.kind, FontErrorKind::Format);
}

#[test]
fn font_data_concatenates_in_order() {
    let a = rgb_glyph(16, 16, (0, 16, 64));
    let b = rgb_glyph(16, 16, (128, 128, 176));
    let block_a = encode_glyph(&a).unwrap();
    let block_b = encode_glyph(&b).unwrap();
    let glyphs = vec![a, b];
    let blob = create_font_data(&glyphs).unwrap();
    assert_eq!(blob.len(), 128);
    assert_eq!(&blob[..64], block_a.as_slice());
    assert_eq!(&blob[64..], block_b.as_slice());
}

#[test]
fn font_data_empty_input() {
    let glyphs: Vec<GlyphImage> = Vec::new();
    assert_eq!(create_font_data(&glyphs).unwrap(), Vec::<u8>::new());
}

#[test]
fn font_data_rejects_bad_glyph() {
    let glyphs = vec![rgb_glyph(16, 16, (0, 16, 64)), rgb_glyph(9, 16, (0, 16, 64))];
    let err = create_font_data(&glyphs).unwrap_err();
    assert_eq!(err.kind, FontErrorKind::Format);
}

#[test]
fn standalone_assembly_layout() {
    let codepoints = vec![65u8, 66u8];
    let glyph_data = vec![7u8; 128];
    let append = vec![9u8, 8u8];
    let out = assemble_standalone(&codepoints, &glyph_data, &append);
    // Header length 2 + 2 * 2 = 6, big-endian.
    assert_eq!(&out[..2], &[0, 6]);
    // Codepoint table: each codepoint zero-extended to two bytes.
    assert_eq!(&out[2..6], &[0, 65, 0, 66]);
    assert_eq!(&out[6..134], glyph_data.as_slice());
    assert_eq!(&out[134..], append.as_slice());
    assert_eq!(out.len(), 2 + 4 + 128 + 2);
}

#[test]
fn compress_font_header_and_determinism() {
    let data = vec![0u8; 100];
    let (header, compressed) = compress_font(&data).unwrap();
    // Byte-mode header: [0, 0] then the decompressed length, 16-bit BE.
    assert_eq!(header, vec![0, 0, 0, 100]);
    // A run of 100 zeros compresses well below its own size; in particular
    // the codec did not hand the input back unchanged.
    assert!(compressed.len() < 100);
    let (header2, compressed2) = compress_font(&data).unwrap();
    assert_eq!(header, header2);
    assert_eq!(compressed, compressed2);
}

#[test]
fn compress_font_large_length_header() {
    let data = vec![1u8; 70000];
    let (header, _) = compress_font(&data).unwrap();
    // Lengths over 65535 get a word of padding and a 32-bit BE length.
    assert_eq!(header, vec![0, 0, 0, 0, 0x00, 0x01, 0x11, 0x70]);
}

fn patterned_container(len: usize) -> Vec<u8> {
    let mut v = Vec::with_capacity(len);
    for i in 0..len {
        v.push((i % 251) as u8);
    }
    v
}

#[test]
fn insert_round_trip_preserves_outside_bytes() {
    let game = Game::SSS;
    let container = patterned_container(252232);
    let font = vec![42u8; 100];
    let patched = insert_data_into_file(&font, &container, &game).unwrap();
    assert_eq!(patched.len(), 252232);
    let start = 0x16FC4usize;
    let clen = 28097usize;
    assert_eq!(&patched[..start], &container[..start]);
    assert_eq!(&patched[start + clen..], &container[start + clen..]);
}

#[test]
fn insert_accepts_exactly_full_font() {
    let game = Game::SSSC;
    let container = patterned_container(258552);
    let font = vec![0u8; 32256];
    let patched = insert_data_into_file(&font, &container, &game).unwrap();
    assert_eq!(patched.len(), 258552);
}

#[test]
fn insert_rejects_oversized_font() {
    let game = Game::SSS;
    let container = patterned_container(252232);
    let before = container.clone();
    let font = vec![0u8; 29377];
    let err = insert_data_into_file(&font, &container, &game).unwrap_err();
    assert_eq!(err.kind, FontErrorKind::FontTooLarge);
    // The container buffer is untouched.
    assert_eq!(container, before);
}

#[test]
fn insert_rejects_unknown_container_size() {
    let game = Game::SSS;
    let container = patterned_container(1000);
    let err = insert_data_into_file(&[1u8, 2, 3].to_vec(), &container, &game).unwrap_err();
    assert_eq!(err.kind, FontErrorKind::ProfileMismatch);
}

#[test]
fn parse_codepoint_from_numeric_filename() {
    assert_eq!(parse_codepoint_from_filename("65.png").unwrap(), 65);
    assert_eq!(parse_codepoint_from_filename("0.png").unwrap(), 0);
    assert_eq!(parse_codepoint_from_filename("255.png").unwrap(), 255);
    assert_eq!(parse_codepoint_from_filename("tiles/123.png").unwrap(), 123);
    assert_eq!(parse_codepoint_from_filename("glyph65.png").unwrap(), 65);
    assert_eq!(parse_codepoint_from_filename("0065.png").unwrap(), 65);
}

#[test]
fn parse_codepoint_rejects_bad_filenames() {
    let err = parse_codepoint_from_filename("glyph.png").unwrap_err();
    assert_eq!(err.kind, FontErrorKind::CodepointParse);
    let err = parse_codepoint_from_filename("65.bmp").unwrap_err();
    assert_eq!(err.kind, FontErrorKind::CodepointParse);
    let err = parse_codepoint_from_filename(".png").unwrap_err();
    assert_eq!(err.kind, FontErrorKind::CodepointParse);
    let err = parse_codepoint_from_filename("").unwrap_err();
    assert_eq!(err.kind, FontErrorKind::CodepointParse);
    let err = parse_codepoint_from_filename("256.png").unwrap_err();
    assert_eq!(err.kind, FontErrorKind::CodepointParse);
    let err = parse_codepoint_from_filename("99999999999999999999.png").unwrap_err();
    assert_eq!(err.kind, FontErrorKind::CodepointParse);
}

#[test]
fn error_constructor_reports_io_kind() {
    let e = sss_fontbuild::errors::FontCreationError::new(String::from("boom"));
    assert_eq!(e.kind, FontErrorKind::Io);
    assert_eq!(e.message().as_str(), "boom");
}

#[test]
fn compress_font_incompressible_data_errors() {
    // A stream with no adjacent repeats cannot shrink under run-length
    // encoding; the codec aborts rather than expand, and the adapter
    // surfaces that as a compression error.
    let mut data = Vec::new();
    for i in 0..1000 {
        data.push((i % 251) as u8);
    }
    let err = compress_font(&data).unwrap_err();
    assert_eq!(err.kind, FontErrorKind::Compression);
    assert!(!err.message().is_empty());
}
