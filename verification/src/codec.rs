//! The glyph codec: maps decoded pixels to the games' four 2-bit palette
//! codes, reorders the classified bit values to match the games' tile layout
//! (quadrant, vertical and horizontal flips), and packs them into output
//! bytes, eight bit values per byte under an inverted convention.

use crate::errors::{u64_to_string, FontCreationError, FontErrorKind};
use vstd::prelude::*;
use vstd::string::StringExecFns;

verus! {

// ---------------------------------------------------------------------------
// Color classification
// ---------------------------------------------------------------------------
//
// Each pixel is two bits. The four palette codes, written as the pair of bit
// values handed to the packer: transparent [1, 1], grey [0, 1], dark blue
// [0, 0], light blue [1, 0].

/// The pair of bit values for one RGB pixel. Classification is exact
/// equality against the four known triplets; the two near-grey variants share
/// the grey code, and every other triplet is transparent.
pub open spec fn classify_rgb(r: u8, g: u8, b: u8) -> Seq<u8> {
    if (r == 217 && g == 217 && b == 217) || (r == 216 && g == 216 && b == 216) {
        seq![0u8, 1u8]
    } else if r == 0 && g == 16 && b == 64 {
        seq![0u8, 0u8]
    } else if r == 128 && g == 128 && b == 176 {
        seq![1u8, 0u8]
    } else {
        seq![1u8, 1u8]
    }
}

/// Classification of a raw byte chunk: anything but a three-byte chunk is
/// transparent.
pub open spec fn classify_rgb_bytes(px: Seq<u8>) -> Seq<u8> {
    if px.len() == 3 {
        classify_rgb(px[0], px[1], px[2])
    } else {
        seq![1u8, 1u8]
    }
}

/// The pair of bit values for one greyscale pixel: a strict one-bit
/// classification, value 0 is ink and everything else background, the single
/// bit doubled for the two-bit packer.
pub open spec fn classify_grey(v: u8) -> Seq<u8> {
    if v == 0 {
        seq![0u8, 0u8]
    } else {
        seq![1u8, 1u8]
    }
}

/// Maps one decoded pixel, given as its raw bytes, to the pair of 2-bit
/// palette code values the games use.
pub fn rgb_to_2bit(bytes: &[u8]) -> (v: Vec<u8>)
    ensures
        v@ == classify_rgb_bytes(bytes@),
{
    let pair: (u8, u8) = if bytes.len() != 3 {
        (1, 1)
    } else if (bytes[0] == 217 && bytes[1] == 217 && bytes[2] == 217) || (bytes[0] == 216
        && bytes[1] == 216 && bytes[2] == 216) {
        (0, 1)
    } else if bytes[0] == 0 && bytes[1] == 16 && bytes[2] == 64 {
        (0, 0)
    } else if bytes[0] == 128 && bytes[1] == 128 && bytes[2] == 176 {
        (1, 0)
    } else {
        (1, 1)
    };
    let mut v: Vec<u8> = Vec::new();
    v.push(pair.0);
    v.push(pair.1);
    proof {
        assert(v@ =~= classify_rgb_bytes(bytes@));
    }
    v
}

// ---------------------------------------------------------------------------
// Bit packing
// ---------------------------------------------------------------------------

/// Whether bit `i` of `v` is set.
pub open spec fn bit_set(v: u8, i: u8) -> bool {
    (v >> i) & 1u8 == 1u8
}

/// Every element of `s` is a single bit value.
pub open spec fn all_bit_values(s: Seq<u8>) -> bool {
    forall|i: int| 0 <= i < s.len() ==> s[i] == 0 || s[i] == 1
}

/// The byte that packs a group of up to eight bit values: bit `i` of the
/// byte is set exactly when the `i`-th value is 0 — the games' inverted
/// convention.
pub open spec fn pack_bits(s: Seq<u8>) -> u8
    recommends
        s.len() <= 8,
    decreases s.len(),
{
    if s.len() == 0 {
        0u8
    } else if s.last() == 0u8 {
        pack_bits(s.drop_last()) | (1u8 << ((s.len() - 1) as u8))
    } else {
        pack_bits(s.drop_last())
    }
}

/// The bits of a packed byte: bit `i` is set exactly when value `i` was 0,
/// and bits past the group's length stay clear.
pub proof fn lemma_pack_bits_bits(s: Seq<u8>)
    requires
        s.len() <= 8,
    ensures
        forall|i: int| 0 <= i < s.len() ==> (#[trigger] bit_set(pack_bits(s), i as u8) <==> s[i]
            == 0),
        forall|i: int| s.len() <= i < 8 ==> !(#[trigger] bit_set(pack_bits(s), i as u8)),
    decreases s.len(),
{
    if s.len() == 0 {
        assert forall|i: int| 0 <= i < 8 implies !(#[trigger] bit_set(0u8, i as u8)) by {
            let iu = i as u8;
            assert((0u8 >> iu) & 1u8 != 1u8) by (bit_vector);
        }
    } else {
        let s0 = s.drop_last();
        lemma_pack_bits_bits(s0);
        let p = pack_bits(s0);
        let k = (s.len() - 1) as u8;
        if s.last() == 0u8 {
            let q = p | (1u8 << k);
            assert(pack_bits(s) == q);
            assert forall|i: int| 0 <= i < 8 implies (#[trigger] bit_set(q, i as u8) <==> (bit_set(
                p,
                i as u8,
            ) || i == k)) by {
                let iu = i as u8;
                assert((((p | (1u8 << k)) >> iu) & 1u8 == 1u8) <==> ((p >> iu) & 1u8 == 1u8 || iu
                    == k)) by (bit_vector)
                    requires
                        iu < 8,
                        k < 8,
                ;
            }
        } else {
            assert(pack_bits(s) == p);
        }
    }
}

/// The test-only inverse of the packer: reads the eight bits back out as bit
/// values.
pub open spec fn unpack_bits(v: u8) -> Seq<u8> {
    Seq::new(8, |i: int| if bit_set(v, i as u8) { 0u8 } else { 1u8 })
}

/// Bit packing is involutive: packing a group of eight bit values and
/// unpacking the byte again reproduces the group exactly.
pub proof fn lemma_pack_bits_involutive(s: Seq<u8>)
    requires
        s.len() == 8,
        all_bit_values(s),
    ensures
        unpack_bits(pack_bits(s)) == s,
{
    lemma_pack_bits_bits(s);
    assert(unpack_bits(pack_bits(s)) =~= s);
}

/// Packs a group of exactly eight bit values into one output byte, bit `i`
/// set from the `i`-th value: a value of 0 sets the bit and a value of 1
/// clears it. Any other value, or a group of another length, is an error.
pub fn collapse_bits(bytes: &[u8]) -> (r: Result<u8, FontCreationError>)
    ensures
        r is Ok <==> (bytes@.len() == 8 && all_bit_values(bytes@)),
        r matches Ok(b) ==> b == pack_bits(bytes@),
        r matches Ok(b) ==> forall|i: int| 0 <= i < 8 ==> (bit_set(b, i as u8) <==> bytes@[i] == 0),
        r matches Err(e) ==> e.kind == FontErrorKind::Format,
{
    if bytes.len() != 8 {
        let mut msg = String::from_str("Input must be 8 bytes long (");
        msg.append(u64_to_string(bytes.len() as u64).as_str());
        msg.append(" elements provided)");
        return Err(FontCreationError::with_kind(FontErrorKind::Format, msg));
    }
    let mut result: u8 = 0;
    let mut i: usize = 0;
    while i < 8
        invariant
            i <= 8,
            bytes@.len() == 8,
            result == pack_bits(bytes@.subrange(0, i as int)),
            forall|j: int| 0 <= j < i ==> bytes@[j] == 0 || bytes@[j] == 1,
        decreases 8 - i,
    {
        let b = bytes[i];
        if b == 0 {
            result = result | (1u8 << (i as u8));
        } else if b != 1 {
            let mut msg = String::from_str("Bits must be either 0 or 1 (value was ");
            msg.append(u64_to_string(b as u64).as_str());
            msg.append(")");
            return Err(FontCreationError::with_kind(FontErrorKind::Format, msg));
        }
        proof {
            let sub1 = bytes@.subrange(0, (i + 1) as int);
            assert(sub1.drop_last() =~= bytes@.subrange(0, i as int));
            assert(sub1.last() == bytes@[i as int]);
        }
        i += 1;
    }
    proof {
        assert(bytes@.subrange(0, 8) =~= bytes@);
        lemma_pack_bits_bits(bytes@);
    }
    Ok(result)
}

/// Copies a chunk of bytes in reverse order.
pub fn reverse_chunk(input: &[u8]) -> (v: Vec<u8>)
    ensures
        v@ == input@.reverse(),
{
    let mut v: Vec<u8> = Vec::new();
    let mut i: usize = input.len();
    while i > 0
        invariant
            i <= input@.len(),
            v@.len() == input@.len() - i,
            forall|j: int| 0 <= j < v@.len() ==> v@[j] == input@[input@.len() - 1 - j],
        decreases i,
    {
        i = i - 1;
        v.push(input[i]);
    }
    proof {
        assert(v@ =~= input@.reverse());
    }
    v
}


// ---------------------------------------------------------------------------
// Glyph images and the transform pipeline
// ---------------------------------------------------------------------------

/// The closed set of pixel representations a decoded glyph image may arrive
/// in. The color representations classify against the RGB palette; the
/// greyscale ones use the one-bit ink/background rule.
#[derive(Clone, Copy, PartialEq, Eq, Structural, Debug)]
pub enum PixelFormat {
    Rgb,
    Rgba,
    Grey,
    GreyAlpha,
}

impl PixelFormat {
    /// Bytes per pixel in the raw image data.
    pub open spec fn spec_channels(self) -> nat {
        match self {
            PixelFormat::Rgb => 3,
            PixelFormat::Rgba => 4,
            PixelFormat::Grey => 1,
            PixelFormat::GreyAlpha => 2,
        }
    }

    /// Whether the representation carries color rather than greyscale ink.
    pub open spec fn spec_is_color(self) -> bool {
        match self {
            PixelFormat::Rgb => true,
            PixelFormat::Rgba => true,
            PixelFormat::Grey => false,
            PixelFormat::GreyAlpha => false,
        }
    }

    pub fn channels(&self) -> (n: usize)
        ensures
            n == self.spec_channels(),
    {
        match *self {
            PixelFormat::Rgb => 3,
            PixelFormat::Rgba => 4,
            PixelFormat::Grey => 1,
            PixelFormat::GreyAlpha => 2,
        }
    }

    pub fn is_color(&self) -> (c: bool)
        ensures
            c == self.spec_is_color(),
    {
        match *self {
            PixelFormat::Rgb => true,
            PixelFormat::Rgba => true,
            PixelFormat::Grey => false,
            PixelFormat::GreyAlpha => false,
        }
    }
}

/// One decoded glyph image: dimensions, pixel representation, and the raw
/// decoded bytes in image scan order.
#[derive(Debug)]
pub struct GlyphImage {
    pub width: u32,
    pub height: u32,
    pub format: PixelFormat,
    pub data: Vec<u8>,
}

/// A supported glyph image: 8 x 16 or 16 x 16 pixels, with exactly one
/// pixel's worth of bytes per pixel.
pub open spec fn valid_glyph_image(img: GlyphImage) -> bool {
    &&& img.height == 16
    &&& (img.width == 8 || img.width == 16)
    &&& img.data@.len() == img.width * img.height * img.format.spec_channels()
}

/// The classified pair of bit values of pixel `i`, by representation. The
/// alpha channel, where present, is dropped before classification.
pub open spec fn pixel_code(img: GlyphImage, i: int) -> Seq<u8> {
    let d = img.data@;
    match img.format {
        PixelFormat::Rgb => classify_rgb_bytes(d.subrange(3 * i, 3 * i + 3)),
        PixelFormat::Rgba => classify_rgb_bytes(d.subrange(4 * i, 4 * i + 3)),
        PixelFormat::Grey => classify_grey(d[i]),
        PixelFormat::GreyAlpha => classify_grey(d[2 * i]),
    }
}

/// The glyph's classified bit stream in image scan order: two bit values per
/// pixel.
pub open spec fn glyph_bits(img: GlyphImage) -> Seq<u8> {
    Seq::new((img.width * img.height * 2) as nat, |j: int| pixel_code(img, j / 2)[j % 2])
}

/// The filler bit value appended when an 8-pixel row is widened to 16:
/// background for the masked color path, ink for the greyscale path.
pub open spec fn filler_bit(f: PixelFormat) -> u8 {
    if f.spec_is_color() {
        1u8
    } else {
        0u8
    }
}

/// Geometry normalization: each row of 16 bit values (8 pixels) is widened
/// to 32 by appending 16 filler values, yielding a 16 x 16 logical tile.
pub open spec fn expand_rows(s: Seq<u8>, filler: u8) -> Seq<u8>
    recommends
        s.len() == 256,
{
    Seq::new(512, |j: int| if j % 32 < 16 { s[(j / 32) * 16 + j % 32] } else { filler })
}

/// Quadrant flip: the stream's quarters of 128 bit values in reverse order.
pub open spec fn quadrant_flip(s: Seq<u8>) -> Seq<u8>
    recommends
        s.len() == 512,
{
    Seq::new(s.len(), |j: int| s[(3 - j / 128) * 128 + j % 128])
}

/// Vertical flip: the sixteen rows of 32 bit values in reverse order.
pub open spec fn vertical_flip(s: Seq<u8>) -> Seq<u8>
    recommends
        s.len() == 512,
{
    Seq::new(s.len(), |j: int| s[(15 - j / 32) * 32 + j % 32])
}

/// Horizontal flip: within each row of 32 bit values, the sixteen pixel
/// pairs in reverse order, each pair kept intact.
pub open spec fn horizontal_flip(s: Seq<u8>) -> Seq<u8>
    recommends
        s.len() == 512,
{
    Seq::new(s.len(), |j: int| s[(j / 32) * 32 + (15 - (j % 32) / 2) * 2 + (j % 32) % 2])
}

/// Packs the bit stream into output bytes, eight values per byte.
pub open spec fn pack_stream(s: Seq<u8>) -> Seq<u8>
    recommends
        s.len() % 8 == 0,
{
    Seq::new((s.len() / 8) as nat, |k: int| pack_bits(s.subrange(8 * k, 8 * k + 8)))
}

/// Final byte-level horizontal reversal: the output bytes grouped per
/// original pixel-row width and each group reversed, compensating for the
/// source format's left-right pixel order.
pub open spec fn reverse_groups(s: Seq<u8>, w: int) -> Seq<u8>
    recommends
        w > 0,
        s.len() % (w as nat) == 0,
{
    Seq::new(s.len(), |k: int| s[(k / w) * w + (w - 1 - k % w)])
}

/// The whole transform pipeline on a valid glyph image: classification,
/// geometry normalization, quadrant flip (color only), vertical flip,
/// horizontal flip, bit packing, and the final byte-level reversal.
pub open spec fn encode_glyph_spec(img: GlyphImage) -> Seq<u8>
    recommends
        valid_glyph_image(img),
{
    let bits = glyph_bits(img);
    let wide = if img.width == 8 {
        expand_rows(bits, filler_bit(img.format))
    } else {
        bits
    };
    let oriented = if img.format.spec_is_color() {
        quadrant_flip(wide)
    } else {
        wide
    };
    reverse_groups(pack_stream(horizontal_flip(vertical_flip(oriented))), img.width as int)
}

/// The transform pipeline always yields exactly 64 output bytes for a valid
/// glyph image, whatever its source width or pixel representation, because
/// normalization always yields a logical 16 x 16 tile before packing.
pub proof fn lemma_encode_glyph_len(img: GlyphImage)
    requires
        valid_glyph_image(img),
    ensures
        encode_glyph_spec(img).len() == 64,
{
}



fn expand_rows_exec(bits: &Vec<u8>, filler: u8) -> (out: Vec<u8>)
    requires
        bits@.len() == 256,
    ensures
        out@ == expand_rows(bits@, filler),
{
    let mut out: Vec<u8> = Vec::new();
    let mut j: usize = 0;
    while j < 512
        invariant
            bits@.len() == 256,
            j <= 512,
            out@.len() == j,
            forall|t: int| 0 <= t < j ==> out@[t] == expand_rows(bits@, filler)[t],
        decreases 512 - j,
    {
        if j % 32 < 16 {
            out.push(bits[(j / 32) * 16 + j % 32]);
        } else {
            out.push(filler);
        }
        j += 1;
    }
    proof {
        assert(out@ =~= expand_rows(bits@, filler));
    }
    out
}

fn quadrant_flip_exec(bits: &Vec<u8>) -> (out: Vec<u8>)
    requires
        bits@.len() == 512,
    ensures
        out@ == quadrant_flip(bits@),
{
    let mut out: Vec<u8> = Vec::new();
    let mut j: usize = 0;
    while j < 512
        invariant
            bits@.len() == 512,
            j <= 512,
            out@.len() == j,
            forall|t: int| 0 <= t < j ==> out@[t] == quadrant_flip(bits@)[t],
        decreases 512 - j,
    {
        out.push(bits[(3 - j / 128) * 128 + j % 128]);
        j += 1;
    }
    proof {
        assert(out@ =~= quadrant_flip(bits@));
    }
    out
}

fn vertical_flip_exec(bits: &Vec<u8>) -> (out: Vec<u8>)
    requires
        bits@.len() == 512,
    ensures
        out@ == vertical_flip(bits@),
{
    let mut out: Vec<u8> = Vec::new();
    let mut j: usize = 0;
    while j < 512
        invariant
            bits@.len() == 512,
            j <= 512,
            out@.len() == j,
            forall|t: int| 0 <= t < j ==> out@[t] == vertical_flip(bits@)[t],
        decreases 512 - j,
    {
        out.push(bits[(15 - j / 32) * 32 + j % 32]);
        j += 1;
    }
    proof {
        assert(out@ =~= vertical_flip(bits@));
    }
    out
}

fn horizontal_flip_exec(bits: &Vec<u8>) -> (out: Vec<u8>)
    requires
        bits@.len() == 512,
    ensures
        out@ == horizontal_flip(bits@),
{
    let mut out: Vec<u8> = Vec::new();
    let mut j: usize = 0;
    while j < 512
        invariant
            bits@.len() == 512,
            j <= 512,
            out@.len() == j,
            forall|t: int| 0 <= t < j ==> out@[t] == horizontal_flip(bits@)[t],
        decreases 512 - j,
    {
        out.push(bits[(j / 32) * 32 + (15 - (j % 32) / 2) * 2 + (j % 32) % 2]);
        j += 1;
    }
    proof {
        assert(out@ =~= horizontal_flip(bits@));
    }
    out
}

fn pack_stream_exec(bits: &Vec<u8>) -> (out: Vec<u8>)
    requires
        bits@.len() == 512,
        all_bit_values(bits@),
    ensures
        out@ == pack_stream(bits@),
{
    let mut out: Vec<u8> = Vec::new();
    let mut k: usize = 0;
    while k < 64
        invariant
            bits@.len() == 512,
            all_bit_values(bits@),
            k <= 64,
            out@.len() == k,
            forall|t: int| 0 <= t < k ==> out@[t] == pack_stream(bits@)[t],
        decreases 64 - k,
    {
        let chunk: &[u8] = &bits[8 * k..8 * k + 8];
        proof {
            assert(chunk@ =~= bits@.subrange(8 * k as int, 8 * k as int + 8));
            assert forall|t: int| 0 <= t < 8 implies chunk@[t] == 0 || chunk@[t] == 1 by {
                assert(chunk@[t] == bits@[8 * k + t]);
            }
        }
        match collapse_bits(chunk) {
            Ok(b) => out.push(b),
            Err(_) => {
                proof {
                    assert(false);
                }
            },
        }
        k += 1;
    }
    proof {
        assert(out@ =~= pack_stream(bits@));
    }
    out
}

fn reverse_groups_exec(s: &Vec<u8>, w: usize) -> (out: Vec<u8>)
    requires
        s@.len() == 64,
        w == 8 || w == 16,
    ensures
        out@ == reverse_groups(s@, w as int),
{
    let mut out: Vec<u8> = Vec::new();
    let mut k: usize = 0;
    while k < 64
        invariant
            s@.len() == 64,
            w == 8 || w == 16,
            k <= 64,
            out@.len() == k,
            forall|t: int| 0 <= t < k ==> out@[t] == reverse_groups(s@, w as int)[t],
        decreases 64 - k,
    {
        out.push(s[(k / w) * w + (w - 1 - k % w)]);
        k += 1;
    }
    proof {
        assert(out@ =~= reverse_groups(s@, w as int));
    }
    out
}



/// Converts one decoded glyph image into the game's native 64-byte tile:
/// classification into 2-bit palette codes, geometry normalization to a
/// 16 x 16 logical tile, the quadrant/vertical/horizontal reordering, bit
/// packing, and the final byte-level reversal. Unsupported geometry or a
/// short pixel buffer is a format error.
pub fn encode_glyph(img: &GlyphImage) -> (r: Result<Vec<u8>, FontCreationError>)
    ensures
        r is Ok <==> valid_glyph_image(*img),
        r matches Ok(v) ==> v@ == encode_glyph_spec(*img),
        r matches Ok(v) ==> v@.len() == 64,
        r matches Err(e) ==> e.kind == FontErrorKind::Format,
{
    if img.height != 16 || !(img.width == 8 || img.width == 16) {
        let mut msg = String::from_str("Incorrect tile size ");
        msg.append(u64_to_string(img.width as u64).as_str());
        msg.append("x");
        msg.append(u64_to_string(img.height as u64).as_str());
        msg.append(" (expected 8x16 or 16x16)");
        return Err(FontCreationError::with_kind(FontErrorKind::Format, msg));
    }
    let ch = img.format.channels();
    let npx: usize = (img.width as usize) * 16;
    if img.data.len() != npx * ch {
        return Err(FontCreationError::with_kind(
            FontErrorKind::Format,
            String::from_str("Pixel buffer does not match the tile's dimensions"),
        ));
    }
    let mut bits: Vec<u8> = Vec::new();
    let mut i: usize = 0;
    while i < npx
        invariant
            valid_glyph_image(*img),
            npx == img.width * 16,
            ch == img.format.spec_channels(),
            img.data@.len() == npx * ch,
            i <= npx,
            bits@.len() == 2 * i,
            forall|j: int| 0 <= j < 2 * i ==> bits@[j] == glyph_bits(*img)[j],
            all_bit_values(bits@),
        decreases npx - i,
    {
        let pair: (u8, u8) = match img.format {
            PixelFormat::Rgb => {
                let px = &img.data[3 * i..3 * i + 3];
                let code = rgb_to_2bit(px);
                (code[0], code[1])
            },
            PixelFormat::Rgba => {
                let px = &img.data[4 * i..4 * i + 3];
                let code = rgb_to_2bit(px);
                (code[0], code[1])
            },
            PixelFormat::Grey => {
                if img.data[i] == 0 {
                    (0, 0)
                } else {
                    (1, 1)
                }
            },
            PixelFormat::GreyAlpha => {
                if img.data[2 * i] == 0 {
                    (0, 0)
                } else {
                    (1, 1)
                }
            },
        };
        proof {
            assert(seq![pair.0, pair.1] =~= pixel_code(*img, i as int));
            assert(glyph_bits(*img)[2 * i] == pixel_code(*img, i as int)[0]);
            assert(glyph_bits(*img)[2 * i + 1] == pixel_code(*img, i as int)[1]);
        }
        bits.push(pair.0);
        bits.push(pair.1);
        i += 1;
    }
    proof {
        assert(bits@ =~= glyph_bits(*img));
    }
    let filler: u8 = if img.format.is_color() {
        1
    } else {
        0
    };
    let wide: Vec<u8> = if img.width == 8 {
        expand_rows_exec(&bits, filler)
    } else {
        bits
    };
    proof {
        assert(wide@.len() == 512);
        assert forall|j: int| 0 <= j < 512 implies wide@[j] == 0 || wide@[j] == 1 by {
            if img.width == 8 && j % 32 >= 16 {
                assert(wide@[j] == filler_bit(img.format));
            }
        }
    }
    let oriented: Vec<u8> = if img.format.is_color() {
        quadrant_flip_exec(&wide)
    } else {
        wide
    };
    proof {
        assert forall|j: int| 0 <= j < 512 implies oriented@[j] == 0 || oriented@[j] == 1 by {
            if img.format.spec_is_color() {
                assert(0 <= (3 - j / 128) * 128 + j % 128 < 512);
            }
        }
    }
    let down: Vec<u8> = vertical_flip_exec(&oriented);
    proof {
        assert forall|j: int| 0 <= j < 512 implies down@[j] == 0 || down@[j] == 1 by {
            assert(0 <= (15 - j / 32) * 32 + j % 32 < 512);
        }
    }
    let across: Vec<u8> = horizontal_flip_exec(&down);
    proof {
        assert forall|j: int| 0 <= j < 512 implies across@[j] == 0 || across@[j] == 1 by {
            assert(0 <= (j / 32) * 32 + (15 - (j % 32) / 2) * 2 + (j % 32) % 2 < 512);
        }
    }
    let packed: Vec<u8> = pack_stream_exec(&across);
    let out: Vec<u8> = reverse_groups_exec(&packed, img.width as usize);
    Ok(out)
}


} // verus!
