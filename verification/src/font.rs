//! The font assembler: concatenates encoded glyph blocks in source order
//! into one contiguous font blob, and, for standalone output, prepends the
//! header and codepoint table the games' tools expect.

use crate::codec::{encode_glyph, encode_glyph_spec, valid_glyph_image, GlyphImage};
use crate::errors::{FontCreationError, FontErrorKind};
use vstd::prelude::*;

verus! {

/// The font blob of a sequence of glyph images: each one's 64-byte block,
/// concatenated in source-iteration order.
pub open spec fn font_data_spec(gs: Seq<GlyphImage>) -> Seq<u8>
    decreases gs.len(),
{
    if gs.len() == 0 {
        Seq::empty()
    } else {
        font_data_spec(gs.drop_last()) + encode_glyph_spec(gs.last())
    }
}

proof fn lemma_font_data_spec_len(gs: Seq<GlyphImage>)
    requires
        forall|i: int| 0 <= i < gs.len() ==> valid_glyph_image(gs[i]),
    ensures
        font_data_spec(gs).len() == 64 * gs.len(),
    decreases gs.len(),
{
    if gs.len() > 0 {
        lemma_font_data_spec_len(gs.drop_last());
        crate::codec::lemma_encode_glyph_len(gs.last());
    }
}

/// Builds the patch-mode font blob: every glyph image encoded to its
/// 64-byte block and the blocks concatenated in source order. Codepoints are
/// not embedded; the target container carries its own codepoint table. The
/// first unsupported glyph image aborts the whole run.
pub fn create_font_data(glyphs: &Vec<GlyphImage>) -> (r: Result<Vec<u8>, FontCreationError>)
    ensures
        r is Ok <==> (forall|i: int| 0 <= i < glyphs@.len() ==> valid_glyph_image(glyphs@[i])),
        r matches Ok(v) ==> v@ == font_data_spec(glyphs@),
        r matches Ok(v) ==> v@.len() == 64 * glyphs@.len(),
        r matches Err(e) ==> e.kind == FontErrorKind::Format,
{
    let mut imagedata: Vec<u8> = Vec::new();
    let mut i: usize = 0;
    while i < glyphs.len()
        invariant
            i <= glyphs@.len(),
            forall|j: int| 0 <= j < i ==> valid_glyph_image(glyphs@[j]),
            imagedata@ == font_data_spec(glyphs@.subrange(0, i as int)),
        decreases glyphs@.len() - i,
    {
        match encode_glyph(&glyphs[i]) {
            Ok(mut bytes) => {
                imagedata.append(&mut bytes);
            },
            Err(e) => {
                return Err(e);
            },
        }
        proof {
            assert(glyphs@.subrange(0, (i + 1) as int).drop_last() =~= glyphs@.subrange(
                0,
                i as int,
            ));
            assert(glyphs@.subrange(0, (i + 1) as int).last() == glyphs@[i as int]);
        }
        i += 1;
    }
    proof {
        assert(glyphs@.subrange(0, glyphs@.len() as int) =~= glyphs@);
        lemma_font_data_spec_len(glyphs@);
    }
    Ok(imagedata)
}

/// A 16-bit big-endian length.
pub open spec fn be16(n: int) -> Seq<u8> {
    seq![((n / 256) % 256) as u8, (n % 256) as u8]
}

/// The standalone codepoint table: one big-endian two-byte entry per glyph,
/// each single-byte codepoint zero-extended in the high byte.
pub open spec fn codepoint_table_spec(cps: Seq<u8>) -> Seq<u8> {
    Seq::new(2 * cps.len(), |j: int| if j % 2 == 0 { 0u8 } else { cps[j / 2] })
}

/// The standalone font file: a big-endian header length (2 + 2 N for N
/// glyphs), the codepoint table, the glyph bytes, and the caller's trailing
/// blob, unmodified.
pub open spec fn standalone_font_spec(cps: Seq<u8>, glyph_data: Seq<u8>, append: Seq<u8>) -> Seq<
    u8,
> {
    be16(2 + 2 * cps.len() as int) + codepoint_table_spec(cps) + glyph_data + append
}

/// Standalone-mode assembler: builds the self-contained font file around the
/// glyph byte stream. The trailing blob is appended unmodified; pass an
/// empty one for none.
pub fn assemble_standalone(codepoints: &Vec<u8>, glyph_data: &Vec<u8>, append: &Vec<u8>) -> (out:
    Vec<u8>)
    requires
        2 + 2 * codepoints@.len() <= 65535,
    ensures
        out@ == standalone_font_spec(codepoints@, glyph_data@, append@),
{
    let n = codepoints.len();
    let header_len: usize = 2 + 2 * n;
    let mut out: Vec<u8> = Vec::new();
    out.push((header_len / 256) as u8);
    out.push((header_len % 256) as u8);
    proof {
        assert(out@ =~= be16(2 + 2 * codepoints@.len() as int));
    }
    let mut i: usize = 0;
    while i < n
        invariant
            n == codepoints@.len(),
            2 + 2 * n <= 65535,
            i <= n,
            out@ == be16(2 + 2 * codepoints@.len() as int) + codepoint_table_spec(
                codepoints@.subrange(0, i as int),
            ),
        decreases n - i,
    {
        out.push(0);
        out.push(codepoints[i]);
        proof {
            assert(out@ =~= be16(2 + 2 * codepoints@.len() as int) + codepoint_table_spec(
                codepoints@.subrange(0, (i + 1) as int),
            ));
        }
        i += 1;
    }
    out.extend_from_slice(glyph_data.as_slice());
    out.extend_from_slice(append.as_slice());
    proof {
        assert(codepoints@.subrange(0, codepoints@.len() as int) =~= codepoints@);
        assert(out@ =~= standalone_font_spec(codepoints@, glyph_data@, append@));
    }
    out
}

} // verus!
