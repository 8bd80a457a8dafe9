//! The system image patcher: embeds a compressed font blob into an existing
//! SYSTEM.DAT container image at the game's fixed offset, zero-padding the
//! blob to the region's fixed length and leaving every byte outside the
//! font region — and the container's total length — untouched.

use crate::compress::{cmp_compressed, compress_bytes, compression_error_message};
use crate::consts::{lemma_font_region_in_bounds, Game};
use crate::errors::{u64_to_string, FontCreationError, FontErrorKind};
use vstd::prelude::*;
use vstd::string::StringExecFns;

verus! {

/// `s` zero-padded at the end to length `n`.
pub open spec fn pad_zero(s: Seq<u8>, n: int) -> Seq<u8>
    recommends
        s.len() <= n,
{
    s + Seq::new((n - s.len()) as nat, |i: int| 0u8)
}

/// The patched container: the original bytes up to the font region, the
/// region bytes zero-padded to the region's fixed length, and the original
/// bytes after the region.
pub open spec fn spliced_container(container: Seq<u8>, region: Seq<u8>, game: Game) -> Seq<u8> {
    let start = game.spec_font_start_address() as int;
    let clen = game.spec_font_len_compressed() as int;
    container.subrange(0, start) + pad_zero(region, clen) + container.subrange(
        start + clen,
        container.len() as int,
    )
}

/// Patching preserves the container outside the font region: the result has
/// exactly the container's length, and every byte before the region's start
/// and after its end is identical to the input container's.
pub proof fn lemma_patch_preserves_outside(container: Seq<u8>, region: Seq<u8>, game: Game)
    requires
        container.len() == game.spec_system_dat_size(),
        region.len() <= game.spec_font_len_compressed(),
    ensures
        spliced_container(container, region, game).len() == game.spec_system_dat_size(),
        spliced_container(container, region, game).subrange(
            0,
            game.spec_font_start_address() as int,
        ) == container.subrange(0, game.spec_font_start_address() as int),
        spliced_container(container, region, game).subrange(
            game.spec_font_start_address() + game.spec_font_len_compressed(),
            game.spec_system_dat_size() as int,
        ) == container.subrange(
            game.spec_font_start_address() + game.spec_font_len_compressed(),
            game.spec_system_dat_size() as int,
        ),
{
    lemma_font_region_in_bounds(game);
    let start = game.spec_font_start_address() as int;
    let clen = game.spec_font_len_compressed() as int;
    let s = spliced_container(container, region, game);
    assert(s.len() == container.len());
    assert(s.subrange(0, start) =~= container.subrange(0, start));
    assert(s.subrange(start + clen, container.len() as int) =~= container.subrange(
        start + clen,
        container.len() as int,
    ));
}

/// Copies `data` and zero-pads the copy to length `n`.
fn zero_pad(data: &Vec<u8>, n: usize) -> (out: Vec<u8>)
    requires
        data@.len() <= n,
    ensures
        out@ == pad_zero(data@, n as int),
{
    let mut out: Vec<u8> = Vec::new();
    out.extend_from_slice(data.as_slice());
    while out.len() < n
        invariant
            data@.len() <= out@.len() <= n,
            out@.subrange(0, data@.len() as int) == data@,
            forall|j: int| data@.len() <= j < out@.len() ==> out@[j] == 0,
        decreases n - out@.len(),
    {
        out.push(0);
        proof {
            assert(out@.subrange(0, data@.len() as int) =~= out@.drop_last().subrange(
                0,
                data@.len() as int,
            ));
        }
    }
    proof {
        assert(out@ =~= pad_zero(data@, n as int));
    }
    out
}

/// Splices an already-compressed font region into a container: checks the
/// container's length against the profile and the region against the
/// region's fixed budget, zero-pads the region to that budget, and rebuilds
/// the container around it.
pub fn splice_font_region(container: &Vec<u8>, region: &Vec<u8>, game: &Game) -> (r: Result<
    Vec<u8>,
    FontCreationError,
>)
    ensures
        r is Ok <==> (container@.len() == game.spec_system_dat_size() && region@.len()
            <= game.spec_font_len_compressed()),
        r matches Ok(v) ==> v@ == spliced_container(container@, region@, *game),
        r matches Ok(v) ==> v@.len() == game.spec_system_dat_size(),
        r matches Err(e) ==> (e.kind == FontErrorKind::ProfileMismatch <==> container@.len()
            != game.spec_system_dat_size()),
        r matches Err(e) ==> (e.kind == FontErrorKind::FontTooLarge <==> (container@.len()
            == game.spec_system_dat_size() && region@.len() > game.spec_font_len_compressed())),
        r matches Err(e) ==> (e.kind == FontErrorKind::ProfileMismatch || e.kind
            == FontErrorKind::FontTooLarge),
{
    let size = game.system_dat_size();
    if container.len() as u64 != size {
        let mut msg = String::from_str("Container size ");
        msg.append(u64_to_string(container.len() as u64).as_str());
        msg.append(" doesn't match the selected game's SYSTEM.DAT size ");
        msg.append(u64_to_string(size).as_str());
        return Err(FontCreationError::with_kind(FontErrorKind::ProfileMismatch, msg));
    }
    proof {
        lemma_font_region_in_bounds(*game);
    }
    let clen = game.font_len_compressed() as usize;
    if region.len() > clen {
        let mut msg = String::from_str("Compressed font data exceeds the container's font region (compressed size ");
        msg.append(u64_to_string(region.len() as u64).as_str());
        msg.append(", region size ");
        msg.append(u64_to_string(game.font_len_compressed()).as_str());
        msg.append(")");
        return Err(FontCreationError::with_kind(FontErrorKind::FontTooLarge, msg));
    }
    let start = game.font_start_address() as usize;
    let mut out: Vec<u8> = Vec::new();
    out.extend_from_slice(&container[0..start]);
    let mut padded = zero_pad(region, clen);
    out.append(&mut padded);
    out.extend_from_slice(&container[start + clen..container.len()]);
    proof {
        assert(out@ =~= spliced_container(container@, region@, *game));
        lemma_patch_preserves_outside(container@, region@, *game);
    }
    Ok(out)
}

/// Embeds a new font blob into a SYSTEM.DAT container image. The blob is
/// zero-padded to the profile's uncompressed budget, compressed with the
/// external codec, zero-padded to the compressed region's fixed length and
/// spliced over the font region. The container buffer itself is never
/// touched; a fresh buffer of identical length is returned. Font data over
/// the uncompressed budget, or compressed data over the region's budget, is
/// rejected rather than truncated.
pub fn insert_data_into_file(data: &Vec<u8>, target_data: &Vec<u8>, game: &Game) -> (r: Result<
    Vec<u8>,
    FontCreationError,
>)
    ensures
        target_data@.len() != game.spec_system_dat_size() <==> (r matches Err(e) && e.kind
            == FontErrorKind::ProfileMismatch),
        (target_data@.len() == game.spec_system_dat_size() && data@.len()
            > game.spec_font_len_uncompressed()) ==> (r matches Err(e) && e.kind
            == FontErrorKind::FontTooLarge),
        r matches Ok(v) ==> data@.len() <= game.spec_font_len_uncompressed(),
        r matches Ok(v) ==> cmp_compressed(
            pad_zero(data@, game.spec_font_len_uncompressed() as int),
        ).len() <= game.spec_font_len_compressed(),
        r matches Ok(v) ==> v@ == spliced_container(
            target_data@,
            cmp_compressed(pad_zero(data@, game.spec_font_len_uncompressed() as int)),
            *game,
        ),
        r matches Ok(v) ==> v@.len() == game.spec_system_dat_size(),
        r matches Err(e) ==> (e.kind == FontErrorKind::FontTooLarge ==> (data@.len()
            > game.spec_font_len_uncompressed() || cmp_compressed(
            pad_zero(data@, game.spec_font_len_uncompressed() as int),
        ).len() > game.spec_font_len_compressed())),
        r matches Err(e) ==> (e.kind == FontErrorKind::Compression ==> (target_data@.len()
            == game.spec_system_dat_size() && data@.len() <= game.spec_font_len_uncompressed())),
        r matches Err(e) ==> (e.kind == FontErrorKind::ProfileMismatch || e.kind
            == FontErrorKind::FontTooLarge || e.kind == FontErrorKind::Compression),
{
    let size = game.system_dat_size();
    if target_data.len() as u64 != size {
        let mut msg = String::from_str("Provided SYSTEM.DAT size, ");
        msg.append(u64_to_string(target_data.len() as u64).as_str());
        msg.append(", doesn't match the selected game's size, ");
        msg.append(u64_to_string(size).as_str());
        return Err(FontCreationError::with_kind(FontErrorKind::ProfileMismatch, msg));
    }
    let ulen64 = game.font_len_uncompressed();
    if (data.len() as u64) > ulen64 {
        let mut msg = String::from_str("Requested font is too large for SYSTEM.DAT (provided size ");
        msg.append(u64_to_string(data.len() as u64).as_str());
        msg.append(", max size ");
        msg.append(u64_to_string(ulen64).as_str());
        msg.append(")");
        return Err(FontCreationError::with_kind(FontErrorKind::FontTooLarge, msg));
    }
    let ulen = ulen64 as usize;
    let padded = zero_pad(data, ulen);
    match compress_bytes(&padded) {
        Ok(compressed) => splice_font_region(target_data, &compressed, game),
        Err(e) => Err(
            FontCreationError::with_kind(
                FontErrorKind::Compression,
                compression_error_message(&e),
            ),
        ),
    }
}

} // verus!
