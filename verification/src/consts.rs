//! Fixed layout data for the two supported games' SYSTEM.DAT containers:
//! total size, the byte offset of the font region, and the uncompressed and
//! compressed budgets of that region.

use vstd::string::StringExecFns;

use crate::errors::{u64_to_string, FontCreationError, FontErrorKind};
use vstd::prelude::*;

verus! {

pub const SSS_SYSTEM_DAT_SIZE: u64 = 252232;
pub const SSSC_SYSTEM_DAT_SIZE: u64 = 258552;
pub const SSS_FONT_START: u64 = 0x16FC4;
pub const SSS_FONT_LEN_UNCOMPRESSED: u64 = 29376;
pub const SSS_FONT_LEN_COMPRESSED: u64 = 28097;
pub const SSSC_FONT_START: u64 = 0x1757C;
pub const SSSC_FONT_LEN_UNCOMPRESSED: u64 = 32256;
pub const SSSC_FONT_LEN_COMPRESSED: u64 = 30885;

/// Some things need to differentiate between the two games' SYSTEM.DAT files.
#[derive(Clone, Copy, PartialEq, Eq, Structural, Debug)]
pub enum Game {
    SSS,
    SSSC,
}

impl Game {
    /// Exact byte length of the game's SYSTEM.DAT container.
    pub open spec fn spec_system_dat_size(self) -> u64 {
        match self {
            Game::SSS => SSS_SYSTEM_DAT_SIZE,
            Game::SSSC => SSSC_SYSTEM_DAT_SIZE,
        }
    }

    /// Byte offset of the font region within the container.
    pub open spec fn spec_font_start_address(self) -> u64 {
        match self {
            Game::SSS => SSS_FONT_START,
            Game::SSSC => SSSC_FONT_START,
        }
    }

    /// Largest font blob the region holds before compression.
    pub open spec fn spec_font_len_uncompressed(self) -> u64 {
        match self {
            Game::SSS => SSS_FONT_LEN_UNCOMPRESSED,
            Game::SSSC => SSSC_FONT_LEN_UNCOMPRESSED,
        }
    }

    /// Fixed, zero-padded length of the compressed font region.
    pub open spec fn spec_font_len_compressed(self) -> u64 {
        match self {
            Game::SSS => SSS_FONT_LEN_COMPRESSED,
            Game::SSSC => SSSC_FONT_LEN_COMPRESSED,
        }
    }

    pub fn system_dat_size(&self) -> (size: u64)
        ensures
            size == self.spec_system_dat_size(),
    {
        match *self {
            Game::SSS => SSS_SYSTEM_DAT_SIZE,
            Game::SSSC => SSSC_SYSTEM_DAT_SIZE,
        }
    }

    pub fn font_start_address(&self) -> (addr: u64)
        ensures
            addr == self.spec_font_start_address(),
    {
        match *self {
            Game::SSS => SSS_FONT_START,
            Game::SSSC => SSSC_FONT_START,
        }
    }

    pub fn font_len_uncompressed(&self) -> (len: u64)
        ensures
            len == self.spec_font_len_uncompressed(),
    {
        match *self {
            Game::SSS => SSS_FONT_LEN_UNCOMPRESSED,
            Game::SSSC => SSSC_FONT_LEN_UNCOMPRESSED,
        }
    }

    pub fn font_len_compressed(&self) -> (len: u64)
        ensures
            len == self.spec_font_len_compressed(),
    {
        match *self {
            Game::SSS => SSS_FONT_LEN_COMPRESSED,
            Game::SSSC => SSSC_FONT_LEN_COMPRESSED,
        }
    }
}

/// The font region lies wholly inside the container, for either game.
pub proof fn lemma_font_region_in_bounds(game: Game)
    ensures
        game.spec_font_start_address() + game.spec_font_len_compressed()
            <= game.spec_system_dat_size(),
{
}

/// Selects the game profile from the container's byte length. An exact match
/// against the two known sizes is the only permitted detection method; any
/// other length is a profile mismatch.
pub fn detect_game(container_len: u64) -> (r: Result<Game, FontCreationError>)
    ensures
        container_len == SSS_SYSTEM_DAT_SIZE <==> (r matches Ok(g) && g == Game::SSS),
        container_len == SSSC_SYSTEM_DAT_SIZE <==> (r matches Ok(g) && g == Game::SSSC),
        r matches Err(e) ==> e.kind == FontErrorKind::ProfileMismatch
            && container_len != SSS_SYSTEM_DAT_SIZE && container_len != SSSC_SYSTEM_DAT_SIZE,
{
    if container_len == SSS_SYSTEM_DAT_SIZE {
        Ok(Game::SSS)
    } else if container_len == SSSC_SYSTEM_DAT_SIZE {
        Ok(Game::SSSC)
    } else {
        let mut msg = String::from_str("Couldn't recognize provided SYSTEM.DAT file: provided size, ");
        msg.append(u64_to_string(container_len).as_str());
        msg.append(", doesn't match known files");
        Err(FontCreationError::with_kind(FontErrorKind::ProfileMismatch, msg))
    }
}

} // verus!
