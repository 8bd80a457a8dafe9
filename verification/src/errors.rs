//! The error type every stage of the font pipeline reports, together with the
//! closed set of failure kinds: I/O trouble, a malformed glyph image, a file
//! name without a codepoint, a container of unknown size, font data over a
//! fixed budget, and a failure of the external compression codec.

use vstd::prelude::*;

verus! {

/// Which condition a `FontCreationError` reports.
#[derive(Clone, Copy, PartialEq, Eq, Structural, Debug)]
pub enum FontErrorKind {
    /// A file could not be opened, read or written.
    Io,
    /// A glyph image has unsupported dimensions or color representation.
    Format,
    /// A glyph file name carries no decimal codepoint suffix.
    CodepointParse,
    /// The container's length matches neither known game.
    ProfileMismatch,
    /// Font data exceeds a fixed region budget.
    FontTooLarge,
    /// The external compression codec failed.
    Compression,
}

/// A fatal error from the font pipeline: a failure kind plus a
/// human-readable message.
#[derive(Debug)]
pub struct FontCreationError {
    pub kind: FontErrorKind,
    pub message: String,
}

impl FontCreationError {
    /// General constructor, used by the surrounding tooling for propagated
    /// I/O failures.
    pub fn new(message: String) -> (e: FontCreationError)
        ensures
            e.kind == FontErrorKind::Io,
            e.message@ == message@,
    {
        FontCreationError { kind: FontErrorKind::Io, message }
    }

    pub fn with_kind(kind: FontErrorKind, message: String) -> (e: FontCreationError)
        ensures
            e.kind == kind,
            e.message@ == message@,
    {
        FontCreationError { kind, message }
    }

    pub fn message(&self) -> (m: &String)
        ensures
            m@ == self.message@,
    {
        &self.message
    }
}

/// Relies on u64's std Display implementation to render a size as decimal
/// digits for diagnostic messages; nothing is proved about the text.
#[verifier::external_body]
pub(crate) fn u64_to_string(n: u64) -> String {
    n.to_string()
}

} // verus!
