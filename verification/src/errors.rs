use vstd::prelude::*;

verus! {

/// Errors surfaced by the conversion engine.
///
/// - `Parse`: the timed-text markup is not well-formed, or the expected
///   `body → division → line [→ span]*` shape is absent; carries a reason.
/// - `MissingData`: an expected `data` array of the catalog envelope
///   (top level, lyrics relationship, or syllable-lyrics relationship)
///   is empty.
/// - `StructuralError`: a leaf span lacks a required begin/end/text field, or
///   span nesting exceeds the one-level group/leaf invariant, or the plain
///   document does not supply a line matching a synced line.
#[derive(Debug, PartialEq, Eq)]
pub enum ConvertError {
    Parse(String),
    MissingData,
    StructuralError,
}

} // verus!
