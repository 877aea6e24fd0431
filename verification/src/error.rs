use vstd::prelude::*;

verus! {

/// A fatal construction-time authoring error.
///
/// Every failure this library can detect is a mistake in the authored
/// definitions, not a runtime condition a caller could recover from: the
/// caller is expected to treat any `DefError` as aborting the whole build.
/// The registration call that returned the error identifies the offending
/// definition.
#[derive(Clone, Copy, PartialEq, Eq, Structural, Debug)]
pub enum DefError {
    /// A lookup by name or by handle found nothing in a closed catalog
    /// (operand kind, opcode, setting, predicate, or chain target).
    UnknownReference,
    /// Two entries claimed the same unique name (opcode, operand kind,
    /// setting, or group name).
    DuplicateName,
    /// An instruction's operand or result list does not match its format,
    /// a variable-length operand kind stands before the final position,
    /// or a pattern variable escapes its source pattern.
    ShapeMismatch,
    /// A transform-group chain contains a cycle.
    Cycle,
}

} // verus!
