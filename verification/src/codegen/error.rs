//! What can go wrong between the syntax tree and the written blocks.

use vstd::prelude::*;

verus! {

/// The kinds of findings. All but the last are fatal: nothing is written
/// once one of them has been found.
#[derive(Clone, Copy, Debug, PartialEq, Eq, Structural)]
pub enum ErrorKind {
    /// An identifier has no binding.
    UnresolvedReference,
    /// Two definitions share a name and a number of arguments.
    DuplicateProcedureSignature,
    /// A call gives another number of arguments than the definition takes.
    ArityMismatch,
    /// A node is read that was never given a payload.
    UnmaterializedNodeAccess,
    /// An argument or an enum variant is never referred to.
    UnusedEntityWarning,
}

impl ErrorKind {
    /// Whether a finding of this kind keeps anything from being written.
    pub open spec fn fatal(self) -> bool {
        self != ErrorKind::UnusedEntityWarning
    }

    /// Whether a finding of this kind keeps anything from being written.
    pub fn is_fatal(&self) -> (fatal: bool)
        ensures
            fatal == self.fatal(),
    {
        match self {
            ErrorKind::UnusedEntityWarning => false,
            _ => true,
        }
    }
}

} // verus!
