//! Operation-specific failures surfaced to callers. Each is the typed face
//! of a protocol-level error code; the connection stays healthy when one
//! arrives.

use vstd::prelude::*;

verus! {

/// Why a create was refused.
#[derive(Clone, Copy, Debug, PartialEq, Eq, Structural)]
pub enum Create {
    /// A parent of the given path does not exist.
    NoNode,
    /// A node already sits at the given path.
    NodeExists,
    /// The given ACL list is invalid.
    InvalidAcl,
    /// The parent is ephemeral and can have no children.
    NoChildrenForEphemerals,
}

/// Why a delete was refused.
#[derive(Clone, Copy, Debug, PartialEq, Eq, Structural)]
pub enum Delete {
    /// No node sits at the given path.
    NoNode,
    /// The node has children and cannot be deleted.
    NotEmpty,
    /// The node's version does not match the one expected.
    BadVersion { expected: i32 },
}

} // verus!
