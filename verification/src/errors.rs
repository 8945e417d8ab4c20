use vstd::prelude::*;

verus! {

/// The guest value-protocol operations that a Foreign Object Adapter forwards
/// to its host object. An error raised while delegating is tagged with the
/// operation it came from, so failures stay distinguishable in logs.
#[derive(Clone, Copy, Debug, PartialEq, Eq, Structural)]
pub enum AdapterOp {
    Truthiness,
    Hash,
    Equality,
    Ordering,
    Invocation,
    Length,
    Membership,
    AttrRead,
    AttrExists,
    AttrList,
    AttrWrite,
}

/// Model of a guest-level error raised by the bridge.
#[verifier::ext_equal]
pub enum GuestErr {
    /// A guest value kind has no host representation.
    Unrepresentable,
    /// A host-side protocol operation ran and failed; wraps the operation
    /// name and the host's own description.
    Delegation { op: AdapterOp, message: Seq<char> },
    /// The guest argument list of an invocation could not be unpacked; the
    /// host call was never attempted. `positional` tells whether the
    /// positional or the named arguments were at fault.
    ArgShape { positional: bool, message: Seq<char> },
}

/// A guest-level error raised by the bridge: a conversion failure, a failed
/// host delegation, or a malformed invocation argument list.
#[derive(Debug, PartialEq, Eq)]
pub enum GuestError {
    Unrepresentable,
    Delegation { op: AdapterOp, message: String },
    ArgShape { positional: bool, message: String },
}

impl View for GuestError {
    type V = GuestErr;

    open spec fn view(&self) -> GuestErr {
        match *self {
            GuestError::Unrepresentable => GuestErr::Unrepresentable,
            GuestError::Delegation { op, message } => GuestErr::Delegation {
                op,
                message: message@,
            },
            GuestError::ArgShape { positional, message } => GuestErr::ArgShape {
                positional,
                message: message@,
            },
        }
    }
}

/// A failure reported by the host runtime for one of its own protocol
/// operations, reduced to the description the bridge keeps of it.
#[derive(Debug, PartialEq, Eq)]
pub struct HostError {
    pub message: String,
}

impl View for HostError {
    type V = Seq<char>;

    open spec fn view(&self) -> Seq<char> {
        self.message@
    }
}

} // verus!
