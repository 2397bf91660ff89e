use vstd::prelude::*;

verus! {

/// Why an operation on an escrow was refused. A refused operation changes
/// nothing.
#[derive(Clone, Copy, Debug, PartialEq, Eq, Structural)]
pub enum EscrowError {
    /// The party that has to sign did not, or is not the party that the
    /// operation belongs to.
    Unauthorized,
    /// The paying party holds less than the amount to be moved.
    InsufficientFunds,
    /// A supplied account is not the one that the operation expects at that
    /// place.
    AddressMismatch,
    /// The escrow is not open.
    AlreadyClosed,
    /// A deposit or a demanded amount of zero.
    InvalidAmount,
}

} // verus!
