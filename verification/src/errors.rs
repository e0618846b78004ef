use vstd::prelude::*;

verus! {

/// Every way an escrow operation can be rejected.  A failed operation
/// never changes any state: all checks run before any mutation, and
/// each operation's contract says exactly which inputs produce which
/// error.
#[derive(Clone, Copy, Debug, PartialEq, Eq, Structural)]
pub enum EscrowError {
    /// An offer must deposit a strictly positive quantity.
    InvalidAmount,
    /// The paying party holds less of the asset than the transfer needs.
    InsufficientFunds,
    /// A record already exists at the address derived for this offer.
    DuplicateOffer,
    /// No open record exists at the given address (never created, or
    /// already terminated by a fulfill or a cancel).
    RecordNotFound,
    /// Only the maker recorded in the offer may cancel it.
    Unauthorized,
    /// A vault can only be closed once its balance is zero.
    NotEmpty,
    /// The derived vault address is already in use.
    AccountAlreadyExists,
}

} // verus!
