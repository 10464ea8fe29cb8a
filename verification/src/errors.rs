use vstd::prelude::*;

verus! {

/// Error codes reported by the escrow handlers. One named code per failure,
/// reported synchronously to the caller; a handler that fails applies nothing.
#[derive(Clone, Copy, Debug, PartialEq, Eq, Structural)]
pub enum ErrorCode {
    /// The maker's asset-A account holds less than the offered amount.
    InsufficientMakerBalance,
    /// The taker's asset-B account holds less than the wanted amount.
    InsufficientTakerBalance,
    /// The two asset types of an offer must differ.
    InvalidTokenMint,
    /// An amount (or a stake, or an expiry delay) must be greater than zero.
    InvalidAmount,
    /// The custodial vault could not pay out to the taker.
    FailedVaultWithdrawal,
    /// The custodial vault could not be closed after being emptied.
    FailedVaultClosure,
    /// The custodial vault could not pay back to the maker.
    FailedRefundTransfer,
    /// The custodial vault could not be closed during a refund.
    FailedRefundClosure,
    /// The caller does not hold the role (maker, authority, player) required.
    Unauthorized,
    /// A deposit must equal the game's stake exactly.
    StakeAmountMismatch,
    /// The depositing player has already deposited.
    AlreadyDeposited,
    /// Both players must have deposited before a game can be finalized.
    DepositsIncomplete,
    /// The game's expiry timestamp has not passed yet.
    NotExpired,
    /// The winner code or the supplied payout destination is wrong.
    InvalidWinner,
    /// A native-value transfer failed (insufficient balance or overflow).
    LamportsTransferFailed,
    /// No record exists at the derived address (already consumed or closed).
    AccountNotFound,
    /// A record already exists at the derived address (identifier collision).
    AccountAlreadyExists,
}

/// Failures of the transfer primitives, before a handler maps them to its
/// own named code.
#[derive(Clone, Copy, Debug, PartialEq, Eq, Structural)]
pub enum TransferError {
    /// The source holds less than the requested amount.
    InsufficientBalance,
    /// The source or destination does not carry the declared asset type.
    MintMismatch,
    /// The destination balance would exceed the representable maximum.
    Overflow,
    /// A custodial record can only be closed once emptied of value.
    AccountNotEmpty,
}

/// Error reported by the unverified shell around the library when a
/// submitted transaction fails as a whole.
#[derive(Debug)]
pub enum TestError {
    TransactionFailed(String),
}

impl TestError {
    /// The description carried by the failure.
    pub fn message(&self) -> (r: &String)
        ensures
            r@ == (match self {
                TestError::TransactionFailed(m) => m@,
            }),
    {
        match self {
            TestError::TransactionFailed(m) => m,
        }
    }
}

} // verus!
