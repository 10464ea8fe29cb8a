use vstd::prelude::*;

use crate::errors::TransferError;

verus! {

/// One typed-token holding record: the asset type it carries and its balance.
#[derive(Clone, Copy, Debug, PartialEq, Eq, Structural)]
pub struct TokenAccount {
    /// Identifier of the asset type (mint) this account holds.
    pub mint: u64,
    /// Current balance, in base units of the asset.
    pub amount: u64,
}

/// Outcome of moving `amount` units of asset `mint` from `from` to `to`:
/// the two accounts after the attempt and the result. A failed transfer
/// changes neither account.
pub open spec fn spec_transfer_tokens(
    from: TokenAccount,
    to: TokenAccount,
    amount: u64,
    mint: u64,
) -> (TokenAccount, TokenAccount, Result<(), TransferError>) {
    if from.mint != mint || to.mint != mint {
        (from, to, Err(TransferError::MintMismatch))
    } else if from.amount < amount {
        (from, to, Err(TransferError::InsufficientBalance))
    } else if to.amount + amount > u64::MAX {
        (from, to, Err(TransferError::Overflow))
    } else {
        (
            TokenAccount { mint: from.mint, amount: (from.amount - amount) as u64 },
            TokenAccount { mint: to.mint, amount: (to.amount + amount) as u64 },
            Ok(()),
        )
    }
}

/// Move exactly `amount` units of asset `mint` from `from` to `to`.
/// Fails, changing nothing, if either account carries a different asset,
/// the source balance is short, or the destination balance would overflow.
pub fn transfer_tokens(
    from: &mut TokenAccount,
    to: &mut TokenAccount,
    amount: u64,
    mint: u64,
) -> (r: Result<(), TransferError>)
    ensures
        (*final(from), *final(to), r) == spec_transfer_tokens(*old(from), *old(to), amount, mint),
{
    if from.mint != mint || to.mint != mint {
        Err(TransferError::MintMismatch)
    } else if from.amount < amount {
        Err(TransferError::InsufficientBalance)
    } else if amount > u64::MAX - to.amount {
        Err(TransferError::Overflow)
    } else {
        from.amount = from.amount - amount;
        to.amount = to.amount + amount;
        Ok(())
    }
}

/// Whatever the outcome, a transfer conserves the summed balance of the
/// two accounts.
pub proof fn lemma_transfer_tokens_conserves(
    from: TokenAccount,
    to: TokenAccount,
    amount: u64,
    mint: u64,
)
    ensures
        ({
            let (from2, to2, r) = spec_transfer_tokens(from, to, amount, mint);
            from2.amount + to2.amount == from.amount + to.amount
        }),
{
}

/// Outcome of moving `amount` native units from a balance of `from` to a
/// balance of `to`: the two balances after the attempt and the result.
pub open spec fn spec_transfer_lamports(from: u64, to: u64, amount: u64) -> (
    u64,
    u64,
    Result<(), TransferError>,
) {
    if from < amount {
        (from, to, Err(TransferError::InsufficientBalance))
    } else if to + amount > u64::MAX {
        (from, to, Err(TransferError::Overflow))
    } else {
        ((from - amount) as u64, (to + amount) as u64, Ok(()))
    }
}

/// Move exactly `amount` native units from `from` to `to`. Fails, changing
/// nothing, if the source balance is short or the destination would overflow.
pub fn transfer_lamports(from: &mut u64, to: &mut u64, amount: u64) -> (r: Result<
    (),
    TransferError,
>)
    ensures
        (*final(from), *final(to), r) == spec_transfer_lamports(*old(from), *old(to), amount),
{
    if *from < amount {
        Err(TransferError::InsufficientBalance)
    } else if amount > u64::MAX - *to {
        Err(TransferError::Overflow)
    } else {
        *from = *from - amount;
        *to = *to + amount;
        Ok(())
    }
}

/// Whatever the outcome, a native transfer conserves the summed balance.
pub proof fn lemma_transfer_lamports_conserves(from: u64, to: u64, amount: u64)
    ensures
        ({
            let (from2, to2, r) = spec_transfer_lamports(from, to, amount);
            from2 + to2 == from + to
        }),
{
}

/// A custodial record may be removed only once it is empty of value;
/// `Ok` says the closure may proceed.
pub fn close_token_account(account: &TokenAccount) -> (r: Result<(), TransferError>)
    ensures
        r is Ok <==> account.amount == 0,
        r is Err ==> r == Err::<(), TransferError>(TransferError::AccountNotEmpty),
{
    if account.amount == 0 {
        Ok(())
    } else {
        Err(TransferError::AccountNotEmpty)
    }
}

} // verus!
