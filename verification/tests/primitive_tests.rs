use escrow::errors::{TestError, TransferError};
use escrow::token::{close_token_account, transfer_lamports, transfer_tokens, TokenAccount};

#[test]
fn test_transfer_tokens_moves_exact_amount() {
    let mut from = TokenAccount { mint: 7, amount: 100 };
    let mut to = TokenAccount { mint: 7, amount: 5 };
    transfer_tokens(&mut from, &mut to, 40, 7).unwrap();
    assert_eq!(from.amount, 60);
    assert_eq!(to.amount, 45);
    assert_eq!(from.mint, 7);
    assert_eq!(to.mint, 7);
}

#[test]
fn test_transfer_tokens_mint_mismatch() {
    let mut from = TokenAccount { mint: 7, amount: 100 };
    let mut to = TokenAccount { mint: 8, amount: 5 };
    let r = transfer_tokens(&mut from, &mut to, 40, 7);
    assert_eq!(r, Err(TransferError::MintMismatch));
    assert_eq!(from.amount, 100);
    assert_eq!(to.amount, 5);

    let mut to = TokenAccount { mint: 7, amount: 5 };
    let r = transfer_tokens(&mut from, &mut to, 40, 8);
    assert_eq!(r, Err(TransferError::MintMismatch));
}

#[test]
fn test_transfer_tokens_insufficient_balance() {
    let mut from = TokenAccount { mint: 7, amount: 39 };
    let mut to = TokenAccount { mint: 7, amount: 5 };
    let r = transfer_tokens(&mut from, &mut to, 40, 7);
    assert_eq!(r, Err(TransferError::InsufficientBalance));
    assert_eq!(from.amount, 39);
    assert_eq!(to.amount, 5);
}

#[test]
fn test_transfer_tokens_overflow() {
    let mut from = TokenAccount { mint: 7, amount: 100 };
    let mut to = TokenAccount { mint: 7, amount: u64::MAX - 10 };
    let r = transfer_tokens(&mut from, &mut to, 11, 7);
    assert_eq!(r, Err(TransferError::Overflow));
    assert_eq!(from.amount, 100);
    assert_eq!(to.amount, u64::MAX - 10);

    transfer_tokens(&mut from, &mut to, 10, 7).unwrap();
    assert_eq!(to.amount, u64::MAX);
}

#[test]
fn test_transfer_lamports_exact_and_errors() {
    let mut from: u64 = 50;
    let mut to: u64 = 3;
    transfer_lamports(&mut from, &mut to, 20).unwrap();
    assert_eq!(from, 30);
    assert_eq!(to, 23);

    let r = transfer_lamports(&mut from, &mut to, 31);
    assert_eq!(r, Err(TransferError::InsufficientBalance));
    assert_eq!(from, 30);
    assert_eq!(to, 23);

    let mut rich: u64 = u64::MAX;
    let r = transfer_lamports(&mut from, &mut rich, 1);
    assert_eq!(r, Err(TransferError::Overflow));
    assert_eq!(from, 30);
    assert_eq!(rich, u64::MAX);
}

#[test]
fn test_close_token_account_requires_empty() {
    let empty = TokenAccount { mint: 7, amount: 0 };
    assert!(close_token_account(&empty).is_ok());

    let funded = TokenAccount { mint: 7, amount: 1 };
    let r = close_token_account(&funded);
    assert_eq!(r, Err(TransferError::AccountNotEmpty));
}

#[test]
fn test_test_error_message() {
    let e = TestError::TransactionFailed(String::from("blockhash expired"));
    assert_eq!(e.message().as_str(), "blockhash expired");
}
