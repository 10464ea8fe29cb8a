use escrow::errors::ErrorCode;
use escrow::offer::{make_offer, refund_offer, take_offer, OfferBook};
use escrow::token::TokenAccount;

const TOKEN_A: u64 = 1_000_000_000;
const TOKEN_B: u64 = 1_000_000_000;

const ALICE: u64 = 1;
const BOB: u64 = 2;
const MINT_A: u64 = 101;
const MINT_B: u64 = 102;
const BUMP: u8 = 254;

// Alice holds 10 token A and no token B; Bob holds no token A and
// 5 token B.
fn alice_account_a() -> TokenAccount {
    TokenAccount { mint: MINT_A, amount: 10 * TOKEN_A }
}

fn alice_account_b() -> TokenAccount {
    TokenAccount { mint: MINT_B, amount: 0 }
}

fn bob_account_a() -> TokenAccount {
    TokenAccount { mint: MINT_A, amount: 0 }
}

fn bob_account_b() -> TokenAccount {
    TokenAccount { mint: MINT_B, amount: 5 * TOKEN_B }
}

#[test]
fn test_make_offer_succeeds() {
    let mut book = OfferBook::new();
    let mut alice_a = alice_account_a();
    let offer_id: u64 = 1;

    let result = make_offer(
        &mut book,
        &mut alice_a,
        offer_id,
        ALICE,
        MINT_A,
        MINT_B,
        1 * TOKEN_A,
        1 * TOKEN_B,
        BUMP,
    );

    assert!(result.is_ok(), "Valid offer should succeed");
}

#[test]
fn test_duplicate_offer_id_fails() {
    let mut book = OfferBook::new();
    let mut alice_a = alice_account_a();
    let offer_id: u64 = 1;

    let result = make_offer(
        &mut book,
        &mut alice_a,
        offer_id,
        ALICE,
        MINT_A,
        MINT_B,
        1 * TOKEN_A,
        1 * TOKEN_B,
        BUMP,
    );
    assert!(result.is_ok(), "First offer should succeed");

    let mut bob_a = bob_account_a();
    let result = make_offer(
        &mut book,
        &mut bob_a,
        offer_id,
        BOB,
        MINT_A,
        MINT_B,
        1 * TOKEN_A,
        1 * TOKEN_B,
        BUMP,
    );
    assert!(result.is_err(), "Second offer with same ID should fail");
}

#[test]
fn test_insufficient_funds_fails() {
    let mut book = OfferBook::new();
    let mut alice_a = alice_account_a();
    let offer_id: u64 = 1;

    // Try to offer 1000 tokens (Alice only has 10)
    let result = make_offer(
        &mut book,
        &mut alice_a,
        offer_id,
        ALICE,
        MINT_A,
        MINT_B,
        1000 * TOKEN_A,
        1 * TOKEN_B,
        BUMP,
    );
    assert!(result.is_err(), "Offer with insufficient funds should fail");
}

#[test]
fn test_same_token_mints_fails() {
    let mut book = OfferBook::new();
    let mut alice_a = alice_account_a();
    let offer_id: u64 = 1;

    // Same mint for both sides of the trade
    let result = make_offer(
        &mut book,
        &mut alice_a,
        offer_id,
        ALICE,
        MINT_A,
        MINT_A,
        1 * TOKEN_A,
        1 * TOKEN_B,
        BUMP,
    );
    assert!(result.is_err(), "Offer with same token mints should fail");
}

#[test]
fn test_zero_token_b_wanted_amount_fails() {
    let mut book = OfferBook::new();
    let mut alice_a = alice_account_a();
    let offer_id: u64 = 1;

    let result = make_offer(
        &mut book,
        &mut alice_a,
        offer_id,
        ALICE,
        MINT_A,
        MINT_B,
        1 * TOKEN_A,
        0,
        BUMP,
    );
    assert!(result.is_err(), "Offer with zero token_b_wanted_amount should fail");
}

#[test]
fn test_zero_token_a_offered_amount_fails() {
    let mut book = OfferBook::new();
    let mut alice_a = alice_account_a();
    let offer_id: u64 = 1;

    let result = make_offer(
        &mut book,
        &mut alice_a,
        offer_id,
        ALICE,
        MINT_A,
        MINT_B,
        0,
        1 * TOKEN_B,
        BUMP,
    );
    assert!(result.is_err(), "Offer with zero token_a_offered_amount should fail");
}

#[test]
fn test_take_offer_success() {
    let mut book = OfferBook::new();
    let mut alice_a = alice_account_a();
    let mut alice_b = alice_account_b();
    let mut bob_a = bob_account_a();
    let mut bob_b = bob_account_b();
    let offer_id: u64 = 1;

    // Alice creates an offer: 3 token A for 2 token B
    make_offer(
        &mut book,
        &mut alice_a,
        offer_id,
        ALICE,
        MINT_A,
        MINT_B,
        3 * TOKEN_A,
        2 * TOKEN_B,
        BUMP,
    )
    .unwrap();

    // Bob takes the offer
    take_offer(&mut book, &mut bob_a, &mut bob_b, &mut alice_b, offer_id).unwrap();

    assert_eq!(alice_a.amount, 7 * TOKEN_A, "Alice should have 7 token A left");
    assert_eq!(alice_b.amount, 2 * TOKEN_B, "Alice should have received 2 token B");
    assert_eq!(bob_a.amount, 3 * TOKEN_A, "Bob should have received 3 token A");
    assert_eq!(bob_b.amount, 3 * TOKEN_B, "Bob should have 3 token B left");

    assert!(
        !book.contains_offer(offer_id),
        "Offer account should be closed after being taken"
    );
}

#[test]
fn test_refund_offer_success() {
    let mut book = OfferBook::new();
    let mut alice_a = alice_account_a();
    let offer_id: u64 = 1;

    // Alice creates an offer: 3 token A for 2 token B
    make_offer(
        &mut book,
        &mut alice_a,
        offer_id,
        ALICE,
        MINT_A,
        MINT_B,
        3 * TOKEN_A,
        2 * TOKEN_B,
        BUMP,
    )
    .unwrap();

    assert_eq!(
        alice_a.amount,
        7 * TOKEN_A,
        "Alice should have 7 token A left after creating offer"
    );

    // Alice refunds the offer
    refund_offer(&mut book, &mut alice_a, offer_id, ALICE).unwrap();

    assert_eq!(
        alice_a.amount,
        10 * TOKEN_A,
        "Alice should have all 10 token A back after refunding"
    );

    assert!(
        !book.contains_offer(offer_id),
        "Offer account should be closed after refund"
    );
}

#[test]
fn test_non_maker_cannot_refund_offer() {
    let mut book = OfferBook::new();
    let mut alice_a = alice_account_a();
    let offer_id: u64 = 1;

    // Alice creates an offer: 3 token A for 2 token B
    let result = make_offer(
        &mut book,
        &mut alice_a,
        offer_id,
        ALICE,
        MINT_A,
        MINT_B,
        3 * TOKEN_A,
        2 * TOKEN_B,
        BUMP,
    );
    assert!(result.is_ok(), "Alice's offer should succeed");

    // Bob tries to refund Alice's offer (should fail)
    let result = refund_offer(&mut book, &mut alice_a, offer_id, BOB);
    assert!(result.is_err(), "Non-maker should not be able to refund an offer");

    assert_eq!(
        alice_a.amount,
        7 * TOKEN_A,
        "Alice's balance should remain unchanged after failed refund attempt"
    );

    assert!(
        book.contains_offer(offer_id),
        "Offer account should still exist after failed refund attempt"
    );
}

#[test]
fn test_take_offer_insufficient_funds_fails() {
    let mut book = OfferBook::new();
    let mut alice_a = alice_account_a();
    let mut alice_b = alice_account_b();
    let mut bob_a = bob_account_a();
    let mut bob_b = bob_account_b();
    let offer_id: u64 = 1;

    // Alice asks for far more token B than Bob's balance (he has 5)
    let large_token_b_amount = 1000 * TOKEN_B;
    let result = make_offer(
        &mut book,
        &mut alice_a,
        offer_id,
        ALICE,
        MINT_A,
        MINT_B,
        1 * TOKEN_A,
        large_token_b_amount,
        BUMP,
    );
    assert!(result.is_ok(), "Alice's offer should succeed");

    let result = take_offer(&mut book, &mut bob_a, &mut bob_b, &mut alice_b, offer_id);
    assert!(result.is_err(), "Take offer with insufficient funds should fail");
}

#[test]
fn test_make_offer_exact_error_codes() {
    let mut book = OfferBook::new();
    let mut alice_a = alice_account_a();

    let r = make_offer(&mut book, &mut alice_a, 1, ALICE, MINT_A, MINT_B, 0, 5, BUMP);
    assert_eq!(r, Err(ErrorCode::InvalidAmount));
    let r = make_offer(&mut book, &mut alice_a, 1, ALICE, MINT_A, MINT_B, 5, 0, BUMP);
    assert_eq!(r, Err(ErrorCode::InvalidAmount));
    let r = make_offer(&mut book, &mut alice_a, 1, ALICE, MINT_A, MINT_A, 5, 5, BUMP);
    assert_eq!(r, Err(ErrorCode::InvalidTokenMint));
    let r = make_offer(
        &mut book,
        &mut alice_a,
        1,
        ALICE,
        MINT_A,
        MINT_B,
        11 * TOKEN_A,
        5,
        BUMP,
    );
    assert_eq!(r, Err(ErrorCode::InsufficientMakerBalance));
    assert_eq!(alice_a.amount, 10 * TOKEN_A);

    make_offer(&mut book, &mut alice_a, 1, ALICE, MINT_A, MINT_B, 5, 5, BUMP).unwrap();
    let r = make_offer(&mut book, &mut alice_a, 1, ALICE, MINT_A, MINT_B, 5, 5, BUMP);
    assert_eq!(r, Err(ErrorCode::AccountAlreadyExists));
}

#[test]
fn test_take_offer_twice_fails_not_found() {
    let mut book = OfferBook::new();
    let mut alice_a = alice_account_a();
    let mut alice_b = alice_account_b();
    let mut bob_a = bob_account_a();
    let mut bob_b = bob_account_b();
    let offer_id: u64 = 7;

    make_offer(
        &mut book,
        &mut alice_a,
        offer_id,
        ALICE,
        MINT_A,
        MINT_B,
        1 * TOKEN_A,
        1 * TOKEN_B,
        BUMP,
    )
    .unwrap();
    take_offer(&mut book, &mut bob_a, &mut bob_b, &mut alice_b, offer_id).unwrap();

    // An immediately repeated take on the same offer id must fail: the
    // record is gone, so no double-spend is possible.
    let r = take_offer(&mut book, &mut bob_a, &mut bob_b, &mut alice_b, offer_id);
    assert_eq!(r, Err(ErrorCode::AccountNotFound));
    assert_eq!(bob_a.amount, 1 * TOKEN_A);
    assert_eq!(bob_b.amount, 4 * TOKEN_B);
    assert_eq!(alice_b.amount, 1 * TOKEN_B);
}

#[test]
fn test_duplicate_offer_leaves_first_takeable() {
    let mut book = OfferBook::new();
    let mut alice_a = alice_account_a();
    let mut alice_b = alice_account_b();
    let mut bob_a = bob_account_a();
    let mut bob_b = bob_account_b();
    let offer_id: u64 = 3;

    // Maker offers 1 unit of A for 1 unit of B.
    make_offer(&mut book, &mut alice_a, offer_id, ALICE, MINT_A, MINT_B, 1, 1, BUMP).unwrap();

    // A second maker attempts an offer with the same id before the first
    // is consumed: the second call fails and the first stays open.
    let mut second_maker_a = TokenAccount { mint: MINT_A, amount: 5 };
    let r = make_offer(
        &mut book,
        &mut second_maker_a,
        offer_id,
        BOB,
        MINT_A,
        MINT_B,
        1,
        1,
        BUMP,
    );
    assert_eq!(r, Err(ErrorCode::AccountAlreadyExists));
    assert_eq!(second_maker_a.amount, 5);
    assert_eq!(book.vault_amount(offer_id), Some(1));
    let offer = book.get_offer(offer_id).unwrap();
    assert_eq!(offer.maker, ALICE);

    // Taking the first offer still succeeds afterward.
    take_offer(&mut book, &mut bob_a, &mut bob_b, &mut alice_b, offer_id).unwrap();
    assert_eq!(bob_a.amount, 1);
    assert_eq!(alice_b.amount, 1);
    assert!(!book.contains_offer(offer_id));
}

#[test]
fn test_make_offer_funds_vault_exactly() {
    let mut book = OfferBook::new();
    let mut alice_a = alice_account_a();
    let offer_id: u64 = 9;

    make_offer(
        &mut book,
        &mut alice_a,
        offer_id,
        ALICE,
        MINT_A,
        MINT_B,
        4 * TOKEN_A,
        2 * TOKEN_B,
        BUMP,
    )
    .unwrap();

    // The vault holds exactly the offered amount and exactly one offer
    // record exists under the chosen identifier.
    assert_eq!(book.vault_amount(offer_id), Some(4 * TOKEN_A));
    assert_eq!(book.offer_count(), 1);
    assert_eq!(alice_a.amount, 6 * TOKEN_A);
    let offer = book.get_offer(offer_id).unwrap();
    assert_eq!(offer.id, offer_id);
    assert_eq!(offer.maker, ALICE);
    assert_eq!(offer.token_mint_a, MINT_A);
    assert_eq!(offer.token_mint_b, MINT_B);
    assert_eq!(offer.token_b_wanted_amount, 2 * TOKEN_B);
    assert_eq!(offer.bump, BUMP);
}

#[test]
fn test_take_offer_exact_error_codes() {
    let mut book = OfferBook::new();
    let mut alice_a = alice_account_a();
    let mut alice_b = alice_account_b();
    let mut bob_a = bob_account_a();
    let mut bob_b = bob_account_b();

    make_offer(
        &mut book,
        &mut alice_a,
        1,
        ALICE,
        MINT_A,
        MINT_B,
        1 * TOKEN_A,
        6 * TOKEN_B,
        BUMP,
    )
    .unwrap();

    // Bob holds 5 token B, one short of the 6 wanted.
    let r = take_offer(&mut book, &mut bob_a, &mut bob_b, &mut alice_b, 1);
    assert_eq!(r, Err(ErrorCode::InsufficientTakerBalance));
    assert_eq!(bob_b.amount, 5 * TOKEN_B);
    assert!(book.contains_offer(1), "a failed take leaves the offer open");

    // A receiving account of the wrong asset type fails the custodial leg.
    let mut wrong_mint_a = TokenAccount { mint: MINT_B, amount: 0 };
    let r = take_offer(&mut book, &mut wrong_mint_a, &mut bob_b, &mut alice_b, 1);
    assert_eq!(r, Err(ErrorCode::FailedVaultWithdrawal));

    let r = take_offer(&mut book, &mut bob_a, &mut bob_b, &mut alice_b, 2);
    assert_eq!(r, Err(ErrorCode::AccountNotFound));
}

#[test]
fn test_refund_to_wrong_mint_account_fails() {
    let mut book = OfferBook::new();
    let mut alice_a = alice_account_a();

    make_offer(&mut book, &mut alice_a, 1, ALICE, MINT_A, MINT_B, 5, 5, BUMP).unwrap();

    let mut alice_b = alice_account_b();
    let r = refund_offer(&mut book, &mut alice_b, 1, ALICE);
    assert_eq!(r, Err(ErrorCode::FailedRefundTransfer));
    assert!(book.contains_offer(1));
    assert_eq!(alice_b.amount, 0);
}

#[test]
fn test_refund_offer_exact_error_codes() {
    let mut book = OfferBook::new();
    let mut alice_a = alice_account_a();

    let r = refund_offer(&mut book, &mut alice_a, 42, ALICE);
    assert_eq!(r, Err(ErrorCode::AccountNotFound));

    make_offer(&mut book, &mut alice_a, 42, ALICE, MINT_A, MINT_B, 5, 5, BUMP).unwrap();
    let r = refund_offer(&mut book, &mut alice_a, 42, BOB);
    assert_eq!(r, Err(ErrorCode::Unauthorized));
}
