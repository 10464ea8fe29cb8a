use vstd::prelude::*;

use crate::errors::ErrorCode;
use crate::token::{
    close_token_account, spec_transfer_tokens, transfer_tokens, TokenAccount,
};

verus! {

/// One posted, unmatched intent to trade asset A for a stated amount of
/// asset B. Immutable once posted; destroyed when taken or refunded.
#[derive(Clone, Copy, Debug, PartialEq, Eq, Structural)]
pub struct Offer {
    /// Caller-chosen identifier; part of the record's derived address.
    pub id: u64,
    /// Identity of the party that posted the offer.
    pub maker: u64,
    /// Asset type being offered (held in the vault).
    pub token_mint_a: u64,
    /// Asset type wanted in exchange; must differ from `token_mint_a`.
    pub token_mint_b: u64,
    /// Amount of asset B the maker asks for; greater than zero.
    pub token_b_wanted_amount: u64,
    /// Canonical derivation nonce of the record's address.
    pub bump: u8,
}

/// An offer record together with its custodial vault. The two live and die
/// together: the vault is funded in the transaction that creates the offer
/// and closed in the transaction that destroys it.
#[derive(Clone, Copy, Debug, PartialEq, Eq, Structural)]
pub struct OfferEntry {
    pub offer: Offer,
    pub vault: TokenAccount,
}

/// The arena of open offer records. Record existence is explicit: an offer
/// is open exactly while its entry is present.
pub struct OfferBook {
    entries: Vec<OfferEntry>,
}

impl View for OfferBook {
    type V = Seq<OfferEntry>;

    closed spec fn view(&self) -> Seq<OfferEntry> {
        self.entries@
    }
}

/// Index of the first entry bearing `id`, if any.
pub open spec fn spec_find_offer(s: Seq<OfferEntry>, id: u64) -> Option<int>
    decreases s.len(),
{
    if s.len() == 0 {
        None
    } else if s[0].offer.id == id {
        Some(0int)
    } else {
        match spec_find_offer(s.drop_first(), id) {
            None => None,
            Some(i) => Some(i + 1),
        }
    }
}

/// What a successful or failed lookup says about the entries.
pub proof fn lemma_find_offer_properties(s: Seq<OfferEntry>, id: u64)
    ensures
        match spec_find_offer(s, id) {
            None => forall|i: int| 0 <= i < s.len() ==> (#[trigger] s[i]).offer.id != id,
            Some(i) => 0 <= i < s.len() && s[i].offer.id == id && forall|j: int|
                0 <= j < i ==> (#[trigger] s[j]).offer.id != id,
        },
    decreases s.len(),
{
    if s.len() > 0 && s[0].offer.id != id {
        let t = s.drop_first();
        lemma_find_offer_properties(t, id);
        match spec_find_offer(t, id) {
            None => {
                assert forall|i: int| 0 <= i < s.len() implies (#[trigger] s[i]).offer.id
                    != id by {
                    if i > 0 {
                        assert(s[i] == t[i - 1]);
                    }
                }
            },
            Some(k) => {
                assert(s[k + 1] == t[k]);
                assert forall|j: int| 0 <= j < k + 1 implies (#[trigger] s[j]).offer.id
                    != id by {
                    if j > 0 {
                        assert(s[j] == t[j - 1]);
                    }
                }
            },
        }
    }
}

/// A lookup finds the first match.
pub proof fn lemma_find_offer_first(s: Seq<OfferEntry>, id: u64, i: int)
    requires
        0 <= i < s.len(),
        s[i].offer.id == id,
        forall|j: int| 0 <= j < i ==> (#[trigger] s[j]).offer.id != id,
    ensures
        spec_find_offer(s, id) == Some(i),
    decreases s.len(),
{
    if i > 0 {
        lemma_find_offer_first(s.drop_first(), id, i - 1);
    }
}

/// Where no entry bears `id`, the lookup fails.
pub proof fn lemma_find_offer_none(s: Seq<OfferEntry>, id: u64)
    requires
        forall|i: int| 0 <= i < s.len() ==> (#[trigger] s[i]).offer.id != id,
    ensures
        spec_find_offer(s, id) is None,
    decreases s.len(),
{
    if s.len() > 0 {
        lemma_find_offer_none(s.drop_first(), id);
    }
}

/// Appending an entry bearing a hitherto absent `id` makes the lookup find
/// it at the end.
pub proof fn lemma_find_offer_push(s: Seq<OfferEntry>, e: OfferEntry, id: u64)
    requires
        spec_find_offer(s, id) is None,
        e.offer.id == id,
    ensures
        spec_find_offer(s.push(e), id) == Some(s.len() as int),
    decreases s.len(),
{
    if s.len() == 0 {
        assert(s.push(e)[0] == e);
    } else {
        assert(s.push(e).drop_first() =~= s.drop_first().push(e));
        lemma_find_offer_push(s.drop_first(), e, id);
    }
}

/// Well-formedness of one entry: the invariants an open offer keeps.
pub open spec fn offer_entry_wf(e: OfferEntry) -> bool {
    &&& e.offer.token_b_wanted_amount > 0
    &&& e.offer.token_mint_a != e.offer.token_mint_b
    &&& e.vault.mint == e.offer.token_mint_a
    &&& e.vault.amount > 0
}

/// Well-formedness of the arena: every entry keeps its invariants and no
/// identifier occurs twice.
pub open spec fn offers_wf(s: Seq<OfferEntry>) -> bool {
    &&& (forall|i: int| 0 <= i < s.len() ==> offer_entry_wf(#[trigger] s[i]))
    &&& (forall|i: int, j: int|
        0 <= i < j < s.len() ==> (#[trigger] s[i]).offer.id != (#[trigger] s[j]).offer.id)
}

impl OfferBook {
    /// An arena with no open offers.
    pub fn new() -> (r: OfferBook)
        ensures
            r@.len() == 0,
            offers_wf(r@),
    {
        OfferBook { entries: Vec::new() }
    }

    /// Index of the first entry bearing `id`, if any.
    fn find(&self, id: u64) -> (r: Option<usize>)
        ensures
            match r {
                Some(i) => spec_find_offer(self@, id) == Some(i as int),
                None => spec_find_offer(self@, id) is None,
            },
    {
        let mut i: usize = 0;
        while i < self.entries.len()
            invariant
                i <= self.entries.len(),
                forall|j: int| 0 <= j < i ==> (#[trigger] self.entries@[j]).offer.id != id,
            decreases self.entries.len() - i,
        {
            if self.entries[i].offer.id == id {
                proof {
                    lemma_find_offer_first(self@, id, i as int);
                }
                return Some(i);
            }
            i = i + 1;
        }
        proof {
            lemma_find_offer_none(self@, id);
        }
        None
    }

    /// Whether an offer record bearing `id` is open.
    pub fn contains_offer(&self, id: u64) -> (r: bool)
        ensures
            r == (spec_find_offer(self@, id) is Some),
    {
        self.find(id).is_some()
    }

    /// The open offer record bearing `id`, if any.
    pub fn get_offer(&self, id: u64) -> (r: Option<Offer>)
        ensures
            match spec_find_offer(self@, id) {
                Some(i) => r == Some(self@[i].offer),
                None => r is None,
            },
    {
        proof {
            lemma_find_offer_properties(self@, id);
        }
        match self.find(id) {
            Some(i) => Some(self.entries[i].offer),
            None => None,
        }
    }

    /// Balance custodied in the vault of the offer bearing `id`, if open.
    pub fn vault_amount(&self, id: u64) -> (r: Option<u64>)
        ensures
            match spec_find_offer(self@, id) {
                Some(i) => r == Some(self@[i].vault.amount),
                None => r is None,
            },
    {
        proof {
            lemma_find_offer_properties(self@, id);
        }
        match self.find(id) {
            Some(i) => Some(self.entries[i].vault.amount),
            None => None,
        }
    }

    /// Number of open offers.
    pub fn offer_count(&self) -> (r: usize)
        ensures
            r == self@.len(),
    {
        self.entries.len()
    }
}

/// Outcome of make_offer: the arena and the maker's asset-A account after
/// the attempt, and the result. Creation fails on an identifier collision,
/// a zero amount, equal asset types, or a failed funding transfer; a failed
/// attempt changes nothing.
pub open spec fn spec_make_offer(
    s: Seq<OfferEntry>,
    maker_account_a: TokenAccount,
    id: u64,
    maker: u64,
    token_mint_a: u64,
    token_mint_b: u64,
    token_a_offered_amount: u64,
    token_b_wanted_amount: u64,
    bump: u8,
) -> (Seq<OfferEntry>, TokenAccount, Result<(), ErrorCode>) {
    if spec_find_offer(s, id) is Some {
        (s, maker_account_a, Err(ErrorCode::AccountAlreadyExists))
    } else if token_a_offered_amount == 0 || token_b_wanted_amount == 0 {
        (s, maker_account_a, Err(ErrorCode::InvalidAmount))
    } else if token_mint_a == token_mint_b {
        (s, maker_account_a, Err(ErrorCode::InvalidTokenMint))
    } else {
        let fresh_vault = TokenAccount { mint: token_mint_a, amount: 0 };
        let funded = spec_transfer_tokens(
            maker_account_a,
            fresh_vault,
            token_a_offered_amount,
            token_mint_a,
        );
        if funded.2 is Err {
            (s, maker_account_a, Err(ErrorCode::InsufficientMakerBalance))
        } else {
            let offer = Offer {
                id,
                maker,
                token_mint_a,
                token_mint_b,
                token_b_wanted_amount,
                bump,
            };
            (s.push(OfferEntry { offer, vault: funded.1 }), funded.0, Ok(()))
        }
    }
}

/// Post an offer of `token_a_offered_amount` units of asset A in exchange
/// for `token_b_wanted_amount` units of asset B: create the offer record
/// and its vault, and move the offered amount from the maker's account
/// into the vault. A failed attempt changes nothing.
pub fn make_offer(
    book: &mut OfferBook,
    maker_token_account_a: &mut TokenAccount,
    id: u64,
    maker: u64,
    token_mint_a: u64,
    token_mint_b: u64,
    token_a_offered_amount: u64,
    token_b_wanted_amount: u64,
    bump: u8,
) -> (r: Result<(), ErrorCode>)
    ensures
        (final(book)@, *final(maker_token_account_a), r) == spec_make_offer(
            old(book)@,
            *old(maker_token_account_a),
            id,
            maker,
            token_mint_a,
            token_mint_b,
            token_a_offered_amount,
            token_b_wanted_amount,
            bump,
        ),
        offers_wf(old(book)@) ==> offers_wf(final(book)@),
{
    if book.find(id).is_some() {
        return Err(ErrorCode::AccountAlreadyExists);
    }
    if token_a_offered_amount == 0 || token_b_wanted_amount == 0 {
        return Err(ErrorCode::InvalidAmount);
    }
    if token_mint_a == token_mint_b {
        return Err(ErrorCode::InvalidTokenMint);
    }
    let mut vault = TokenAccount { mint: token_mint_a, amount: 0 };
    match transfer_tokens(maker_token_account_a, &mut vault, token_a_offered_amount, token_mint_a) {
        Err(_) => Err(ErrorCode::InsufficientMakerBalance),
        Ok(()) => {
            let offer = Offer {
                id,
                maker,
                token_mint_a,
                token_mint_b,
                token_b_wanted_amount,
                bump,
            };
            proof {
                lemma_find_offer_properties(old(book)@, id);
            }
            book.entries.push(OfferEntry { offer, vault });
            Ok(())
        },
    }
}

/// Outcome of take_offer: the arena, the taker's two accounts and the
/// maker's asset-B account after the attempt, and the result. The custodial
/// leg settles first (vault to taker, then vault closure), then the taker
/// pays the maker; any failure rolls the whole instruction back.
pub open spec fn spec_take_offer(
    s: Seq<OfferEntry>,
    taker_token_account_a: TokenAccount,
    taker_token_account_b: TokenAccount,
    maker_token_account_b: TokenAccount,
    id: u64,
) -> (Seq<OfferEntry>, TokenAccount, TokenAccount, TokenAccount, Result<(), ErrorCode>) {
    let unchanged = (
        s,
        taker_token_account_a,
        taker_token_account_b,
        maker_token_account_b,
    );
    match spec_find_offer(s, id) {
        None => (
            unchanged.0,
            unchanged.1,
            unchanged.2,
            unchanged.3,
            Err(ErrorCode::AccountNotFound),
        ),
        Some(i) => {
            let e = s[i];
            let withdrawn = spec_transfer_tokens(
                e.vault,
                taker_token_account_a,
                e.vault.amount,
                e.offer.token_mint_a,
            );
            if withdrawn.2 is Err {
                (
                    unchanged.0,
                    unchanged.1,
                    unchanged.2,
                    unchanged.3,
                    Err(ErrorCode::FailedVaultWithdrawal),
                )
            } else if withdrawn.0.amount != 0 {
                (
                    unchanged.0,
                    unchanged.1,
                    unchanged.2,
                    unchanged.3,
                    Err(ErrorCode::FailedVaultClosure),
                )
            } else {
                let paid = spec_transfer_tokens(
                    taker_token_account_b,
                    maker_token_account_b,
                    e.offer.token_b_wanted_amount,
                    e.offer.token_mint_b,
                );
                if paid.2 is Err {
                    (
                        unchanged.0,
                        unchanged.1,
                        unchanged.2,
                        unchanged.3,
                        Err(ErrorCode::InsufficientTakerBalance),
                    )
                } else {
                    (s.remove(i), withdrawn.1, paid.0, paid.1, Ok(()))
                }
            }
        },
    }
}

/// Accept the offer bearing `id`: the vault's full asset-A balance goes to
/// the taker, the vault and the offer record are closed, and the wanted
/// asset-B amount moves from the taker to the maker. A failed attempt
/// changes nothing, leaving the offer open for a future taker.
pub fn take_offer(
    book: &mut OfferBook,
    taker_token_account_a: &mut TokenAccount,
    taker_token_account_b: &mut TokenAccount,
    maker_token_account_b: &mut TokenAccount,
    id: u64,
) -> (r: Result<(), ErrorCode>)
    ensures
        (
            final(book)@,
            *final(taker_token_account_a),
            *final(taker_token_account_b),
            *final(maker_token_account_b),
            r,
        ) == spec_take_offer(
            old(book)@,
            *old(taker_token_account_a),
            *old(taker_token_account_b),
            *old(maker_token_account_b),
            id,
        ),
        offers_wf(old(book)@) ==> offers_wf(final(book)@),
{
    let idx = match book.find(id) {
        None => {
            return Err(ErrorCode::AccountNotFound);
        },
        Some(i) => i,
    };
    proof {
        lemma_find_offer_properties(old(book)@, id);
    }
    let entry = book.entries[idx];
    let mut vault = entry.vault;
    let mut paid_a = *taker_token_account_a;
    match transfer_tokens(&mut vault, &mut paid_a, entry.vault.amount, entry.offer.token_mint_a) {
        Err(_) => {
            return Err(ErrorCode::FailedVaultWithdrawal);
        },
        Ok(()) => {},
    }
    match close_token_account(&vault) {
        Err(_) => {
            return Err(ErrorCode::FailedVaultClosure);
        },
        Ok(()) => {},
    }
    let mut paid_b = *taker_token_account_b;
    let mut received_b = *maker_token_account_b;
    match transfer_tokens(
        &mut paid_b,
        &mut received_b,
        entry.offer.token_b_wanted_amount,
        entry.offer.token_mint_b,
    ) {
        Err(_) => {
            return Err(ErrorCode::InsufficientTakerBalance);
        },
        Ok(()) => {},
    }
    *taker_token_account_a = paid_a;
    *taker_token_account_b = paid_b;
    *maker_token_account_b = received_b;
    book.entries.remove(idx);
    proof {
        if offers_wf(old(book)@) {
            lemma_offers_wf_remove(old(book)@, idx as int);
        }
    }
    Ok(())
}

/// Removing one entry keeps a well-formed arena well-formed.
pub proof fn lemma_offers_wf_remove(s: Seq<OfferEntry>, i: int)
    requires
        offers_wf(s),
        0 <= i < s.len(),
    ensures
        offers_wf(s.remove(i)),
{
    let t = s.remove(i);
    assert forall|j: int| 0 <= j < t.len() implies offer_entry_wf(#[trigger] t[j]) by {
        if j < i {
            assert(t[j] == s[j]);
        } else {
            assert(t[j] == s[j + 1]);
        }
    }
    assert forall|j: int, k: int| 0 <= j < k < t.len() implies (#[trigger] t[j]).offer.id != (
    #[trigger] t[k]).offer.id by {
        let j0 = if j < i {
            j
        } else {
            j + 1
        };
        let k0 = if k < i {
            k
        } else {
            k + 1
        };
        assert(t[j] == s[j0]);
        assert(t[k] == s[k0]);
    }
}

/// Return the vault's full balance to the maker's asset-A account; the
/// first leg of a refund. A failure reports FailedRefundTransfer.
pub fn return_tokens_to_maker(
    vault: &mut TokenAccount,
    maker_token_account_a: &mut TokenAccount,
    token_mint_a: u64,
) -> (r: Result<(), ErrorCode>)
    ensures
        ({
            let moved = spec_transfer_tokens(
                *old(vault),
                *old(maker_token_account_a),
                old(vault).amount,
                token_mint_a,
            );
            if moved.2 is Err {
                (*final(vault), *final(maker_token_account_a), r) == (
                    *old(vault),
                    *old(maker_token_account_a),
                    Err::<(), ErrorCode>(ErrorCode::FailedRefundTransfer),
                )
            } else {
                (*final(vault), *final(maker_token_account_a), r) == (
                    moved.0,
                    moved.1,
                    Ok::<(), ErrorCode>(()),
                )
            }
        }),
{
    let amount = vault.amount;
    match transfer_tokens(vault, maker_token_account_a, amount, token_mint_a) {
        Err(_) => Err(ErrorCode::FailedRefundTransfer),
        Ok(()) => Ok(()),
    }
}

/// Check that an emptied vault may be closed; the second leg of a refund.
/// A failure reports FailedRefundClosure.
pub fn close_vault(vault: &TokenAccount) -> (r: Result<(), ErrorCode>)
    ensures
        r is Ok <==> vault.amount == 0,
        r is Err ==> r == Err::<(), ErrorCode>(ErrorCode::FailedRefundClosure),
{
    match close_token_account(vault) {
        Err(_) => Err(ErrorCode::FailedRefundClosure),
        Ok(()) => Ok(()),
    }
}

/// Outcome of refund_offer: the arena and the maker's asset-A account after
/// the attempt, and the result. Only the recorded maker may withdraw an
/// offer; the vault's full balance returns to the maker and both records
/// are closed. A failed attempt changes nothing.
pub open spec fn spec_refund_offer(
    s: Seq<OfferEntry>,
    maker_token_account_a: TokenAccount,
    id: u64,
    caller: u64,
) -> (Seq<OfferEntry>, TokenAccount, Result<(), ErrorCode>) {
    match spec_find_offer(s, id) {
        None => (s, maker_token_account_a, Err(ErrorCode::AccountNotFound)),
        Some(i) => {
            let e = s[i];
            if caller != e.offer.maker {
                (s, maker_token_account_a, Err(ErrorCode::Unauthorized))
            } else {
                let moved = spec_transfer_tokens(
                    e.vault,
                    maker_token_account_a,
                    e.vault.amount,
                    e.offer.token_mint_a,
                );
                if moved.2 is Err {
                    (s, maker_token_account_a, Err(ErrorCode::FailedRefundTransfer))
                } else if moved.0.amount != 0 {
                    (s, maker_token_account_a, Err(ErrorCode::FailedRefundClosure))
                } else {
                    (s.remove(i), moved.1, Ok(()))
                }
            }
        },
    }
}

/// Withdraw the offer bearing `id`: the vault's full asset-A balance
/// returns to the maker, and the vault and the offer record are closed.
/// Only the recorded maker may do this; a failed attempt changes nothing.
pub fn refund_offer(
    book: &mut OfferBook,
    maker_token_account_a: &mut TokenAccount,
    id: u64,
    caller: u64,
) -> (r: Result<(), ErrorCode>)
    ensures
        (final(book)@, *final(maker_token_account_a), r) == spec_refund_offer(
            old(book)@,
            *old(maker_token_account_a),
            id,
            caller,
        ),
        offers_wf(old(book)@) ==> offers_wf(final(book)@),
{
    let idx = match book.find(id) {
        None => {
            return Err(ErrorCode::AccountNotFound);
        },
        Some(i) => i,
    };
    proof {
        lemma_find_offer_properties(old(book)@, id);
    }
    let entry = book.entries[idx];
    if caller != entry.offer.maker {
        return Err(ErrorCode::Unauthorized);
    }
    let mut vault = entry.vault;
    let mut refunded = *maker_token_account_a;
    match return_tokens_to_maker(&mut vault, &mut refunded, entry.offer.token_mint_a) {
        Err(e) => {
            return Err(e);
        },
        Ok(()) => {},
    }
    match close_vault(&vault) {
        Err(e) => {
            return Err(e);
        },
        Ok(()) => {},
    }
    *maker_token_account_a = refunded;
    book.entries.remove(idx);
    proof {
        if offers_wf(old(book)@) {
            lemma_offers_wf_remove(old(book)@, idx as int);
        }
    }
    Ok(())
}

/// For every accepted make_offer, the vault holds exactly the offered
/// amount, exactly one offer record exists under the chosen identifier,
/// and the maker's account decreased by exactly that amount.
pub proof fn lemma_make_offer_vault_funded(
    s: Seq<OfferEntry>,
    maker_account_a: TokenAccount,
    id: u64,
    maker: u64,
    token_mint_a: u64,
    token_mint_b: u64,
    token_a_offered_amount: u64,
    token_b_wanted_amount: u64,
    bump: u8,
)
    ensures
        ({
            let (s2, m2, r) = spec_make_offer(
                s,
                maker_account_a,
                id,
                maker,
                token_mint_a,
                token_mint_b,
                token_a_offered_amount,
                token_b_wanted_amount,
                bump,
            );
            r is Ok ==> {
                &&& spec_find_offer(s2, id) == Some(s.len() as int)
                &&& s2[s.len() as int].vault.amount == token_a_offered_amount
                &&& s2[s.len() as int].offer.id == id
                &&& (forall|j: int|
                    0 <= j < s2.len() && (#[trigger] s2[j]).offer.id == id ==> j == s.len())
                &&& m2.amount + token_a_offered_amount == maker_account_a.amount
            }
        }),
{
    let (s2, m2, r) = spec_make_offer(
        s,
        maker_account_a,
        id,
        maker,
        token_mint_a,
        token_mint_b,
        token_a_offered_amount,
        token_b_wanted_amount,
        bump,
    );
    if r is Ok {
        lemma_find_offer_properties(s, id);
        lemma_find_offer_push(s, s2[s.len() as int], id);
    }
}

/// An offer, once taken, is gone: an immediately repeated take on the same
/// identifier, with any accounts, fails with a not-found condition and
/// changes nothing. No offer can be consumed twice.
pub proof fn lemma_take_offer_no_double_spend(
    s: Seq<OfferEntry>,
    taker_token_account_a: TokenAccount,
    taker_token_account_b: TokenAccount,
    maker_token_account_b: TokenAccount,
    id: u64,
    again_account_a: TokenAccount,
    again_account_b: TokenAccount,
    again_maker_b: TokenAccount,
)
    requires
        offers_wf(s),
    ensures
        ({
            let (s1, ta1, tb1, mb1, r1) = spec_take_offer(
                s,
                taker_token_account_a,
                taker_token_account_b,
                maker_token_account_b,
                id,
            );
            r1 is Ok ==> spec_take_offer(s1, again_account_a, again_account_b, again_maker_b, id)
                == (
                s1,
                again_account_a,
                again_account_b,
                again_maker_b,
                Err::<(), ErrorCode>(ErrorCode::AccountNotFound),
            )
        }),
{
    let (s1, ta1, tb1, mb1, r1) = spec_take_offer(
        s,
        taker_token_account_a,
        taker_token_account_b,
        maker_token_account_b,
        id,
    );
    if r1 is Ok {
        lemma_find_offer_properties(s, id);
        let i = spec_find_offer(s, id)->Some_0;
        assert forall|j: int| 0 <= j < s1.len() implies (#[trigger] s1[j]).offer.id != id by {
            if j < i {
                assert(s1[j] == s[j]);
            } else {
                assert(s1[j] == s[j + 1]);
            }
        }
        lemma_find_offer_none(s1, id);
    }
}

/// Refunding immediately after making restores the maker's asset-A account
/// exactly and leaves neither the offer record nor its vault behind.
pub proof fn lemma_make_then_refund_restores(
    s: Seq<OfferEntry>,
    maker_account_a: TokenAccount,
    id: u64,
    maker: u64,
    token_mint_a: u64,
    token_mint_b: u64,
    token_a_offered_amount: u64,
    token_b_wanted_amount: u64,
    bump: u8,
)
    ensures
        ({
            let (s1, m1, r1) = spec_make_offer(
                s,
                maker_account_a,
                id,
                maker,
                token_mint_a,
                token_mint_b,
                token_a_offered_amount,
                token_b_wanted_amount,
                bump,
            );
            let (s2, m2, r2) = spec_refund_offer(s1, m1, id, maker);
            r1 is Ok ==> {
                &&& r2 is Ok
                &&& m2 == maker_account_a
                &&& s2 == s
                &&& spec_find_offer(s2, id) == spec_find_offer(s, id)
            }
        }),
{
    let (s1, m1, r1) = spec_make_offer(
        s,
        maker_account_a,
        id,
        maker,
        token_mint_a,
        token_mint_b,
        token_a_offered_amount,
        token_b_wanted_amount,
        bump,
    );
    if r1 is Ok {
        let e = s1[s.len() as int];
        lemma_find_offer_push(s, e, id);
        assert(s1.remove(s.len() as int) =~= s);
    }
}

} // verus!
