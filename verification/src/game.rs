use vstd::prelude::*;

use crate::errors::ErrorCode;
use crate::token::{spec_transfer_lamports, transfer_lamports};

verus! {

/// One pending or active duel. Created empty, funded by the two players'
/// deposits, destroyed when finalized or cancelled.
#[derive(Clone, Copy, Debug, PartialEq, Eq, Structural)]
pub struct Game {
    /// Caller-chosen identifier; part of the record's derived address.
    pub id: u64,
    /// First player's identity.
    pub player_a: u64,
    /// Second player's identity; distinct from `player_a`.
    pub player_b: u64,
    /// Identity permitted to finalize or cancel: the creator.
    pub authority: u64,
    /// Required contribution per player, in native units; greater than zero.
    pub stake_lamports: u64,
    /// True once `player_a` has deposited.
    pub a_deposited: bool,
    /// True once `player_b` has deposited.
    pub b_deposited: bool,
    /// 0 while undecided; set only in the instruction that closes the record.
    pub winner: u8,
    /// Timestamp after which a timeout cancel may run.
    pub expiry_ts: i64,
    /// Canonical derivation nonce of the record's address.
    pub bump: u8,
}

/// A game record together with the native value it custodies. The record is
/// its own vault: deposits accumulate directly in `pot_lamports`.
#[derive(Clone, Copy, Debug, PartialEq, Eq, Structural)]
pub struct GameSlot {
    pub game: Game,
    pub pot_lamports: u64,
}

/// The arena of open game records. Record existence is explicit: a duel is
/// live exactly while its slot is present.
pub struct GameBook {
    slots: Vec<GameSlot>,
}

impl View for GameBook {
    type V = Seq<GameSlot>;

    closed spec fn view(&self) -> Seq<GameSlot> {
        self.slots@
    }
}

/// Index of the first slot bearing `id`, if any.
pub open spec fn spec_find_game(s: Seq<GameSlot>, id: u64) -> Option<int>
    decreases s.len(),
{
    if s.len() == 0 {
        None
    } else if s[0].game.id == id {
        Some(0int)
    } else {
        match spec_find_game(s.drop_first(), id) {
            None => None,
            Some(i) => Some(i + 1),
        }
    }
}

/// What a successful or failed lookup says about the slots.
pub proof fn lemma_find_game_properties(s: Seq<GameSlot>, id: u64)
    ensures
        match spec_find_game(s, id) {
            None => forall|i: int| 0 <= i < s.len() ==> (#[trigger] s[i]).game.id != id,
            Some(i) => 0 <= i < s.len() && s[i].game.id == id && forall|j: int|
                0 <= j < i ==> (#[trigger] s[j]).game.id != id,
        },
    decreases s.len(),
{
    if s.len() > 0 && s[0].game.id != id {
        let t = s.drop_first();
        lemma_find_game_properties(t, id);
        match spec_find_game(t, id) {
            None => {
                assert forall|i: int| 0 <= i < s.len() implies (#[trigger] s[i]).game.id != id by {
                    if i > 0 {
                        assert(s[i] == t[i - 1]);
                    }
                }
            },
            Some(k) => {
                assert(s[k + 1] == t[k]);
                assert forall|j: int| 0 <= j < k + 1 implies (#[trigger] s[j]).game.id != id by {
                    if j > 0 {
                        assert(s[j] == t[j - 1]);
                    }
                }
            },
        }
    }
}

/// A lookup finds the first match.
pub proof fn lemma_find_game_first(s: Seq<GameSlot>, id: u64, i: int)
    requires
        0 <= i < s.len(),
        s[i].game.id == id,
        forall|j: int| 0 <= j < i ==> (#[trigger] s[j]).game.id != id,
    ensures
        spec_find_game(s, id) == Some(i),
    decreases s.len(),
{
    if i > 0 {
        lemma_find_game_first(s.drop_first(), id, i - 1);
    }
}

/// Where no slot bears `id`, the lookup fails.
pub proof fn lemma_find_game_none(s: Seq<GameSlot>, id: u64)
    requires
        forall|i: int| 0 <= i < s.len() ==> (#[trigger] s[i]).game.id != id,
    ensures
        spec_find_game(s, id) is None,
    decreases s.len(),
{
    if s.len() > 0 {
        lemma_find_game_none(s.drop_first(), id);
    }
}

/// Appending a slot bearing a hitherto absent `id` makes the lookup find it
/// at the end.
pub proof fn lemma_find_game_push(s: Seq<GameSlot>, sl: GameSlot, id: u64)
    requires
        spec_find_game(s, id) is None,
        sl.game.id == id,
    ensures
        spec_find_game(s.push(sl), id) == Some(s.len() as int),
    decreases s.len(),
{
    if s.len() == 0 {
        assert(s.push(sl)[0] == sl);
    } else {
        assert(s.push(sl).drop_first() =~= s.drop_first().push(sl));
        lemma_find_game_push(s.drop_first(), sl, id);
    }
}

/// Replacing a slot by one bearing the same `id` leaves the lookup's answer
/// in place.
pub proof fn lemma_find_game_update(s: Seq<GameSlot>, i: int, sl: GameSlot, id: u64)
    requires
        spec_find_game(s, id) == Some(i),
        sl.game.id == id,
    ensures
        spec_find_game(s.update(i, sl), id) == Some(i),
{
    lemma_find_game_properties(s, id);
    let t = s.update(i, sl);
    assert forall|j: int| 0 <= j < i implies (#[trigger] t[j]).game.id != id by {
        assert(t[j] == s[j]);
    }
    lemma_find_game_first(t, id, i);
}

/// How many of the two players have deposited.
pub open spec fn deposit_count(g: Game) -> int {
    (if g.a_deposited {
        1int
    } else {
        0int
    }) + (if g.b_deposited {
        1int
    } else {
        0int
    })
}

/// Well-formedness of one slot: the invariants a live duel keeps. The
/// custodied value always equals the stake times the number of deposits,
/// and the winner stays undecided while the record rests.
pub open spec fn game_slot_wf(sl: GameSlot) -> bool {
    &&& sl.game.player_a != sl.game.player_b
    &&& sl.game.stake_lamports > 0
    &&& sl.game.winner == 0
    &&& sl.pot_lamports == sl.game.stake_lamports * deposit_count(sl.game)
}

/// Well-formedness of the arena: every slot keeps its invariants and no
/// identifier occurs twice.
pub open spec fn games_wf(s: Seq<GameSlot>) -> bool {
    &&& (forall|i: int| 0 <= i < s.len() ==> game_slot_wf(#[trigger] s[i]))
    &&& (forall|i: int, j: int|
        0 <= i < j < s.len() ==> (#[trigger] s[i]).game.id != (#[trigger] s[j]).game.id)
}

/// Native value custodied across the whole arena.
pub open spec fn pot_total(s: Seq<GameSlot>) -> int
    decreases s.len(),
{
    if s.len() == 0 {
        0
    } else {
        s[0].pot_lamports + pot_total(s.drop_first())
    }
}

/// Appending a slot adds its pot to the custodied total.
pub proof fn lemma_pot_total_push(s: Seq<GameSlot>, sl: GameSlot)
    ensures
        pot_total(s.push(sl)) == pot_total(s) + sl.pot_lamports,
    decreases s.len(),
{
    if s.len() == 0 {
        assert(s.push(sl)[0] == sl);
        assert(s.push(sl).drop_first() =~= Seq::<GameSlot>::empty());
        assert(pot_total(Seq::<GameSlot>::empty()) == 0);
    } else {
        assert(s.push(sl).drop_first() =~= s.drop_first().push(sl));
        lemma_pot_total_push(s.drop_first(), sl);
    }
}

/// Replacing a slot changes the custodied total by the pot difference.
pub proof fn lemma_pot_total_update(s: Seq<GameSlot>, i: int, sl: GameSlot)
    requires
        0 <= i < s.len(),
    ensures
        pot_total(s.update(i, sl)) == pot_total(s) - s[i].pot_lamports + sl.pot_lamports,
    decreases s.len(),
{
    let t = s.update(i, sl);
    if i == 0 {
        assert(t.drop_first() =~= s.drop_first());
    } else {
        assert(t[0] == s[0]);
        assert(t.drop_first() =~= s.drop_first().update(i - 1, sl));
        lemma_pot_total_update(s.drop_first(), i - 1, sl);
    }
}

/// Removing a slot takes its pot out of the custodied total.
pub proof fn lemma_pot_total_remove(s: Seq<GameSlot>, i: int)
    requires
        0 <= i < s.len(),
    ensures
        pot_total(s.remove(i)) == pot_total(s) - s[i].pot_lamports,
    decreases s.len(),
{
    let t = s.remove(i);
    if i == 0 {
        assert(t =~= s.drop_first());
    } else {
        assert(t[0] == s[0]);
        assert(t.drop_first() =~= s.drop_first().remove(i - 1));
        lemma_pot_total_remove(s.drop_first(), i - 1);
    }
}

/// Removing one slot keeps a well-formed arena well-formed.
pub proof fn lemma_games_wf_remove(s: Seq<GameSlot>, i: int)
    requires
        games_wf(s),
        0 <= i < s.len(),
    ensures
        games_wf(s.remove(i)),
{
    let t = s.remove(i);
    assert forall|j: int| 0 <= j < t.len() implies game_slot_wf(#[trigger] t[j]) by {
        if j < i {
            assert(t[j] == s[j]);
        } else {
            assert(t[j] == s[j + 1]);
        }
    }
    assert forall|j: int, k: int| 0 <= j < k < t.len() implies (#[trigger] t[j]).game.id != (
    #[trigger] t[k]).game.id by {
        let j0 = if j < i {
            j
        } else {
            j + 1
        };
        let k0 = if k < i {
            k
        } else {
            k + 1
        };
        assert(t[j] == s[j0]);
        assert(t[k] == s[k0]);
    }
}

/// Appending a well-formed slot under a fresh identifier keeps a
/// well-formed arena well-formed.
pub proof fn lemma_games_wf_push(s: Seq<GameSlot>, sl: GameSlot)
    requires
        games_wf(s),
        game_slot_wf(sl),
        forall|i: int| 0 <= i < s.len() ==> (#[trigger] s[i]).game.id != sl.game.id,
    ensures
        games_wf(s.push(sl)),
{
    let t = s.push(sl);
    assert forall|i: int| 0 <= i < t.len() implies game_slot_wf(#[trigger] t[i]) by {
        if i < s.len() {
            assert(t[i] == s[i]);
        } else {
            assert(t[i] == sl);
        }
    }
    assert forall|i: int, j: int| 0 <= i < j < t.len() implies (#[trigger] t[i]).game.id != (
    #[trigger] t[j]).game.id by {
        assert(t[i] == s[i]);
        if j < s.len() {
            assert(t[j] == s[j]);
        } else {
            assert(t[j] == sl);
        }
    }
}

/// Replacing a slot by a well-formed one with the same identifier keeps a
/// well-formed arena well-formed.
pub proof fn lemma_games_wf_update(s: Seq<GameSlot>, i: int, sl: GameSlot)
    requires
        games_wf(s),
        0 <= i < s.len(),
        game_slot_wf(sl),
        sl.game.id == s[i].game.id,
    ensures
        games_wf(s.update(i, sl)),
{
    let t = s.update(i, sl);
    assert forall|j: int| 0 <= j < t.len() implies game_slot_wf(#[trigger] t[j]) by {
        if j != i {
            assert(t[j] == s[j]);
        }
    }
    assert forall|j: int, k: int| 0 <= j < k < t.len() implies (#[trigger] t[j]).game.id != (
    #[trigger] t[k]).game.id by {
        assert(t[j].game.id == s[j].game.id);
        assert(t[k].game.id == s[k].game.id);
    }
}

impl GameBook {
    /// An arena with no live duels.
    pub fn new() -> (r: GameBook)
        ensures
            r@.len() == 0,
            games_wf(r@),
    {
        GameBook { slots: Vec::new() }
    }

    /// Index of the first slot bearing `id`, if any.
    fn find(&self, id: u64) -> (r: Option<usize>)
        ensures
            match r {
                Some(i) => spec_find_game(self@, id) == Some(i as int),
                None => spec_find_game(self@, id) is None,
            },
    {
        let mut i: usize = 0;
        while i < self.slots.len()
            invariant
                i <= self.slots.len(),
                forall|j: int| 0 <= j < i ==> (#[trigger] self.slots@[j]).game.id != id,
            decreases self.slots.len() - i,
        {
            if self.slots[i].game.id == id {
                proof {
                    lemma_find_game_first(self@, id, i as int);
                }
                return Some(i);
            }
            i = i + 1;
        }
        proof {
            lemma_find_game_none(self@, id);
        }
        None
    }

    /// Whether a game record bearing `id` is live.
    pub fn contains_game(&self, id: u64) -> (r: bool)
        ensures
            r == (spec_find_game(self@, id) is Some),
    {
        self.find(id).is_some()
    }

    /// The live game record bearing `id`, if any.
    pub fn get_game(&self, id: u64) -> (r: Option<Game>)
        ensures
            match spec_find_game(self@, id) {
                Some(i) => r == Some(self@[i].game),
                None => r is None,
            },
    {
        proof {
            lemma_find_game_properties(self@, id);
        }
        match self.find(id) {
            Some(i) => Some(self.slots[i].game),
            None => None,
        }
    }

    /// Native value custodied by the game bearing `id`, if live.
    pub fn pot_lamports(&self, id: u64) -> (r: Option<u64>)
        ensures
            match spec_find_game(self@, id) {
                Some(i) => r == Some(self@[i].pot_lamports),
                None => r is None,
            },
    {
        proof {
            lemma_find_game_properties(self@, id);
        }
        match self.find(id) {
            Some(i) => Some(self.slots[i].pot_lamports),
            None => None,
        }
    }

    /// Number of live duels.
    pub fn game_count(&self) -> (r: usize)
        ensures
            r == self@.len(),
    {
        self.slots.len()
    }
}

/// Outcome of create_game: the arena after the attempt and the result.
/// Creation fails on an identifier collision, identical players, a zero
/// stake, or an expiry not strictly in the future; a failed attempt
/// changes nothing.
pub open spec fn spec_create_game(
    s: Seq<GameSlot>,
    id: u64,
    authority: u64,
    player_a: u64,
    player_b: u64,
    stake_lamports: u64,
    expiry_ts: i64,
    now: i64,
    bump: u8,
) -> (Seq<GameSlot>, Result<(), ErrorCode>) {
    if spec_find_game(s, id) is Some {
        (s, Err(ErrorCode::AccountAlreadyExists))
    } else if player_a == player_b {
        (s, Err(ErrorCode::Unauthorized))
    } else if stake_lamports == 0 {
        (s, Err(ErrorCode::InvalidAmount))
    } else if expiry_ts <= now {
        (s, Err(ErrorCode::InvalidAmount))
    } else {
        let game = Game {
            id,
            player_a,
            player_b,
            authority,
            stake_lamports,
            a_deposited: false,
            b_deposited: false,
            winner: 0,
            expiry_ts,
            bump,
        };
        (s.push(GameSlot { game, pot_lamports: 0 }), Ok(()))
    }
}

/// Open a duel between two distinct players for a positive per-player
/// stake, to expire strictly in the future (`now` is the trusted clock
/// value read at execution time). The creator is recorded as the only
/// authority that may finalize. A failed attempt changes nothing.
pub fn create_game(
    book: &mut GameBook,
    id: u64,
    authority: u64,
    player_a: u64,
    player_b: u64,
    stake_lamports: u64,
    expiry_ts: i64,
    now: i64,
    bump: u8,
) -> (r: Result<(), ErrorCode>)
    ensures
        (final(book)@, r) == spec_create_game(
            old(book)@,
            id,
            authority,
            player_a,
            player_b,
            stake_lamports,
            expiry_ts,
            now,
            bump,
        ),
        games_wf(old(book)@) ==> games_wf(final(book)@),
{
    if book.find(id).is_some() {
        return Err(ErrorCode::AccountAlreadyExists);
    }
    if player_a == player_b {
        return Err(ErrorCode::Unauthorized);
    }
    if stake_lamports == 0 {
        return Err(ErrorCode::InvalidAmount);
    }
    if expiry_ts <= now {
        return Err(ErrorCode::InvalidAmount);
    }
    let game = Game {
        id,
        player_a,
        player_b,
        authority,
        stake_lamports,
        a_deposited: false,
        b_deposited: false,
        winner: 0,
        expiry_ts,
        bump,
    };
    proof {
        lemma_find_game_properties(old(book)@, id);
    }
    book.slots.push(GameSlot { game, pot_lamports: 0 });
    proof {
        if games_wf(old(book)@) {
            assert(deposit_count(game) == 0);
            assert(game.stake_lamports * 0 == 0) by (nonlinear_arith);
            lemma_games_wf_push(old(book)@, (GameSlot { game, pot_lamports: 0 }));
        }
    }
    Ok(())
}

/// Outcome of deposit: the arena and the depositing player's balance after
/// the attempt, and the result. Only one of the two recorded players may
/// deposit, exactly the stake, exactly once; a failed attempt changes
/// nothing.
pub open spec fn spec_deposit(
    s: Seq<GameSlot>,
    player_lamports: u64,
    id: u64,
    caller: u64,
    amount: u64,
) -> (Seq<GameSlot>, u64, Result<(), ErrorCode>) {
    match spec_find_game(s, id) {
        None => (s, player_lamports, Err(ErrorCode::AccountNotFound)),
        Some(i) => {
            let g = s[i].game;
            if amount != g.stake_lamports {
                (s, player_lamports, Err(ErrorCode::StakeAmountMismatch))
            } else if caller == g.player_a {
                if g.a_deposited {
                    (s, player_lamports, Err(ErrorCode::AlreadyDeposited))
                } else {
                    let moved = spec_transfer_lamports(player_lamports, s[i].pot_lamports, amount);
                    if moved.2 is Err {
                        (s, player_lamports, Err(ErrorCode::LamportsTransferFailed))
                    } else {
                        let slot = (GameSlot {
                            game: Game { a_deposited: true, ..g },
                            pot_lamports: moved.1,
                        });
                        (s.update(i, slot), moved.0, Ok(()))
                    }
                }
            } else if caller == g.player_b {
                if g.b_deposited {
                    (s, player_lamports, Err(ErrorCode::AlreadyDeposited))
                } else {
                    let moved = spec_transfer_lamports(player_lamports, s[i].pot_lamports, amount);
                    if moved.2 is Err {
                        (s, player_lamports, Err(ErrorCode::LamportsTransferFailed))
                    } else {
                        let slot = (GameSlot {
                            game: Game { b_deposited: true, ..g },
                            pot_lamports: moved.1,
                        });
                        (s.update(i, slot), moved.0, Ok(()))
                    }
                }
            } else {
                (s, player_lamports, Err(ErrorCode::Unauthorized))
            }
        },
    }
}

/// Pay one player's stake into the duel bearing `id`: move exactly
/// `amount` (which must equal the recorded stake) from the caller's
/// balance into the record, and mark that player as deposited. A failed
/// attempt changes nothing.
pub fn deposit(
    book: &mut GameBook,
    player_lamports: &mut u64,
    id: u64,
    caller: u64,
    amount: u64,
) -> (r: Result<(), ErrorCode>)
    ensures
        (final(book)@, *final(player_lamports), r) == spec_deposit(
            old(book)@,
            *old(player_lamports),
            id,
            caller,
            amount,
        ),
        games_wf(old(book)@) ==> games_wf(final(book)@),
{
    let idx = match book.find(id) {
        None => {
            return Err(ErrorCode::AccountNotFound);
        },
        Some(i) => i,
    };
    proof {
        lemma_find_game_properties(old(book)@, id);
    }
    let slot = book.slots[idx];
    let g = slot.game;
    if amount != g.stake_lamports {
        return Err(ErrorCode::StakeAmountMismatch);
    }
    if caller == g.player_a {
        if g.a_deposited {
            return Err(ErrorCode::AlreadyDeposited);
        }
        let mut paid = *player_lamports;
        let mut pot = slot.pot_lamports;
        match transfer_lamports(&mut paid, &mut pot, amount) {
            Err(_) => {
                return Err(ErrorCode::LamportsTransferFailed);
            },
            Ok(()) => {},
        }
        let updated = GameSlot { game: Game { a_deposited: true, ..g }, pot_lamports: pot };
        *player_lamports = paid;
        book.slots[idx] = updated;
        proof {
            if games_wf(old(book)@) {
                let c0 = deposit_count(g);
                assert(g.stake_lamports * (c0 + 1) == g.stake_lamports * c0
                    + g.stake_lamports) by (nonlinear_arith);
                lemma_games_wf_update(old(book)@, idx as int, updated);
            }
        }
        Ok(())
    } else if caller == g.player_b {
        if g.b_deposited {
            return Err(ErrorCode::AlreadyDeposited);
        }
        let mut paid = *player_lamports;
        let mut pot = slot.pot_lamports;
        match transfer_lamports(&mut paid, &mut pot, amount) {
            Err(_) => {
                return Err(ErrorCode::LamportsTransferFailed);
            },
            Ok(()) => {},
        }
        let updated = GameSlot { game: Game { b_deposited: true, ..g }, pot_lamports: pot };
        *player_lamports = paid;
        book.slots[idx] = updated;
        proof {
            if games_wf(old(book)@) {
                let c0 = deposit_count(g);
                assert(g.stake_lamports * (c0 + 1) == g.stake_lamports * c0
                    + g.stake_lamports) by (nonlinear_arith);
                lemma_games_wf_update(old(book)@, idx as int, updated);
            }
        }
        Ok(())
    } else {
        Err(ErrorCode::Unauthorized)
    }
}

/// Outcome of finalize_game: the arena and the winner's balance after the
/// attempt, and the result. Only the recorded authority may finalize, only
/// once both stakes are in, only for a winner code naming a player whose
/// payout destination matches; the whole pot (twice the stake, checked
/// multiplication) goes to the winner and the record closes. There is no
/// expiry check: a complete duel may be finalized at any time. A failed
/// attempt changes nothing.
pub open spec fn spec_finalize_game(
    s: Seq<GameSlot>,
    winner_lamports: u64,
    id: u64,
    caller: u64,
    winner: u8,
    winner_account: u64,
) -> (Seq<GameSlot>, u64, Result<(), ErrorCode>) {
    match spec_find_game(s, id) {
        None => (s, winner_lamports, Err(ErrorCode::AccountNotFound)),
        Some(i) => {
            let g = s[i].game;
            if caller != g.authority {
                (s, winner_lamports, Err(ErrorCode::Unauthorized))
            } else if !(g.a_deposited && g.b_deposited) {
                (s, winner_lamports, Err(ErrorCode::DepositsIncomplete))
            } else if winner != 1 && winner != 2 {
                (s, winner_lamports, Err(ErrorCode::InvalidWinner))
            } else if winner_account != (if winner == 1 {
                g.player_a
            } else {
                g.player_b
            }) {
                (s, winner_lamports, Err(ErrorCode::InvalidWinner))
            } else if 2 * g.stake_lamports > u64::MAX {
                (s, winner_lamports, Err(ErrorCode::LamportsTransferFailed))
            } else {
                let total = (2 * g.stake_lamports) as u64;
                let moved = spec_transfer_lamports(s[i].pot_lamports, winner_lamports, total);
                if moved.2 is Err {
                    (s, winner_lamports, Err(ErrorCode::LamportsTransferFailed))
                } else {
                    (s.remove(i), moved.1, Ok(()))
                }
            }
        },
    }
}

/// Pay the whole pot of the duel bearing `id` to the declared winner and
/// close the record. `winner` is 1 for the first player, 2 for the second;
/// `winner_account` must name that player, and `winner_lamports` is that
/// player's balance. A failed attempt changes nothing.
pub fn finalize_game(
    book: &mut GameBook,
    winner_lamports: &mut u64,
    id: u64,
    caller: u64,
    winner: u8,
    winner_account: u64,
) -> (r: Result<(), ErrorCode>)
    ensures
        (final(book)@, *final(winner_lamports), r) == spec_finalize_game(
            old(book)@,
            *old(winner_lamports),
            id,
            caller,
            winner,
            winner_account,
        ),
        games_wf(old(book)@) ==> games_wf(final(book)@),
{
    let idx = match book.find(id) {
        None => {
            return Err(ErrorCode::AccountNotFound);
        },
        Some(i) => i,
    };
    proof {
        lemma_find_game_properties(old(book)@, id);
    }
    let slot = book.slots[idx];
    let g = slot.game;
    if caller != g.authority {
        return Err(ErrorCode::Unauthorized);
    }
    if !(g.a_deposited && g.b_deposited) {
        return Err(ErrorCode::DepositsIncomplete);
    }
    if winner != 1 && winner != 2 {
        return Err(ErrorCode::InvalidWinner);
    }
    let expected = if winner == 1 {
        g.player_a
    } else {
        g.player_b
    };
    if winner_account != expected {
        return Err(ErrorCode::InvalidWinner);
    }
    let total = match g.stake_lamports.checked_mul(2) {
        None => {
            return Err(ErrorCode::LamportsTransferFailed);
        },
        Some(t) => t,
    };
    let mut pot = slot.pot_lamports;
    let mut won = *winner_lamports;
    match transfer_lamports(&mut pot, &mut won, total) {
        Err(_) => {
            return Err(ErrorCode::LamportsTransferFailed);
        },
        Ok(()) => {},
    }
    *winner_lamports = won;
    book.slots.remove(idx);
    proof {
        if games_wf(old(book)@) {
            lemma_games_wf_remove(old(book)@, idx as int);
        }
    }
    Ok(())
}

/// Outcome of cancel_game: the arena and the two players' balances after
/// the attempt, and the result. Only after expiry, and only for the
/// authority or a player, with payout destinations matching the recorded
/// players; each deposited player gets their stake back, an undeposited
/// player gets nothing, and the record closes either way. A failed attempt
/// changes nothing.
pub open spec fn spec_cancel_game(
    s: Seq<GameSlot>,
    player_a_lamports: u64,
    player_b_lamports: u64,
    id: u64,
    caller: u64,
    player_a_account: u64,
    player_b_account: u64,
    now: i64,
) -> (Seq<GameSlot>, u64, u64, Result<(), ErrorCode>) {
    match spec_find_game(s, id) {
        None => (s, player_a_lamports, player_b_lamports, Err(ErrorCode::AccountNotFound)),
        Some(i) => {
            let g = s[i].game;
            if now <= g.expiry_ts {
                (s, player_a_lamports, player_b_lamports, Err(ErrorCode::NotExpired))
            } else if caller != g.authority && caller != g.player_a && caller != g.player_b {
                (s, player_a_lamports, player_b_lamports, Err(ErrorCode::Unauthorized))
            } else if player_a_account != g.player_a || player_b_account != g.player_b {
                (s, player_a_lamports, player_b_lamports, Err(ErrorCode::Unauthorized))
            } else {
                let amount_a = if g.a_deposited {
                    g.stake_lamports
                } else {
                    0u64
                };
                let amount_b = if g.b_deposited {
                    g.stake_lamports
                } else {
                    0u64
                };
                let refund_a = spec_transfer_lamports(s[i].pot_lamports, player_a_lamports, amount_a);
                if refund_a.2 is Err {
                    (s, player_a_lamports, player_b_lamports, Err(ErrorCode::LamportsTransferFailed))
                } else {
                    let refund_b = spec_transfer_lamports(refund_a.0, player_b_lamports, amount_b);
                    if refund_b.2 is Err {
                        (
                            s,
                            player_a_lamports,
                            player_b_lamports,
                            Err(ErrorCode::LamportsTransferFailed),
                        )
                    } else {
                        (s.remove(i), refund_a.1, refund_b.1, Ok(()))
                    }
                }
            }
        },
    }
}

/// Cancel the duel bearing `id` after its expiry: refund the stake to each
/// player that deposited it, nothing to a player that did not, and close
/// the record. The authority or either player may cancel; the two payout
/// destinations must match the recorded players. A failed attempt changes
/// nothing.
pub fn cancel_game(
    book: &mut GameBook,
    player_a_lamports: &mut u64,
    player_b_lamports: &mut u64,
    id: u64,
    caller: u64,
    player_a_account: u64,
    player_b_account: u64,
    now: i64,
) -> (r: Result<(), ErrorCode>)
    ensures
        (final(book)@, *final(player_a_lamports), *final(player_b_lamports), r)
            == spec_cancel_game(
            old(book)@,
            *old(player_a_lamports),
            *old(player_b_lamports),
            id,
            caller,
            player_a_account,
            player_b_account,
            now,
        ),
        games_wf(old(book)@) ==> games_wf(final(book)@),
{
    let idx = match book.find(id) {
        None => {
            return Err(ErrorCode::AccountNotFound);
        },
        Some(i) => i,
    };
    proof {
        lemma_find_game_properties(old(book)@, id);
    }
    let slot = book.slots[idx];
    let g = slot.game;
    if now <= g.expiry_ts {
        return Err(ErrorCode::NotExpired);
    }
    if caller != g.authority && caller != g.player_a && caller != g.player_b {
        return Err(ErrorCode::Unauthorized);
    }
    if player_a_account != g.player_a || player_b_account != g.player_b {
        return Err(ErrorCode::Unauthorized);
    }
    let amount_a = if g.a_deposited {
        g.stake_lamports
    } else {
        0u64
    };
    let amount_b = if g.b_deposited {
        g.stake_lamports
    } else {
        0u64
    };
    let mut pot = slot.pot_lamports;
    let mut refunded_a = *player_a_lamports;
    let mut refunded_b = *player_b_lamports;
    match transfer_lamports(&mut pot, &mut refunded_a, amount_a) {
        Err(_) => {
            return Err(ErrorCode::LamportsTransferFailed);
        },
        Ok(()) => {},
    }
    match transfer_lamports(&mut pot, &mut refunded_b, amount_b) {
        Err(_) => {
            return Err(ErrorCode::LamportsTransferFailed);
        },
        Ok(()) => {},
    }
    *player_a_lamports = refunded_a;
    *player_b_lamports = refunded_b;
    book.slots.remove(idx);
    proof {
        if games_wf(old(book)@) {
            lemma_games_wf_remove(old(book)@, idx as int);
        }
    }
    Ok(())
}

/// Whatever the outcome, creating a game moves no native value: the
/// custodied total is unchanged and the new record, if any, starts empty.
pub proof fn lemma_create_conserves(
    s: Seq<GameSlot>,
    id: u64,
    authority: u64,
    player_a: u64,
    player_b: u64,
    stake_lamports: u64,
    expiry_ts: i64,
    now: i64,
    bump: u8,
)
    ensures
        ({
            let (s2, r) = spec_create_game(
                s,
                id,
                authority,
                player_a,
                player_b,
                stake_lamports,
                expiry_ts,
                now,
                bump,
            );
            pot_total(s2) == pot_total(s)
        }),
{
    let (s2, r) = spec_create_game(
        s,
        id,
        authority,
        player_a,
        player_b,
        stake_lamports,
        expiry_ts,
        now,
        bump,
    );
    if r is Ok {
        lemma_pot_total_push(s, s2[s.len() as int]);
    }
}

/// Whatever the outcome, a deposit conserves native value: the custodied
/// total plus the depositor's balance is unchanged.
pub proof fn lemma_deposit_conserves(
    s: Seq<GameSlot>,
    player_lamports: u64,
    id: u64,
    caller: u64,
    amount: u64,
)
    ensures
        ({
            let (s2, bal2, r) = spec_deposit(s, player_lamports, id, caller, amount);
            pot_total(s2) + bal2 == pot_total(s) + player_lamports
        }),
{
    let (s2, bal2, r) = spec_deposit(s, player_lamports, id, caller, amount);
    if r is Ok {
        lemma_find_game_properties(s, id);
        let i = spec_find_game(s, id)->Some_0;
        lemma_pot_total_update(s, i, s2[i]);
    }
}

/// Whatever the outcome, finalizing conserves native value: the custodied
/// total plus the winner's balance is unchanged.
pub proof fn lemma_finalize_conserves(
    s: Seq<GameSlot>,
    winner_lamports: u64,
    id: u64,
    caller: u64,
    winner: u8,
    winner_account: u64,
)
    requires
        games_wf(s),
    ensures
        ({
            let (s2, bal2, r) = spec_finalize_game(s, winner_lamports, id, caller, winner, winner_account);
            pot_total(s2) + bal2 == pot_total(s) + winner_lamports
        }),
{
    let (s2, bal2, r) = spec_finalize_game(s, winner_lamports, id, caller, winner, winner_account);
    if r is Ok {
        lemma_find_game_properties(s, id);
        let i = spec_find_game(s, id)->Some_0;
        assert(game_slot_wf(s[i]));
        let g = s[i].game;
        assert(deposit_count(g) == 2);
        assert(s[i].pot_lamports == g.stake_lamports * 2);
        lemma_pot_total_remove(s, i);
    }
}

/// Whatever the outcome, cancelling conserves native value: the custodied
/// total plus the two players' balances is unchanged.
pub proof fn lemma_cancel_conserves(
    s: Seq<GameSlot>,
    player_a_lamports: u64,
    player_b_lamports: u64,
    id: u64,
    caller: u64,
    player_a_account: u64,
    player_b_account: u64,
    now: i64,
)
    requires
        games_wf(s),
    ensures
        ({
            let (s2, pa2, pb2, r) = spec_cancel_game(
                s,
                player_a_lamports,
                player_b_lamports,
                id,
                caller,
                player_a_account,
                player_b_account,
                now,
            );
            pot_total(s2) + pa2 + pb2 == pot_total(s) + player_a_lamports + player_b_lamports
        }),
{
    let (s2, pa2, pb2, r) = spec_cancel_game(
        s,
        player_a_lamports,
        player_b_lamports,
        id,
        caller,
        player_a_account,
        player_b_account,
        now,
    );
    if r is Ok {
        lemma_find_game_properties(s, id);
        let i = spec_find_game(s, id)->Some_0;
        assert(game_slot_wf(s[i]));
        let g = s[i].game;
        if g.a_deposited {
            if g.b_deposited {
                assert(deposit_count(g) == 2);
                assert(s[i].pot_lamports == g.stake_lamports * 2);
            } else {
                assert(deposit_count(g) == 1);
                assert(s[i].pot_lamports == g.stake_lamports * 1);
            }
        } else {
            if g.b_deposited {
                assert(deposit_count(g) == 1);
                assert(s[i].pot_lamports == g.stake_lamports * 1);
            } else {
                assert(deposit_count(g) == 0);
                assert(s[i].pot_lamports == g.stake_lamports * 0);
            }
        }
        lemma_pot_total_remove(s, i);
    }
}

/// A completed duel moves exactly one stake from the loser to the winner:
/// after create, both deposits and finalize, the winner holds their
/// starting balance plus the stake, the loser theirs minus the stake, the
/// record is gone and the arena's custodied total is back where it began.
pub proof fn lemma_duel_lifecycle(
    s: Seq<GameSlot>,
    id: u64,
    authority: u64,
    player_a: u64,
    player_b: u64,
    stake_lamports: u64,
    expiry_ts: i64,
    now: i64,
    bump: u8,
    a_balance: u64,
    b_balance: u64,
    winner: u8,
)
    requires
        games_wf(s),
        spec_find_game(s, id) is None,
        player_a != player_b,
        stake_lamports > 0,
        expiry_ts > now,
        a_balance >= stake_lamports,
        b_balance >= stake_lamports,
        2 * stake_lamports <= u64::MAX,
        winner == 1 || winner == 2,
        winner == 1 ==> a_balance + stake_lamports <= u64::MAX,
        winner == 2 ==> b_balance + stake_lamports <= u64::MAX,
    ensures
        ({
            let (s1, r1) = spec_create_game(
                s,
                id,
                authority,
                player_a,
                player_b,
                stake_lamports,
                expiry_ts,
                now,
                bump,
            );
            let (s2, a_after, r2) = spec_deposit(s1, a_balance, id, player_a, stake_lamports);
            let (s3, b_after, r3) = spec_deposit(s2, b_balance, id, player_b, stake_lamports);
            let winner_account = if winner == 1 {
                player_a
            } else {
                player_b
            };
            let winner_before = if winner == 1 {
                a_after
            } else {
                b_after
            };
            let (s4, winner_after, r4) = spec_finalize_game(
                s3,
                winner_before,
                id,
                authority,
                winner,
                winner_account,
            );
            &&& r1 is Ok
            &&& r2 is Ok
            &&& r3 is Ok
            &&& r4 is Ok
            &&& a_after == a_balance - stake_lamports
            &&& b_after == b_balance - stake_lamports
            &&& winner_after == (if winner == 1 {
                a_balance + stake_lamports
            } else {
                b_balance + stake_lamports
            })
            &&& s4 == s
        }),
{
    let (s1, r1) = spec_create_game(
        s,
        id,
        authority,
        player_a,
        player_b,
        stake_lamports,
        expiry_ts,
        now,
        bump,
    );
    let n = s.len() as int;
    let slot0 = s1[n];
    lemma_find_game_push(s, slot0, id);
    let (s2, a_after, r2) = spec_deposit(s1, a_balance, id, player_a, stake_lamports);
    lemma_find_game_update(s1, n, s2[n], id);
    let (s3, b_after, r3) = spec_deposit(s2, b_balance, id, player_b, stake_lamports);
    lemma_find_game_update(s2, n, s3[n], id);
    let winner_account = if winner == 1 {
        player_a
    } else {
        player_b
    };
    let winner_before = if winner == 1 {
        a_after
    } else {
        b_after
    };
    let (s4, winner_after, r4) = spec_finalize_game(
        s3,
        winner_before,
        id,
        authority,
        winner,
        winner_account,
    );
    assert(s4 =~= s);
}

/// Before expiry a cancel always fails with NotExpired and changes
/// nothing; after expiry an authorized cancel with matching destinations
/// succeeds whatever the deposit state, refunding the stake to exactly the
/// players that deposited it and closing the record.
pub proof fn lemma_cancel_gating(
    s: Seq<GameSlot>,
    player_a_lamports: u64,
    player_b_lamports: u64,
    id: u64,
    caller: u64,
    player_a_account: u64,
    player_b_account: u64,
    now: i64,
)
    requires
        games_wf(s),
    ensures
        ({
            let (s2, pa2, pb2, r) = spec_cancel_game(
                s,
                player_a_lamports,
                player_b_lamports,
                id,
                caller,
                player_a_account,
                player_b_account,
                now,
            );
            match spec_find_game(s, id) {
                None => r == Err::<(), ErrorCode>(ErrorCode::AccountNotFound),
                Some(i) => {
                    let g = s[i].game;
                    &&& (now <= g.expiry_ts ==> r == Err::<(), ErrorCode>(ErrorCode::NotExpired)
                        && s2 == s && pa2 == player_a_lamports && pb2 == player_b_lamports)
                    &&& ((now > g.expiry_ts && (caller == g.authority || caller == g.player_a
                        || caller == g.player_b) && player_a_account == g.player_a
                        && player_b_account == g.player_b && player_a_lamports + g.stake_lamports
                        <= u64::MAX && player_b_lamports + g.stake_lamports <= u64::MAX) ==> {
                        &&& r is Ok
                        &&& pa2 == player_a_lamports + (if g.a_deposited {
                            g.stake_lamports as int
                        } else {
                            0int
                        })
                        &&& pb2 == player_b_lamports + (if g.b_deposited {
                            g.stake_lamports as int
                        } else {
                            0int
                        })
                        &&& spec_find_game(s2, id) is None
                    })
                },
            }
        }),
{
    let (s2, pa2, pb2, r) = spec_cancel_game(
        s,
        player_a_lamports,
        player_b_lamports,
        id,
        caller,
        player_a_account,
        player_b_account,
        now,
    );
    match spec_find_game(s, id) {
        None => {},
        Some(i) => {
            lemma_find_game_properties(s, id);
            assert(game_slot_wf(s[i]));
            let g = s[i].game;
            if g.a_deposited {
                if g.b_deposited {
                    assert(deposit_count(g) == 2);
                    assert(s[i].pot_lamports == g.stake_lamports * 2);
                } else {
                    assert(deposit_count(g) == 1);
                    assert(s[i].pot_lamports == g.stake_lamports * 1);
                }
            } else {
                if g.b_deposited {
                    assert(deposit_count(g) == 1);
                    assert(s[i].pot_lamports == g.stake_lamports * 1);
                } else {
                    assert(deposit_count(g) == 0);
                    assert(s[i].pot_lamports == g.stake_lamports * 0);
                }
            }
            if r is Ok {
                assert forall|j: int| 0 <= j < s2.len() implies (#[trigger] s2[j]).game.id
                    != id by {
                    if j < i {
                        assert(s2[j] == s[j]);
                    } else {
                        assert(s2[j] == s[j + 1]);
                    }
                }
                lemma_find_game_none(s2, id);
            }
        },
    }
}

} // verus!
