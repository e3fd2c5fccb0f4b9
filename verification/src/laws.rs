//! What holds of the game over many operations.

use crate::instructions::{ClaimBet, PlaceBet};
use crate::payout::{lemma_share_rounds_down, lemma_share_within_purse, purse_of};
use crate::state::{in_play, Bet, Manager, Tug, TugError, Winner, MAX_TUG};
use vstd::prelude::*;

verus! {

/// The pulls to the right less the pulls to the left.
pub open spec fn net(pulls: Seq<Winner>) -> int
    decreases pulls.len(),
{
    if pulls.len() == 0 {
        0
    } else {
        net(pulls.drop_last()) + pulls.last().step()
    }
}

impl Tug {
    /// The game after the pulls in `pulls`, one after the other.
    pub open spec fn pulled_all(self, pulls: Seq<Winner>) -> Tug
        decreases pulls.len(),
    {
        if pulls.len() == 0 {
            self
        } else {
            self.pulled_all(pulls.drop_last()).pulled(pulls.last())
        }
    }
}

/// Pulls move the marker and nothing else: the id, the creator and the pools
/// of a game are the same after any pulls.
pub proof fn lemma_pulls_move_only_the_marker(tug: Tug, pulls: Seq<Winner>)
    ensures
        tug.pulled_all(pulls) == (Tug { x: tug.pulled_all(pulls).x, ..tug }),
    decreases pulls.len(),
{
    if pulls.len() > 0 {
        lemma_pulls_move_only_the_marker(tug, pulls.drop_last());
    }
}

/// As long as the game was on before each of the pulls, the marker has moved
/// by exactly the pulls to the right less the pulls to the left.
pub proof fn lemma_pulls_mirror_net(tug: Tug, pulls: Seq<Winner>)
    requires
        forall|k: int| 0 <= k < pulls.len() ==> in_play(tug.x + #[trigger] net(pulls.take(k))),
    ensures
        tug.pulled_all(pulls).x == tug.x + net(pulls),
    decreases pulls.len(),
{
    if pulls.len() > 0 {
        let before = pulls.drop_last();
        assert forall|k: int| 0 <= k < before.len() implies in_play(
            tug.x + #[trigger] net(before.take(k)),
        ) by {
            assert(before.take(k) == pulls.take(k));
        }
        lemma_pulls_mirror_net(tug, before);
        assert(pulls.take(pulls.len() - 1) == before);
    }
}

/// Once a game is over, pulls are without effect: whatever pulls follow, the
/// game stays as it is, and so does the side that has won.
pub proof fn lemma_pulls_after_the_end(tug: Tug, pulls: Seq<Winner>)
    requires
        !tug.is_game_on(),
    ensures
        tug.pulled_all(pulls) == tug,
    decreases pulls.len(),
{
    if pulls.len() > 0 {
        lemma_pulls_after_the_end(tug, pulls.drop_last());
    }
}

/// The marker follows the pulls up to the first moment at which the game is
/// over, and stays where it is then: where `k` of the pulls were made while
/// the game was on, and the game was over after them or no pull was left,
/// the marker has moved by the first `k` pulls to the right less those to
/// the left.
pub proof fn lemma_pulls_stop_at_the_end(tug: Tug, pulls: Seq<Winner>, k: int)
    requires
        0 <= k <= pulls.len(),
        forall|j: int| 0 <= j < k ==> in_play(tug.x + #[trigger] net(pulls.take(j))),
        k == pulls.len() || !in_play(tug.x + net(pulls.take(k))),
    ensures
        tug.pulled_all(pulls).x == tug.x + net(pulls.take(k)),
    decreases pulls.len(),
{
    if k == pulls.len() {
        assert(pulls.take(k) == pulls);
        lemma_pulls_mirror_net(tug, pulls);
    } else {
        let before = pulls.drop_last();
        assert forall|j: int| 0 <= j < k implies in_play(
            tug.x + #[trigger] net(before.take(j)),
        ) by {
            assert(before.take(j) == pulls.take(j));
        }
        assert(before.take(k) == pulls.take(k));
        lemma_pulls_stop_at_the_end(tug, before, k);
    }
}

/// A marker that is between the two ends, or at one of them, stays so under
/// any pulls: no pull takes it past an end.
pub proof fn lemma_marker_stays_between_the_ends(tug: Tug, pulls: Seq<Winner>)
    requires
        -(MAX_TUG as int) <= tug.x <= MAX_TUG as int,
    ensures
        -(MAX_TUG as int) <= tug.pulled_all(pulls).x <= MAX_TUG as int,
    decreases pulls.len(),
{
    if pulls.len() > 0 {
        lemma_marker_stays_between_the_ends(tug, pulls.drop_last());
    }
}

/// The registry after it has issued `n` ids.
pub open spec fn advanced_by(manager: Manager, n: nat) -> Manager
    decreases n,
{
    if n == 0 {
        manager
    } else {
        advanced_by(manager, (n - 1) as nat).advanced()
    }
}

/// The registry counts the games: after `n` ids it holds its first id plus
/// `n`, counted round the 65536 ids that there are.
pub proof fn lemma_registry_counts(manager: Manager, n: nat)
    ensures
        advanced_by(manager, n).game == (manager.game + n) % 0x1_0000,
    decreases n,
{
    if n > 0 {
        lemma_registry_counts(manager, (n - 1) as nat);
    }
}

/// No two games share an id, as long as fewer than 65536 games lie between
/// them: the `i`-th and the `j`-th id that a registry issues differ.
pub proof fn lemma_ids_are_distinct(manager: Manager, i: nat, j: nat)
    requires
        i < j < i + 0x1_0000,
    ensures
        advanced_by(manager, i).game != advanced_by(manager, j).game,
{
    lemma_registry_counts(manager, i);
    lemma_registry_counts(manager, j);
}

/// The amounts of the wagers in `bets` that are on `side`, together.
pub open spec fn wagered(bets: Seq<Bet>, side: Winner) -> nat
    decreases bets.len(),
{
    if bets.len() == 0 {
        0
    } else {
        wagered(bets.drop_last(), side) + if bets.last().winner == side {
            bets.last().lamports as nat
        } else {
            0
        }
    }
}

impl Tug {
    /// What this game owes to the wagers in `bets`, together.
    pub open spec fn payouts(&self, bets: Seq<Bet>) -> nat
        decreases bets.len(),
    {
        if bets.len() == 0 {
            0
        } else {
            self.payouts(bets.drop_last()) + self.payout(bets.last())
        }
    }
}

/// Of two wagers on opposite sides of a game that is over, the one on the
/// losing side is owed nothing, and the one on the winning side is owed no
/// more than its proportion of the purse: its amount, out of the pool on its
/// side, of all that was wagered less the fee.
pub proof fn lemma_opposite_bets(tug: Tug, a: Bet, b: Bet)
    requires
        !tug.is_game_on(),
        a.winner != b.winner,
        tug.backs(a),
        tug.backs(b),
    ensures
        tug.winning_side() == Some(a.winner) || tug.winning_side() == Some(b.winner),
        tug.winning_side() != Some(a.winner) ==> tug.payout(a) == 0,
        tug.winning_side() != Some(b.winner) ==> tug.payout(b) == 0,
        tug.payout(a) * tug.pool(a.winner) <= a.lamports * purse_of(tug.total()),
        tug.payout(b) * tug.pool(b.winner) <= b.lamports * purse_of(tug.total()),
        tug.payout(a) + tug.payout(b) <= purse_of(tug.total()),
{
    lemma_share_rounds_down(a.lamports as nat, tug.pool(a.winner), tug.total());
    lemma_share_rounds_down(b.lamports as nat, tug.pool(b.winner), tug.total());
    lemma_share_within_purse(a.lamports as nat, tug.pool(a.winner), tug.total());
    lemma_share_within_purse(b.lamports as nat, tug.pool(b.winner), tug.total());
    // The wager that lost is owed nothing, which is within any proportion.
    let purse = purse_of(tug.total());
    assert(0 * tug.pool(a.winner) == 0 <= a.lamports * purse) by (nonlinear_arith);
    assert(0 * tug.pool(b.winner) == 0 <= b.lamports * purse) by (nonlinear_arith);
}

/// What a game owes to some wagers together, times the winning pool, is no
/// more than their amounts on the winning side times the purse.
proof fn lemma_payouts_are_proportional(tug: Tug, bets: Seq<Bet>, side: Winner)
    requires
        tug.winning_side() == Some(side),
        tug.pool(side) > 0,
    ensures
        tug.payouts(bets) * tug.pool(side) <= wagered(bets, side) * purse_of(tug.total()),
    decreases bets.len(),
{
    let pool = tug.pool(side);
    let purse = purse_of(tug.total());
    if bets.len() == 0 {
        assert(0 * pool <= 0 * purse) by (nonlinear_arith);
    } else {
        let before = bets.drop_last();
        let last = bets.last();
        lemma_payouts_are_proportional(tug, before, side);
        let paid = tug.payouts(before);
        let staked = wagered(before, side);
        if last.winner == side {
            let due = tug.payout(last);
            let amount = last.lamports as nat;
            lemma_share_rounds_down(amount, pool, tug.total());
            assert((paid + due) * pool <= (staked + amount) * purse) by (nonlinear_arith)
                requires
                    paid * pool <= staked * purse,
                    due * pool <= amount * purse,
            ;
        }
    }
}

/// All the claims on one game together are paid no more than the purse: all
/// that was wagered, less the fee. This holds of any wagers that the game
/// backs, as long as those on each side together are within that side's
/// pool.
pub proof fn lemma_claims_within_purse(tug: Tug, bets: Seq<Bet>)
    requires
        !tug.is_game_on(),
        forall|i: int| 0 <= i < bets.len() ==> tug.backs(#[trigger] bets[i]),
        forall|side: Winner| #[trigger] wagered(bets, side) <= tug.pool(side),
    ensures
        tug.payouts(bets) <= purse_of(tug.total()),
{
    let side = tug.winning_side()->Some_0;
    let pool = tug.pool(side);
    let purse = purse_of(tug.total());
    if pool > 0 {
        lemma_payouts_are_proportional(tug, bets, side);
        assert(wagered(bets, side) <= pool);
        assert(tug.payouts(bets) <= purse) by (nonlinear_arith)
            requires
                tug.payouts(bets) * pool <= wagered(bets, side) * purse,
                wagered(bets, side) <= pool,
                pool > 0,
        ;
    } else {
        lemma_nothing_owed_from_an_empty_pool(tug, bets);
    }
}

/// Where the pool on the winning side is empty, no wager that the game backs
/// is on that side, so nothing is owed.
proof fn lemma_nothing_owed_from_an_empty_pool(tug: Tug, bets: Seq<Bet>)
    requires
        !tug.is_game_on(),
        tug.pool(tug.winning_side()->Some_0) == 0,
        forall|i: int| 0 <= i < bets.len() ==> tug.backs(#[trigger] bets[i]),
    ensures
        tug.payouts(bets) == 0,
    decreases bets.len(),
{
    if bets.len() > 0 {
        let before = bets.drop_last();
        assert forall|i: int| 0 <= i < before.len() implies tug.backs(#[trigger] before[i]) by {
            assert(before[i] == bets[i]);
        }
        lemma_nothing_owed_from_an_empty_pool(tug, before);
        assert(tug.backs(bets[bets.len() - 1]));
    }
}

/// A game backs a wager from the moment it is placed.
pub proof fn lemma_placed_bet_is_backed(ctx: PlaceBet, amount: u64, side: Winner)
    requires
        amount > 0,
        ctx.tug.pool(side) + amount <= u64::MAX,
    ensures
        ctx.after(amount, side).tug.backs(ctx.after(amount, side).bet->Some_0),
{
}

/// A game that backs a wager still backs it after a pull and after another
/// wager, on either side: pools only grow.
pub proof fn lemma_backing_lasts(tug: Tug, bet: Bet, side: Winner, amount: u64)
    requires
        tug.backs(bet),
    ensures
        tug.settles(bet),
        tug.pulled(side).backs(bet),
        tug.pool(side) + amount <= u64::MAX ==> tug.staked(amount, side).backs(bet),
{
}

impl ClaimBet {
    /// This claim as it is made after `other` was settled: custody holds
    /// what the other claim has left of it.
    pub open spec fn following(self, other: ClaimBet) -> ClaimBet {
        ClaimBet { manager_lamports: other.after().manager_lamports, ..self }
    }
}

/// Claims on one game can be made in any order: each is paid what the game
/// owes it, which no other claim changes. Where custody holds what two
/// wagers are owed together, the second claim succeeds after the first
/// whichever of them is made first, each claimant ends with the same
/// balance, and so does custody.
pub proof fn lemma_claims_commute(one: ClaimBet, other: ClaimBet)
    requires
        one.tug == other.tug,
        one.manager_lamports == other.manager_lamports,
        one.bet is Some,
        other.bet is Some,
        !one.tug.is_game_on(),
        one.due() + other.due() <= one.manager_lamports,
    ensures
        one.outcome() is Ok,
        other.outcome() is Ok,
        other.following(one).outcome() is Ok,
        one.following(other).outcome() is Ok,
        other.following(one).after().payer_lamports == other.after().payer_lamports,
        one.following(other).after().payer_lamports == one.after().payer_lamports,
        other.following(one).after().manager_lamports == one.following(
            other,
        ).after().manager_lamports,
{
}

/// A bettor has at most one wager on a game at a time: after a wager was
/// placed, a second one by the same bettor on the same game is refused as a
/// duplicate, whatever its amount.
pub proof fn lemma_second_bet_is_refused(ctx: PlaceBet, amount: u64, side: Winner, again: u64)
    requires
        ctx.outcome(amount) is Ok,
    ensures
        ctx.after(amount, side).outcome(again) == Err::<(), TugError>(TugError::DuplicateBet),
{
}

/// A claim makes room for a new wager: after a wager was claimed, the same
/// bettor can wager on the same game again, with any amount that the
/// bettor's balance holds.
pub proof fn lemma_claim_makes_room(claim: ClaimBet, next: PlaceBet, amount: u64)
    requires
        claim.outcome() is Ok,
        next.bet == claim.after().bet,
        amount <= next.payer_lamports,
    ensures
        next.outcome(amount) is Ok,
{
}

} // verus!
