//! What a wager is paid once its game is over.
//!
//! A fee is withheld from all that was wagered on both sides; what is left is
//! shared among the wagers on the winning side in proportion to their
//! amounts. Every step is exact integer arithmetic that rounds down, so a
//! wager is never paid more than its proportion, and what rounding holds back
//! stays in custody.

use crate::state::{Bet, Tug, Winner, FEE_PERCENT};
use vstd::arithmetic::div_mod::{
    lemma_div_denominator, lemma_div_is_ordered, lemma_div_multiples_vanish,
    lemma_fundamental_div_mod,
};
use vstd::arithmetic::mul::{lemma_mul_inequality, lemma_mul_is_commutative};
use vstd::prelude::*;

verus! {

/// The fee withheld from a whole of `total`: `FEE_PERCENT` hundredths of it,
/// rounded down.
pub open spec fn fee_of(total: nat) -> nat {
    total * (FEE_PERCENT as nat) / 100
}

/// What is left of a whole of `total` for the winners.
pub open spec fn purse_of(total: nat) -> nat {
    (total - fee_of(total)) as nat
}

/// What a wager of `amount` gets out of a whole of `total` when the pool on
/// its side, `pool`, has won: `amount / pool` of the purse, rounded down.
pub open spec fn share_of(amount: nat, pool: nat, total: nat) -> nat
    recommends
        pool > 0,
{
    amount * purse_of(total) / pool
}

impl Tug {
    /// What this game owes to `bet`: its share where its side has won, and
    /// nothing where it has not, or not yet.
    pub open spec fn payout(&self, bet: Bet) -> nat {
        if self.winning_side() == Some(bet.winner) {
            share_of(bet.lamports as nat, self.pool(bet.winner), self.total())
        } else {
            0
        }
    }
}

/// The fee never exceeds the whole, so the purse is what the whole lacks of
/// the fee.
pub proof fn lemma_purse(total: nat)
    ensures
        fee_of(total) <= total,
        fee_of(total) + purse_of(total) == total,
{
}

/// A share is the proportion rounded down: it never exceeds `amount / pool`
/// of the purse, and falls short of it by less than one unit.
pub proof fn lemma_share_rounds_down(amount: nat, pool: nat, total: nat)
    requires
        pool > 0,
    ensures
        share_of(amount, pool, total) * pool <= amount * purse_of(total),
        amount * purse_of(total) < (share_of(amount, pool, total) + 1) * pool,
{
    let whole = (amount * purse_of(total)) as int;
    let share = share_of(amount, pool, total) as int;
    lemma_fundamental_div_mod(whole, pool as int);
    lemma_mul_is_commutative(pool as int, whole / (pool as int));
    assert((share + 1) * pool == share * pool + pool) by (nonlinear_arith);
}

/// A wager that is no larger than its pool gets no more than the purse.
pub proof fn lemma_share_within_purse(amount: nat, pool: nat, total: nat)
    requires
        0 < pool,
        amount <= pool,
    ensures
        share_of(amount, pool, total) <= purse_of(total),
{
    let purse = purse_of(total) as int;
    lemma_mul_inequality(amount as int, pool as int, purse);
    lemma_div_is_ordered(amount * purse, pool * purse, pool as int);
    lemma_div_multiples_vanish(purse, pool as int);
}

/// Two wagers of the same amount that make up the winning pool get half the
/// purse each, rounded down, and so no more than the purse together.
pub proof fn lemma_equal_halves(half: nat, total: nat)
    requires
        half > 0,
    ensures
        share_of(half, 2 * half, total) == purse_of(total) / 2,
        2 * share_of(half, 2 * half, total) <= purse_of(total),
{
    let purse = purse_of(total) as int;
    lemma_div_denominator(half * purse, half as int, 2);
    lemma_div_multiples_vanish(purse, half as int);
    lemma_mul_is_commutative(half as int, 2);
}

/// What `tug` owes to `bet`, or `None` where that is more than any balance
/// can hold.
pub fn payout(tug: &Tug, bet: &Bet) -> (due: Option<u64>)
    requires
        tug.settles(*bet),
    ensures
        due matches Some(p) ==> p == tug.payout(*bet),
        due is None <==> tug.payout(*bet) > u64::MAX,
{
    match tug.winning_side() {
        None => Some(0),
        Some(side) => {
            if side != bet.winner {
                return Some(0);
            }
            let total: u128 = tug.lamports_left as u128 + tug.lamports_right as u128;
            let fee: u128 = total * (FEE_PERCENT as u128) / 100;
            let purse: u128 = total - fee;
            let pool: u128 = match side {
                Winner::Left => tug.lamports_left as u128,
                Winner::Right => tug.lamports_right as u128,
            };
            assert(purse == purse_of(tug.total()));
            match (bet.lamports as u128).checked_mul(purse) {
                None => {
                    proof {
                        let whole = bet.lamports as int * purse as int;
                        let bound: int = 0x1_0000_0000_0000_0000;
                        lemma_mul_inequality(pool as int, bound, bound);
                        lemma_mul_is_commutative(pool as int, bound);
                        lemma_div_is_ordered(pool as int * bound, whole, pool as int);
                        lemma_div_multiples_vanish(bound, pool as int);
                    }
                    None
                },
                Some(whole) => {
                    let share: u128 = whole / pool;
                    if share > u64::MAX as u128 {
                        None
                    } else {
                        Some(share as u64)
                    }
                },
            }
        },
    }
}

} // verus!
