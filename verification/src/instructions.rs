//! The operations of the game.
//!
//! Each operation works on a context: the records and balances that it reads
//! and changes, as plain values. A record that an operation creates or
//! destroys stands in the context as an `Option`: `None` where no record is
//! stored, `Some` where one is. An operation either succeeds and changes its
//! context as described, or fails with an error and leaves the context as it
//! found it.

use crate::payout::payout;
use crate::state::{Bet, Manager, Tug, TugError, Winner};
use anchor_lang::prelude::Pubkey;
use vstd::prelude::*;

verus! {

/// What `initialize_manager` works on.
#[derive(Clone, Copy, Debug, PartialEq, Eq)]
pub struct InitializeManager {
    /// Where the registry is stored.
    pub manager: Option<Manager>,
}

/// What `initialize` works on.
#[derive(Clone, Copy, Debug, PartialEq, Eq)]
pub struct Initialize {
    /// Who creates the game.
    pub payer: Pubkey,
    /// Where the new game is stored.
    pub tug: Option<Tug>,
    /// The registry that issues the game's id.
    pub manager: Manager,
}

/// What `pull_left` works on.
#[derive(Clone, Copy, Debug, PartialEq, Eq)]
pub struct PullLeft {
    /// The game that is pulled.
    pub tug: Tug,
}

/// What `pull_right` works on.
#[derive(Clone, Copy, Debug, PartialEq, Eq)]
pub struct PullRight {
    /// The game that is pulled.
    pub tug: Tug,
}

/// What `place_bet` works on.
#[derive(Clone, Copy, Debug, PartialEq, Eq)]
pub struct PlaceBet {
    /// The bettor's balance.
    pub payer_lamports: u64,
    /// The game that is wagered on.
    pub tug: Tug,
    /// The balance in custody, out of which claims are paid.
    pub manager_lamports: u64,
    /// Where this bettor's wager on this game is stored.
    pub bet: Option<Bet>,
}

/// What `claim_bet` works on.
#[derive(Clone, Copy, Debug, PartialEq, Eq)]
pub struct ClaimBet {
    /// The claimant's balance.
    pub payer_lamports: u64,
    /// The game that was wagered on.
    pub tug: Tug,
    /// The balance in custody, out of which claims are paid.
    pub manager_lamports: u64,
    /// Where this claimant's wager on this game is stored.
    pub bet: Option<Bet>,
}

impl Manager {
    /// The registry after it has issued its current id: the counter has
    /// advanced by one, and starts again at 0 after the largest id.
    pub open spec fn advanced(self) -> Manager {
        Manager { game: if self.game == u16::MAX { 0 } else { (self.game + 1) as u16 } }
    }
}

impl Tug {
    /// A game as it is created: marker at the centre, nothing wagered.
    pub open spec fn created(id: u16, authority: Pubkey) -> Tug {
        Tug { x: 0, id, authority, lamports_left: 0, lamports_right: 0 }
    }
}

impl InitializeManager {
    /// Whether the registry can be created: only where there is none yet.
    pub open spec fn outcome(self) -> Result<(), TugError> {
        if self.manager is Some {
            Err(TugError::AlreadyInitialized)
        } else {
            Ok(())
        }
    }

    /// The context after the registry was created: its counter is at 0.
    pub open spec fn after(self) -> InitializeManager {
        InitializeManager { manager: Some(Manager { game: 0 }) }
    }
}

impl Initialize {
    /// Whether the game can be created: only where none is stored yet.
    pub open spec fn outcome(self) -> Result<(), TugError> {
        if self.tug is Some {
            Err(TugError::AlreadyInitialized)
        } else {
            Ok(())
        }
    }

    /// The context after the game was created: the game has the id that the
    /// registry held, and the registry has advanced.
    pub open spec fn after(self) -> Initialize {
        Initialize {
            payer: self.payer,
            tug: Some(Tug::created(self.manager.game, self.payer)),
            manager: self.manager.advanced(),
        }
    }
}

impl PlaceBet {
    /// Whether `amount` can be wagered: not where this bettor has a wager on
    /// this game already, and not where the bettor's balance is short of it.
    pub open spec fn outcome(self, amount: u64) -> Result<(), TugError> {
        if self.bet is Some {
            Err(TugError::DuplicateBet)
        } else if self.payer_lamports < amount {
            Err(TugError::InsufficientFunds)
        } else {
            Ok(())
        }
    }

    /// The context after `amount` was wagered on `side`: the amount has moved
    /// from the bettor into custody, the pool on that side has grown by it,
    /// and the wager is stored.
    pub open spec fn after(self, amount: u64, side: Winner) -> PlaceBet {
        PlaceBet {
            payer_lamports: (self.payer_lamports - amount) as u64,
            tug: self.tug.staked(amount, side),
            manager_lamports: (self.manager_lamports + amount) as u64,
            bet: Some(Bet { lamports: amount, winner: side }),
        }
    }
}

impl ClaimBet {
    /// What the stored wager is owed.
    pub open spec fn due(self) -> nat
        recommends
            self.bet is Some,
    {
        self.tug.payout(self.bet->Some_0)
    }

    /// Whether the wager can be claimed: not where none is stored, not while
    /// the game is on, and not where custody is short of what is owed.
    pub open spec fn outcome(self) -> Result<(), TugError> {
        if self.bet is None {
            Err(TugError::RecordNotFound)
        } else if self.tug.is_game_on() {
            Err(TugError::GameIsNotOver)
        } else if self.due() > self.manager_lamports {
            Err(TugError::InsufficientFunds)
        } else {
            Ok(())
        }
    }

    /// The context after the claim: what was owed has moved from custody to
    /// the claimant, and the wager is gone, whether it won or lost.
    pub open spec fn after(self) -> ClaimBet {
        ClaimBet {
            payer_lamports: (self.payer_lamports + self.due()) as u64,
            tug: self.tug,
            manager_lamports: (self.manager_lamports - self.due()) as u64,
            bet: None,
        }
    }
}

/// Creates the registry, with its counter at 0.
///
/// Fails with `AlreadyInitialized` where the registry exists.
pub fn initialize_manager(ctx: &mut InitializeManager) -> (r: Result<(), TugError>)
    ensures
        r == old(ctx).outcome(),
        r is Ok ==> *final(ctx) == old(ctx).after(),
        r is Err ==> *final(ctx) == *old(ctx),
{
    if ctx.manager.is_some() {
        return Err(TugError::AlreadyInitialized);
    }
    ctx.manager = Some(Manager { game: 0 });
    Ok(())
}

/// Creates a game: marker at the centre, nothing wagered, `payer` as its
/// creator, and as its id the id that the registry holds. The registry then
/// advances to the next id.
///
/// Fails with `AlreadyInitialized` where a game is stored already.
pub fn initialize(ctx: &mut Initialize) -> (r: Result<(), TugError>)
    ensures
        r == old(ctx).outcome(),
        r is Ok ==> *final(ctx) == old(ctx).after(),
        r is Err ==> *final(ctx) == *old(ctx),
{
    if ctx.tug.is_some() {
        return Err(TugError::AlreadyInitialized);
    }
    let authority = ctx.payer;
    ctx.tug = Some(
        Tug { x: 0, id: ctx.manager.game, authority, lamports_left: 0, lamports_right: 0 },
    );
    ctx.manager.game = ctx.manager.game.wrapping_add(1);
    Ok(())
}

/// Pulls the marker one step to the left while the game is on. Once the game
/// is over the pull changes nothing. It never fails.
pub fn pull_left(ctx: &mut PullLeft) -> (r: Result<(), TugError>)
    ensures
        r is Ok,
        final(ctx).tug == old(ctx).tug.pulled(Winner::Left),
{
    if ctx.tug.is_game_on() {
        ctx.tug.x -= 1;
    }
    Ok(())
}

/// Pulls the marker one step to the right while the game is on. Once the
/// game is over the pull changes nothing. It never fails.
pub fn pull_right(ctx: &mut PullRight) -> (r: Result<(), TugError>)
    ensures
        r is Ok,
        final(ctx).tug == old(ctx).tug.pulled(Winner::Right),
{
    if ctx.tug.is_game_on() {
        ctx.tug.x += 1;
    }
    Ok(())
}

/// Wagers `amount` on `side`: moves the amount from the bettor into custody,
/// adds it to the pool on that side, and stores the wager.
///
/// Fails with `DuplicateBet` where this bettor has a wager on this game that
/// was not claimed yet, else with `InsufficientFunds` where the bettor's
/// balance is short of `amount`.
///
/// The amount is more than nothing. The pool that grows and the two balances
/// together each stay within what a `u64` holds.
pub fn place_bet(ctx: &mut PlaceBet, amount: u64, side: Winner) -> (r: Result<(), TugError>)
    requires
        amount > 0,
        old(ctx).tug.pool(side) + amount <= u64::MAX,
        old(ctx).payer_lamports + old(ctx).manager_lamports <= u64::MAX,
    ensures
        r == old(ctx).outcome(amount),
        r is Ok ==> *final(ctx) == old(ctx).after(amount, side),
        r is Err ==> *final(ctx) == *old(ctx),
        old(ctx).bet is Some ==> r == Err::<(), TugError>(TugError::DuplicateBet),
        final(ctx).payer_lamports + final(ctx).manager_lamports == old(ctx).payer_lamports + old(
            ctx,
        ).manager_lamports,
{
    if ctx.bet.is_some() {
        return Err(TugError::DuplicateBet);
    }
    if ctx.payer_lamports < amount {
        return Err(TugError::InsufficientFunds);
    }
    if side == Winner::Left {
        ctx.tug.lamports_left += amount
    } else {
        ctx.tug.lamports_right += amount
    }
    ctx.payer_lamports -= amount;
    ctx.manager_lamports += amount;
    ctx.bet = Some(Bet { lamports: amount, winner: side });
    Ok(())
}

/// Settles the stored wager: pays what the game owes it out of custody, and
/// destroys the wager, whether it won or lost.
///
/// Fails with `RecordNotFound` where no wager is stored, else with
/// `GameIsNotOver` while the game is on, else with `InsufficientFunds` where
/// custody holds less than what is owed.
///
/// A wager on the side that has won comes with a pool on that side that is
/// not empty. The two balances together stay within what a `u64` holds.
pub fn claim_bet(ctx: &mut ClaimBet) -> (r: Result<(), TugError>)
    requires
        old(ctx).payer_lamports + old(ctx).manager_lamports <= u64::MAX,
        old(ctx).bet matches Some(bet) ==> old(ctx).tug.settles(bet),
    ensures
        r == old(ctx).outcome(),
        r is Ok ==> *final(ctx) == old(ctx).after(),
        r is Err ==> *final(ctx) == *old(ctx),
        old(ctx).bet is Some && old(ctx).tug.is_game_on() ==> r == Err::<(), TugError>(
            TugError::GameIsNotOver,
        ),
        final(ctx).tug == old(ctx).tug,
        final(ctx).payer_lamports + final(ctx).manager_lamports == old(ctx).payer_lamports + old(
            ctx,
        ).manager_lamports,
{
    let bet = match ctx.bet {
        None => {
            return Err(TugError::RecordNotFound);
        },
        Some(bet) => bet,
    };
    if ctx.tug.is_game_on() {
        return Err(TugError::GameIsNotOver);
    }
    let due = match payout(&ctx.tug, &bet) {
        None => {
            return Err(TugError::InsufficientFunds);
        },
        Some(due) => due,
    };
    if due > ctx.manager_lamports {
        return Err(TugError::InsufficientFunds);
    }
    ctx.manager_lamports -= due;
    ctx.payer_lamports += due;
    ctx.bet = None;
    Ok(())
}

} // verus!
