//! The records of the game: the registry of game ids, a game, and a wager.

use anchor_lang::prelude::Pubkey;
use vstd::prelude::*;

verus! {

/// `anchor_lang::prelude::Pubkey`, the 32-byte address of an account. The
/// library only carries such a value from a caller into a record; nothing is
/// claimed of what it holds.
#[verifier::external_type_specification]
#[verifier::external_body]
pub struct ExPubkey(Pubkey);

/// The number of steps from the centre at which a game ends.
pub const MAX_TUG: u16 = 250;

/// The share of the whole pool, in percent, that is withheld at settlement.
pub const FEE_PERCENT: u64 = 5;

/// A side of the rope.
#[derive(Clone, Copy, Debug, PartialEq, Eq, Structural)]
pub enum Winner {
    Left,
    Right,
}

/// Why an operation was refused. A refused operation changes nothing.
#[derive(Clone, Copy, Debug, PartialEq, Eq, Structural)]
pub enum TugError {
    /// The record to create is already there.
    AlreadyInitialized,
    /// The bettor already has a wager on this game that was not claimed yet.
    DuplicateBet,
    /// A claim was made while the game is still being played.
    GameIsNotOver,
    /// The balance to take from holds less than the amount to move.
    InsufficientFunds,
    /// There is no record where one is needed.
    RecordNotFound,
}

/// The registry that issues game ids.
#[derive(Clone, Copy, Debug, PartialEq, Eq, Structural)]
pub struct Manager {
    /// The id that the next game will get.
    pub game: u16,
}

/// One game.
#[derive(Clone, Copy, Debug, PartialEq, Eq)]
pub struct Tug {
    /// The marker's position: pulls to the right less pulls to the left.
    pub x: i16,
    /// The id that the registry issued for this game.
    pub id: u16,
    /// Who created the game.
    pub authority: Pubkey,
    /// All that was ever wagered on the left side.
    pub lamports_left: u64,
    /// All that was ever wagered on the right side.
    pub lamports_right: u64,
}

/// One wager.
#[derive(Clone, Copy, Debug, PartialEq, Eq, Structural)]
pub struct Bet {
    /// The amount wagered.
    pub lamports: u64,
    /// The side it was wagered on.
    pub winner: Winner,
}

impl TugError {
    /// What went wrong, in words.
    pub open spec fn wording(&self) -> Seq<char> {
        match self {
            TugError::AlreadyInitialized => "The record is already initialized"@,
            TugError::DuplicateBet => "The bettor already has a bet on this game"@,
            TugError::GameIsNotOver => "The Game is not over"@,
            TugError::InsufficientFunds => "The balance is insufficient"@,
            TugError::RecordNotFound => "The record was not found"@,
        }
    }

    /// What went wrong, in words.
    pub fn message(&self) -> (text: &'static str)
        ensures
            text@ == self.wording(),
    {
        match self {
            TugError::AlreadyInitialized => "The record is already initialized",
            TugError::DuplicateBet => "The bettor already has a bet on this game",
            TugError::GameIsNotOver => "The Game is not over",
            TugError::InsufficientFunds => "The balance is insufficient",
            TugError::RecordNotFound => "The record was not found",
        }
    }
}

impl Winner {
    /// What one pull to this side adds to the marker's position.
    pub open spec fn step(self) -> int {
        match self {
            Winner::Left => -1,
            Winner::Right => 1,
        }
    }
}

/// Whether a marker at `x` is still short of both ends.
pub open spec fn in_play(x: int) -> bool {
    -(MAX_TUG as int) < x < MAX_TUG as int
}

impl Tug {
    /// The game is being played as long as the marker is short of both ends.
    pub open spec fn spec_is_game_on(&self) -> bool {
        in_play(self.x as int)
    }

    /// The side that has won: none while the game is on, and `Right` once the
    /// marker has reached either end.
    pub open spec fn spec_winning_side(&self) -> Option<Winner> {
        if in_play(self.x as int) {
            None
        } else {
            Some(Winner::Right)
        }
    }

    /// All that was wagered on `side`.
    pub open spec fn pool(&self, side: Winner) -> nat {
        match side {
            Winner::Left => self.lamports_left as nat,
            Winner::Right => self.lamports_right as nat,
        }
    }

    /// All that was wagered on the game.
    pub open spec fn total(&self) -> nat {
        self.lamports_left as nat + self.lamports_right as nat
    }

    /// The game after one pull to `side`: the marker moves by one step while
    /// the game is on, and nothing changes once it is over.
    pub open spec fn pulled(self, side: Winner) -> Tug {
        if self.spec_is_game_on() {
            Tug { x: (self.x + side.step()) as i16, ..self }
        } else {
            self
        }
    }

    /// The game after `amount` more was wagered on `side`.
    pub open spec fn staked(self, amount: u64, side: Winner) -> Tug {
        match side {
            Winner::Left => Tug { lamports_left: (self.lamports_left + amount) as u64, ..self },
            Winner::Right => Tug { lamports_right: (self.lamports_right + amount) as u64, ..self },
        }
    }

    /// Whether `bet` can be a wager on this game: it is worth something, and
    /// the pool on its side holds at least its amount.
    pub open spec fn backs(&self, bet: Bet) -> bool {
        0 < bet.lamports <= self.pool(bet.winner)
    }

    /// Whether what this game owes to `bet` is defined: where the side of
    /// `bet` has won, the pool on that side is not empty. A game settles
    /// every wager that it backs.
    pub open spec fn settles(&self, bet: Bet) -> bool {
        self.spec_winning_side() == Some(bet.winner) ==> self.pool(bet.winner) > 0
    }

    #[verifier::when_used_as_spec(spec_is_game_on)]
    pub fn is_game_on(&self) -> (on: bool)
        ensures
            on == self.spec_is_game_on(),
    {
        self.x < MAX_TUG as i16 && self.x > -(MAX_TUG as i16)
    }

    #[verifier::when_used_as_spec(spec_winning_side)]
    pub fn winning_side(&self) -> (side: Option<Winner>)
        ensures
            side == self.spec_winning_side(),
            side is None <==> self.spec_is_game_on(),
    {
        return if self.x >= MAX_TUG as i16 {
            Some(Winner::Right)
        } else if self.x <= -(MAX_TUG as i16) {
            Some(Winner::Right)
        } else {
            None
        };
    }
}

} // verus!
