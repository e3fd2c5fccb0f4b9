//! A verified tug-of-war wagering game.
//!
//! Two factions pull a shared marker; the first to drag it `MAX_TUG` steps to
//! its side ends the game. Wagers are pooled per side, and once the game is
//! over the wagers on the winning side share all that was wagered, less a fee.

pub mod instructions;
pub mod laws;
pub mod payout;
pub mod state;

pub use instructions::{
    claim_bet, initialize, initialize_manager, place_bet, pull_left, pull_right, ClaimBet,
    Initialize, InitializeManager, PlaceBet, PullLeft, PullRight,
};
pub use payout::payout;
pub use state::{Bet, Manager, Tug, TugError, Winner, FEE_PERCENT, MAX_TUG};
