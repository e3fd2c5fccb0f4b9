use anchor_lang::prelude::Pubkey;
use tug_of_war::{
    initialize, initialize_manager, pull_left, pull_right, Initialize, InitializeManager, Manager,
    PullLeft, PullRight, Tug, TugError, Winner, FEE_PERCENT, MAX_TUG,
};

fn creator() -> Pubkey {
    Pubkey::new_from_array([7u8; 32])
}

fn game_at(x: i16) -> Tug {
    Tug { x, id: 3, authority: creator(), lamports_left: 11, lamports_right: 22 }
}

fn pull(tug: Tug, side: Winner) -> Tug {
    match side {
        Winner::Left => {
            let mut ctx = PullLeft { tug };
            assert_eq!(pull_left(&mut ctx), Ok(()));
            ctx.tug
        }
        Winner::Right => {
            let mut ctx = PullRight { tug };
            assert_eq!(pull_right(&mut ctx), Ok(()));
            ctx.tug
        }
    }
}

#[test]
fn constants_have_their_values() {
    assert_eq!(MAX_TUG, 250);
    assert_eq!(FEE_PERCENT, 5);
}

#[test]
fn registry_starts_at_zero() {
    let mut ctx = InitializeManager { manager: None };
    assert_eq!(initialize_manager(&mut ctx), Ok(()));
    assert_eq!(ctx.manager, Some(Manager { game: 0 }));
}

#[test]
fn registry_is_created_once() {
    let mut ctx = InitializeManager { manager: Some(Manager { game: 9 }) };
    assert_eq!(initialize_manager(&mut ctx), Err(TugError::AlreadyInitialized));
    assert_eq!(ctx.manager, Some(Manager { game: 9 }));
}

#[test]
fn new_game_takes_the_registry_id() {
    let mut ctx = Initialize { payer: creator(), tug: None, manager: Manager { game: 41 } };
    assert_eq!(initialize(&mut ctx), Ok(()));
    assert_eq!(
        ctx.tug,
        Some(Tug { x: 0, id: 41, authority: creator(), lamports_left: 0, lamports_right: 0 })
    );
    assert_eq!(ctx.manager, Manager { game: 42 });
    assert_eq!(ctx.payer, creator());
}

#[test]
fn games_get_consecutive_ids() {
    let mut manager = Manager { game: 0 };
    for expected in 0u16..5 {
        let mut ctx = Initialize { payer: creator(), tug: None, manager };
        assert_eq!(initialize(&mut ctx), Ok(()));
        assert_eq!(ctx.tug.unwrap().id, expected);
        manager = ctx.manager;
    }
    assert_eq!(manager.game, 5);
}

#[test]
fn registry_wraps_after_the_last_id() {
    let mut ctx = Initialize { payer: creator(), tug: None, manager: Manager { game: u16::MAX } };
    assert_eq!(initialize(&mut ctx), Ok(()));
    assert_eq!(ctx.tug.unwrap().id, u16::MAX);
    assert_eq!(ctx.manager.game, 0);
}

#[test]
fn existing_game_is_not_overwritten() {
    let before = Initialize { payer: creator(), tug: Some(game_at(17)), manager: Manager { game: 4 } };
    let mut ctx = before;
    assert_eq!(initialize(&mut ctx), Err(TugError::AlreadyInitialized));
    assert_eq!(ctx, before);
}

#[test]
fn pulls_move_the_marker_by_one() {
    assert_eq!(pull(game_at(0), Winner::Left).x, -1);
    assert_eq!(pull(game_at(0), Winner::Right).x, 1);
    assert_eq!(pull(game_at(-249), Winner::Left).x, -250);
    assert_eq!(pull(game_at(249), Winner::Right).x, 250);
    assert_eq!(pull(game_at(249), Winner::Left).x, 248);
    assert_eq!(pull(game_at(-249), Winner::Right).x, -248);
}

#[test]
fn pulls_change_nothing_but_the_marker() {
    let after = pull(game_at(5), Winner::Right);
    assert_eq!(after, Tug { x: 6, ..game_at(5) });
}

#[test]
fn pulls_after_the_end_are_absorbed() {
    for x in [250i16, -250, 251, -251, 30000, -30000, i16::MAX, i16::MIN] {
        assert_eq!(pull(game_at(x), Winner::Left), game_at(x));
        assert_eq!(pull(game_at(x), Winner::Right), game_at(x));
    }
}

#[test]
fn game_is_on_strictly_between_the_ends() {
    assert!(game_at(0).is_game_on());
    assert!(game_at(249).is_game_on());
    assert!(game_at(-249).is_game_on());
    assert!(!game_at(250).is_game_on());
    assert!(!game_at(-250).is_game_on());
    assert!(!game_at(i16::MAX).is_game_on());
    assert!(!game_at(i16::MIN).is_game_on());
}

#[test]
fn no_side_has_won_while_the_game_is_on() {
    for x in -249i16..250 {
        assert_eq!(game_at(x).winning_side(), None);
    }
}

#[test]
fn either_end_is_reported_as_right() {
    assert_eq!(game_at(250).winning_side(), Some(Winner::Right));
    assert_eq!(game_at(-250).winning_side(), Some(Winner::Right));
    assert_eq!(game_at(i16::MAX).winning_side(), Some(Winner::Right));
    assert_eq!(game_at(i16::MIN).winning_side(), Some(Winner::Right));
}

#[test]
fn winning_side_is_none_exactly_while_on() {
    for x in i16::MIN..=i16::MAX {
        let tug = game_at(x);
        assert_eq!(tug.winning_side().is_none(), tug.is_game_on());
        assert_eq!(tug.is_game_on(), -250 < x && x < 250);
    }
}

#[test]
fn marker_mirrors_the_pulls_while_the_game_is_on() {
    let pulls = [
        Winner::Right,
        Winner::Right,
        Winner::Left,
        Winner::Right,
        Winner::Left,
        Winner::Left,
        Winner::Left,
    ];
    let mut tug = game_at(0);
    let mut net: i16 = 0;
    for side in pulls {
        tug = pull(tug, side);
        net += if side == Winner::Right { 1 } else { -1 };
        assert_eq!(tug.x, net);
    }
    assert_eq!(tug.x, -1);
}

#[test]
fn right_wins_after_250_pulls() {
    let mut tug = game_at(0);
    for done in 0i16..250 {
        assert_eq!(tug.x, done);
        assert_eq!(tug.winning_side(), None);
        tug = pull(tug, Winner::Right);
    }
    assert_eq!(tug.x, 250);
    assert_eq!(tug.winning_side(), Some(Winner::Right));
    for _ in 0..10 {
        tug = pull(tug, Winner::Right);
        tug = pull(tug, Winner::Left);
    }
    assert_eq!(tug.x, 250);
}

#[test]
fn left_end_stops_the_marker_too() {
    let mut tug = game_at(0);
    for _ in 0..400 {
        tug = pull(tug, Winner::Left);
    }
    assert_eq!(tug.x, -250);
    assert!(!tug.is_game_on());
    tug = pull(tug, Winner::Right);
    assert_eq!(tug.x, -250);
}

#[test]
fn errors_have_their_messages() {
    assert_eq!(TugError::GameIsNotOver.message(), "The Game is not over");
    assert_eq!(TugError::AlreadyInitialized.message(), "The record is already initialized");
    assert_eq!(TugError::DuplicateBet.message(), "The bettor already has a bet on this game");
    assert_eq!(TugError::InsufficientFunds.message(), "The balance is insufficient");
    assert_eq!(TugError::RecordNotFound.message(), "The record was not found");
}
