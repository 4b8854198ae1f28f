use pixel_war::payout::compute_payout;
use pixel_war::Contract;
use pixel_war::GameError;
use pixel_war::PixelInfo;

const X: u64 = 101;
const Y: u64 = 202;
const Z: u64 = 303;

/// A 10 x 10 grid, start price 1, multiplier 2, running from 0 for 1000 ms.
fn small_game() -> Contract {
    Contract::init(10, 10, 1, 2, 1000, 0, 500, 7)
}

#[test]
fn price_doubles_with_each_claim() {
    let mut c = small_game();
    assert!(c.set_pixel(1, 3, 4, X, 2, 10, 500, 8).is_ok());
    assert_eq!(c.get_pixel(3, 4).unwrap().price, 2);
    assert!(c.set_pixel(2, 3, 4, X, 4, 11, 500, 9).is_ok());
    assert_eq!(c.get_pixel(3, 4).unwrap().price, 4);
    assert!(c.set_pixel(3, 3, 4, Y, 8, 12, 500, 10).is_ok());
    assert_eq!(c.get_pixel(3, 4).unwrap().price, 8);
}

#[test]
fn price_survives_ownership_change() {
    let mut c = small_game();
    assert!(c.set_pixel(1, 0, 0, X, 2, 10, 500, 8).is_ok());
    assert!(c.set_pixel(1, 0, 0, Y, 4, 11, 500, 9).is_ok());
    // A later claim by the first owner builds on the raised price.
    assert_eq!(
        c.set_pixel(1, 0, 0, X, 7, 12, 500, 10),
        Err(GameError::InsufficientPayment)
    );
    assert!(c.set_pixel(1, 0, 0, X, 8, 13, 500, 11).is_ok());
    assert_eq!(c.get_pixel(0, 0).unwrap().price, 8);
}

#[test]
fn ledger_counts_follow_ownership() {
    let mut c = small_game();
    assert!(c.set_pixel(1, 0, 0, X, 2, 10, 500, 8).is_ok());
    assert!(c.set_pixel(1, 1, 0, X, 2, 11, 500, 9).is_ok());
    assert_eq!(c.ledger.count_of(X), 2);
    assert_eq!(c.ledger.count_of(Y), 0);
    // Y takes one of X's cells: one count moves over.
    assert!(c.set_pixel(1, 0, 0, Y, 4, 12, 500, 10).is_ok());
    assert_eq!(c.ledger.count_of(X), 1);
    assert_eq!(c.ledger.count_of(Y), 1);
}

#[test]
fn recolor_by_owner_keeps_count() {
    let mut c = small_game();
    assert!(c.set_pixel(1, 5, 5, X, 2, 10, 500, 8).is_ok());
    assert_eq!(c.ledger.count_of(X), 1);
    assert!(c.set_pixel(9, 5, 5, X, 4, 11, 500, 9).is_ok());
    assert_eq!(c.ledger.count_of(X), 1);
    assert_eq!(c.get_pixel(5, 5).unwrap().color, 9);
}

#[test]
fn insufficient_payment_changes_nothing() {
    let mut c = small_game();
    assert!(c.set_pixel(1, 2, 2, X, 2, 10, 600, 8).is_ok());
    let before = c.get_pixel(2, 2).unwrap();
    assert_eq!(
        c.set_pixel(7, 2, 2, Y, 3, 11, 700, 9),
        Err(GameError::InsufficientPayment)
    );
    let after = c.get_pixel(2, 2).unwrap();
    assert_eq!(before, after);
    assert_eq!(c.ledger.count_of(X), 1);
    assert_eq!(c.ledger.count_of(Y), 0);
    // The reward pool still holds its last successful snapshot.
    assert_eq!(c.reward_dist_balance, 600);
}

#[test]
fn out_of_bounds_rejected_on_both_axes() {
    let mut c = small_game();
    assert_eq!(
        c.set_pixel(1, 10, 0, X, 100, 10, 500, 8),
        Err(GameError::OutOfBounds)
    );
    assert_eq!(
        c.set_pixel(1, 0, 10, X, 100, 10, 500, 8),
        Err(GameError::OutOfBounds)
    );
    assert!(c.get_pixel(10, 0).is_none());
    assert!(c.get_pixel(0, 10).is_none());
    assert_eq!(c.ledger.count_of(X), 0);
}

#[test]
fn corner_cells_are_claimable() {
    let mut c = small_game();
    assert!(c.set_pixel(1, 9, 9, X, 2, 10, 500, 8).is_ok());
    assert!(c.set_pixel(1, 0, 9, X, 2, 11, 500, 9).is_ok());
    assert!(c.set_pixel(1, 9, 0, X, 2, 12, 500, 10).is_ok());
    assert_eq!(c.ledger.count_of(X), 3);
}

#[test]
fn claims_fail_once_round_is_over() {
    let mut c = small_game();
    assert_eq!(
        c.set_pixel(1, 0, 0, X, 100, 1000, 500, 8),
        Err(GameError::RoundOver)
    );
    assert_eq!(
        c.set_pixel(1, 0, 0, X, 100, 5000, 500, 8),
        Err(GameError::RoundOver)
    );
    assert!(c.get_pixel(0, 0).is_none());
}

#[test]
fn withdrawal_fails_while_round_runs() {
    let mut c = small_game();
    assert_eq!(c.withdraw(X, 999), Err(GameError::RoundStillActive));
    assert!(c.withdraw(X, 1000).is_ok());
}

#[test]
fn round_boundary_is_inclusive() {
    let c = small_game();
    assert!(!c.is_game_finished(999));
    assert!(c.is_game_finished(1000));
    assert_eq!(c.game_finish_timestamp(), 1000);
}

#[test]
fn second_withdrawal_rejected() {
    let mut c = small_game();
    assert!(c.set_pixel(1, 0, 0, X, 2, 10, 1000, 8).is_ok());
    assert_eq!(c.withdraw(X, 1000), Ok(5));
    assert_eq!(c.withdraw(X, 2000), Err(GameError::AlreadyWithdrawn));
    // An account without cells gets its single zero withdrawal, once.
    assert_eq!(c.withdraw(Y, 1000), Ok(0));
    assert_eq!(c.withdraw(Y, 1000), Err(GameError::AlreadyWithdrawn));
}

#[test]
fn payout_uses_twice_capacity_divisor() {
    // pool 1000, one cell of 100, divisor 200.
    let mut c = small_game();
    assert!(c.set_pixel(1, 0, 0, X, 2, 10, 1000, 8).is_ok());
    assert_eq!(c.withdraw(X, 1000), Ok(5));
}

#[test]
fn payout_floors_fractions() {
    let mut c = small_game();
    assert!(c.set_pixel(1, 0, 0, X, 2, 10, 399, 8).is_ok());
    // 399 * 1 / 200 rounds down to 1.
    assert_eq!(c.withdraw(X, 1000), Ok(1));
}

#[test]
fn payout_of_full_grid_owner_is_half_pool() {
    let mut c = Contract::init(2, 2, 1, 2, 1000, 0, 0, 7);
    for x in 0u32..2 {
        for y in 0u32..2 {
            assert!(c.set_pixel(1, x, y, X, 2, 10, 801, 8).is_ok());
        }
    }
    // 801 * 4 / 8 == 400: at most half the pool is ever distributed.
    assert_eq!(c.withdraw(X, 1000), Ok(400));
}

#[test]
fn payout_handles_huge_pools() {
    let mut c = small_game();
    assert!(c.set_pixel(1, 0, 0, X, 2, 10, u128::MAX, 8).is_ok());
    assert_eq!(c.withdraw(X, 1000), Ok(u128::MAX / 200));
}

#[test]
fn price_overflow_rejected() {
    let mut c = Contract::init(10, 10, u128::MAX / 2 + 1, 2, 1000, 0, 500, 7);
    assert_eq!(
        c.set_pixel(1, 0, 0, X, u128::MAX, 10, 500, 8),
        Err(GameError::PriceOverflow)
    );
    assert!(c.get_pixel(0, 0).is_none());
    // A start price just inside the range still admits one claim.
    let mut ok = Contract::init(10, 10, u128::MAX / 2, 2, 1000, 0, 500, 7);
    assert!(ok.set_pixel(1, 0, 0, X, u128::MAX, 10, 500, 8).is_ok());
    assert_eq!(ok.get_pixel(0, 0).unwrap().price, u128::MAX - 1);
}

#[test]
fn reward_pool_frozen_at_last_claim() {
    let mut c = small_game();
    assert!(c.set_pixel(1, 0, 0, X, 2, 10, 600, 8).is_ok());
    assert!(c.set_pixel(1, 1, 0, X, 2, 20, 950, 9).is_ok());
    // Balance reported after the round's end never reaches the pool.
    assert_eq!(c.withdraw(X, 1000), Ok(950 * 2 / 200));
}

#[test]
fn get_pixel_reports_claim() {
    let mut c = small_game();
    assert!(c.get_pixel(4, 6).is_none());
    assert!(c.set_pixel(77, 4, 6, X, 2, 10, 500, 8).is_ok());
    let p = c.get_pixel(4, 6).unwrap();
    assert_eq!(
        p,
        PixelInfo { owner: X, price: 2, color: 77, position_x: 4, position_y: 6 }
    );
}

#[test]
fn get_field_row_lists_row_in_column_order() {
    let mut c = small_game();
    assert!(c.set_pixel(3, 7, 2, X, 2, 10, 500, 8).is_ok());
    assert!(c.set_pixel(1, 1, 2, Y, 2, 11, 500, 9).is_ok());
    assert!(c.set_pixel(2, 4, 2, Z, 2, 12, 500, 10).is_ok());
    assert!(c.set_pixel(9, 5, 3, X, 2, 13, 500, 11).is_ok());
    let row: Vec<PixelInfo> = c.get_field_row(2);
    let owners: Vec<u64> = row.iter().map(|p| p.owner).collect();
    assert_eq!(owners, vec![Y, Z, X]);
    assert!(row.iter().all(|p| p.position_y == 2));
    assert_eq!(c.get_field_row(9).len(), 0);
    assert_eq!(c.get_field_row(10).len(), 0);
}

#[test]
fn blocks_unchanged_counts_from_last_claim() {
    let mut c = small_game();
    assert_eq!(c.number_of_blocks_unchanged(7), 0);
    assert_eq!(c.number_of_blocks_unchanged(12), 5);
    assert!(c.set_pixel(1, 0, 0, X, 2, 10, 500, 30).is_ok());
    assert_eq!(c.number_of_blocks_unchanged(32), 2);
}

#[test]
fn error_messages_match_host_wording() {
    assert_eq!(GameError::OutOfBounds.message(), "incorrect coordinates");
    assert_eq!(GameError::RoundOver.message(), "the game is already finished");
    assert_eq!(GameError::RoundStillActive.message(), "the game is still going on");
    assert_eq!(
        GameError::InsufficientPayment.message(),
        "not enough tokens attached"
    );
    assert_eq!(
        GameError::PriceOverflow.message(),
        "the pixel price cannot rise further"
    );
    assert_eq!(
        GameError::AlreadyWithdrawn.message(),
        "the reward was already withdrawn"
    );
}

#[test]
fn example_scenario_end_to_end() {
    // 10 x 10 grid, start price 1, multiplier 2, pool 1000 at round end.
    let mut c = Contract::init(10, 10, 1, 2, 1000, 0, 0, 7);
    assert!(c.set_pixel(1, 0, 0, X, 2, 10, 500, 8).is_ok());
    assert_eq!(c.get_pixel(0, 0).unwrap().price, 2);
    assert!(c.set_pixel(2, 0, 0, Y, 4, 20, 1000, 9).is_ok());
    assert_eq!(c.get_pixel(0, 0).unwrap().price, 4);
    assert_eq!(c.ledger.count_of(X), 0);
    assert_eq!(c.ledger.count_of(Y), 1);
    // Round over; pool frozen at 1000.
    assert_eq!(c.withdraw(Y, 1000), Ok(5));
    assert_eq!(c.withdraw(X, 1000), Ok(0));
    assert_eq!(c.withdraw(Y, 1500), Err(GameError::AlreadyWithdrawn));
}

#[test]
fn compute_payout_matches_formula() {
    assert_eq!(compute_payout(1000, 1, 100), 5);
    assert_eq!(compute_payout(1000, 100, 100), 500);
    assert_eq!(compute_payout(0, 100, 100), 0);
    assert_eq!(compute_payout(199, 1, 100), 0);
    assert_eq!(compute_payout(u128::MAX, 0x8000_0000, 0x8000_0000), u128::MAX / 2);
}
