use amm_lab::constants::MINIMUM_LIQUIDITY;
use amm_lab::errors::ErrorCode;
use amm_lab::instructions::deposit_liquidity::{geometric_mean, price_ratio, proportional};
use amm_lab::instructions::withdraw_liquidity::pro_rata;
use amm_lab::instructions::{Deposit, DepositLiquidity, WithdrawLiquidity, Withdrawal};
use amm_lab::state::{Mint, TokenAccount};
use amm_lab::{deposit_liquidity, withdraw_liquidity};

const TOP: u64 = 1 << 63;

fn account(amount: u64) -> TokenAccount {
    TokenAccount { amount }
}

/// A depositor who holds plenty of both assets, before a pool with the given reserves.
fn deposit_into(reserve_a: u64, reserve_b: u64) -> DepositLiquidity {
    DepositLiquidity {
        pool_account_a: account(reserve_a),
        pool_account_b: account(reserve_b),
        deposit_account_a: account(u64::MAX),
        deposit_account_b: account(u64::MAX),
    }
}

fn withdraw_from(reserve_a: u64, reserve_b: u64, supply: u64) -> WithdrawLiquidity {
    WithdrawLiquidity {
        mint_liquidity: Mint { supply },
        pool_account_a: account(reserve_a),
        pool_account_b: account(reserve_b),
    }
}

#[test]
fn minimum_liquidity_is_one_thousand() {
    assert_eq!(MINIMUM_LIQUIDITY, 1000);
}

#[test]
fn first_deposit_at_the_minimum_mints_nothing_usable() {
    let r = deposit_into(0, 0).deposit_liquidity(1000, 1000);
    assert_eq!(r, Ok(Deposit { amount_a: 1000, amount_b: 1000, liquidity: 0 }));
}

#[test]
fn first_deposit_withholds_the_minimum() {
    let r = deposit_into(0, 0).deposit_liquidity(10000, 10000);
    assert_eq!(r, Ok(Deposit { amount_a: 10000, amount_b: 10000, liquidity: 9000 }));
}

#[test]
fn first_deposit_mints_the_geometric_mean() {
    let r = deposit_into(0, 0).deposit_liquidity(2000, 8000);
    assert_eq!(r, Ok(Deposit { amount_a: 2000, amount_b: 8000, liquidity: 3000 }));
    let r = deposit_into(0, 0).deposit_liquidity(5000, 10000);
    assert_eq!(r, Ok(Deposit { amount_a: 5000, amount_b: 10000, liquidity: 6071 }));
}

#[test]
fn first_deposit_below_the_minimum_is_too_small() {
    let ctx = deposit_into(0, 0);
    assert_eq!(ctx.deposit_liquidity(999, 1000), Err(ErrorCode::DepositTooSmall));
    assert_eq!(ctx.deposit_liquidity(1000, 999), Err(ErrorCode::DepositTooSmall));
    assert_eq!(ctx.deposit_liquidity(1, 999_999), Err(ErrorCode::DepositTooSmall));
    assert_eq!(ctx.deposit_liquidity(0, 0), Err(ErrorCode::DepositTooSmall));
    assert_eq!(ctx.deposit_liquidity(0, 5_000_000), Err(ErrorCode::DepositTooSmall));
}

#[test]
fn first_deposit_just_above_the_minimum() {
    let r = deposit_into(0, 0).deposit_liquidity(1001, 1001);
    assert_eq!(r, Ok(Deposit { amount_a: 1001, amount_b: 1001, liquidity: 1 }));
    let r = deposit_into(0, 0).deposit_liquidity(1, 1_000_000);
    assert_eq!(r, Ok(Deposit { amount_a: 1, amount_b: 1_000_000, liquidity: 0 }));
}

#[test]
fn deposit_is_capped_by_the_holdings() {
    let ctx = DepositLiquidity {
        pool_account_a: account(0),
        pool_account_b: account(0),
        deposit_account_a: account(5000),
        deposit_account_b: account(20000),
    };
    let r = ctx.deposit_liquidity(10000, 10000);
    assert_eq!(r, Ok(Deposit { amount_a: 5000, amount_b: 10000, liquidity: 6071 }));
    let r = ctx.deposit_liquidity(u64::MAX, u64::MAX);
    assert_eq!(r, Ok(Deposit { amount_a: 5000, amount_b: 20000, liquidity: 9000 }));
}

#[test]
fn deposit_with_more_of_a_fixes_b() {
    // ratio 2: the offered B stands, A follows
    let r = deposit_into(20000, 10000).deposit_liquidity(1, 500);
    assert_eq!(r, Ok(Deposit { amount_a: 1000, amount_b: 500, liquidity: 707 }));
    let r = deposit_into(20000, 10000).deposit_liquidity(1_000_000, 500);
    assert_eq!(r, Ok(Deposit { amount_a: 1000, amount_b: 500, liquidity: 707 }));
}

#[test]
fn deposit_with_more_of_b_fixes_a() {
    // ratio 1/2: the offered A stands, B is A times the ratio
    let r = deposit_into(10000, 20000).deposit_liquidity(1000, 1);
    assert_eq!(r, Ok(Deposit { amount_a: 1000, amount_b: 500, liquidity: 707 }));
    // an input on which the ratio is not kept: 1 to 2 becomes 101 to 52
    let r = deposit_into(1, 2).deposit_liquidity(100, 100);
    assert_eq!(r, Ok(Deposit { amount_a: 100, amount_b: 50, liquidity: 70 }));
}

#[test]
fn deposit_with_equal_reserves_takes_equal_amounts() {
    let r = deposit_into(10000, 10000).deposit_liquidity(300, 1);
    assert_eq!(r, Ok(Deposit { amount_a: 300, amount_b: 300, liquidity: 300 }));
}

#[test]
fn later_deposits_keep_no_minimum() {
    let r = deposit_into(10000, 10000).deposit_liquidity(1, 1);
    assert_eq!(r, Ok(Deposit { amount_a: 1, amount_b: 1, liquidity: 1 }));
    let r = deposit_into(10000, 10000).deposit_liquidity(0, 0);
    assert_eq!(r, Ok(Deposit { amount_a: 0, amount_b: 0, liquidity: 0 }));
}

#[test]
fn derived_amount_is_rounded_through_the_ratio() {
    // 4/3 is held rounded down, so 3 * 4/3 comes to 3 and not to 4
    let r = deposit_into(4, 3).deposit_liquidity(0, 3);
    assert_eq!(r, Ok(Deposit { amount_a: 3, amount_b: 3, liquidity: 3 }));
    // 3/2 is held exactly
    let r = deposit_into(3, 2).deposit_liquidity(0, 2);
    assert_eq!(r, Ok(Deposit { amount_a: 3, amount_b: 2, liquidity: 2 }));
}

#[test]
fn deposit_into_a_pool_without_b_divides_by_zero() {
    assert_eq!(deposit_into(5, 0).deposit_liquidity(10, 10), Err(ErrorCode::DivisionByZero));
}

#[test]
fn deposit_into_a_pool_without_a_derives_no_b() {
    let r = deposit_into(0, 5).deposit_liquidity(10, 10);
    assert_eq!(r, Ok(Deposit { amount_a: 10, amount_b: 0, liquidity: 0 }));
}

#[test]
fn deposit_reports_overflow() {
    let overflow = Err(ErrorCode::ArithmeticOverflow);
    // an amount that does not fit
    assert_eq!(deposit_into(0, 0).deposit_liquidity(TOP, 1), overflow);
    assert_eq!(deposit_into(0, 0).deposit_liquidity(TOP, 0), overflow);
    assert_eq!(deposit_into(0, 0).deposit_liquidity(1, TOP), overflow);
    // a product that does not fit
    assert_eq!(deposit_into(0, 0).deposit_liquidity(1 << 32, 1 << 31), overflow);
    // a reserve that does not fit
    assert_eq!(deposit_into(TOP, 1).deposit_liquidity(1, 1), overflow);
    assert_eq!(deposit_into(1, TOP).deposit_liquidity(1, 1), overflow);
    assert_eq!(deposit_into(TOP, 0).deposit_liquidity(1, 1), overflow);
    // a derived amount that does not fit
    assert_eq!(deposit_into(1 << 62, 1).deposit_liquidity(0, 4), overflow);
    // a fixed amount that does not fit
    assert_eq!(deposit_into(2, 1).deposit_liquidity(0, TOP), overflow);
    assert_eq!(deposit_into(1, 2).deposit_liquidity(TOP, 0), overflow);
}

#[test]
fn deposit_at_the_edge_of_the_range() {
    let r = deposit_into(0, 0).deposit_liquidity(3_037_000_499, 3_037_000_499);
    assert_eq!(
        r,
        Ok(Deposit {
            amount_a: 3_037_000_499,
            amount_b: 3_037_000_499,
            liquidity: 3_037_000_499 - 1000
        })
    );
    let r = deposit_into(0, 0).deposit_liquidity(TOP - 1, 1);
    assert_eq!(r, Ok(Deposit { amount_a: TOP - 1, amount_b: 1, liquidity: 3_037_000_499 - 1000 }));
    let r = deposit_into(1 << 62, 1).deposit_liquidity(0, 1);
    assert_eq!(r, Ok(Deposit { amount_a: 1 << 62, amount_b: 1, liquidity: 1 << 31 }));
}

#[test]
fn deposit_keeps_the_ratio_where_a_is_not_the_smaller_reserve() {
    let cases: [(u64, u64, u64); 6] = [
        (1_000_003, 999, 12_345),
        (4, 3, 3),
        (20_000, 10_000, 500),
        (7, 7, 1_000),
        (1 << 40, 3, 1_000),
        (999_999_999_989, 1_000_003, 1_000),
    ];
    for (reserve_a, reserve_b, offered) in cases {
        let d = deposit_into(reserve_a, reserve_b).deposit_liquidity(offered, offered).unwrap();
        let old_a = reserve_a as u128;
        let old_b = reserve_b as u128;
        let new_a = old_a + d.amount_a as u128;
        let new_b = old_b + d.amount_b as u128;
        // new_a / new_b <= old_a / old_b
        assert!(new_a * old_b <= old_a * new_b);
        // old_a / old_b - new_a / new_b < 1 / old_b
        assert!(old_a * new_b - new_a * old_b < new_b);
    }
}

#[test]
fn deposit_through_the_entry_point() {
    let ctx = deposit_into(20000, 10000);
    assert_eq!(deposit_liquidity(&ctx, 1, 500), ctx.deposit_liquidity(1, 500));
    assert_eq!(
        deposit_liquidity(&ctx, 1, 500),
        Ok(Deposit { amount_a: 1000, amount_b: 500, liquidity: 707 })
    );
}

#[test]
fn price_ratio_and_proportional_give_the_exact_multiple() {
    let two = price_ratio(20, 10).unwrap();
    assert_eq!(proportional(7, two), Ok(14));
    let half = price_ratio(10, 20).unwrap();
    assert_eq!(proportional(7, half), Ok(3));
    assert_eq!(proportional(8, half), Ok(4));
    let third = price_ratio(1, 3).unwrap();
    assert_eq!(proportional(3, third), Ok(0));
    assert_eq!(proportional(4, third), Ok(1));
    assert_eq!(price_ratio(1, 0).err(), Some(ErrorCode::DivisionByZero));
    assert_eq!(price_ratio(TOP, 0).err(), Some(ErrorCode::ArithmeticOverflow));
    assert_eq!(price_ratio(1, TOP).err(), Some(ErrorCode::ArithmeticOverflow));
    assert_eq!(proportional(TOP, two), Err(ErrorCode::ArithmeticOverflow));
    assert_eq!(proportional(1 << 62, two), Err(ErrorCode::ArithmeticOverflow));
    assert_eq!(proportional((1 << 62) - 1, two), Ok((1 << 63) - 2));
}

#[test]
fn geometric_mean_is_the_integer_square_root_of_the_product() {
    assert_eq!(geometric_mean(1000, 1000), Ok(1000));
    assert_eq!(geometric_mean(2, 1), Ok(1));
    assert_eq!(geometric_mean(0, 77), Ok(0));
    assert_eq!(geometric_mean(999, 1001), Ok(999));
    assert_eq!(geometric_mean(12_345, 67_890), Ok(28_949));
    assert_eq!(geometric_mean(1 << 32, 1 << 31), Err(ErrorCode::ArithmeticOverflow));
    for (a, b) in [(3u64, 5u64), (17, 19), (1_000_003, 999_983), (TOP - 1, 1)] {
        let r = geometric_mean(a, b).unwrap() as u128;
        let n = a as u128 * b as u128;
        assert!(r * r <= n && n < (r + 1) * (r + 1));
    }
}

#[test]
fn withdrawal_pays_the_share_of_each_reserve() {
    let r = withdraw_from(10000, 20000, 9000).withdraw_liquidity(4500);
    assert_eq!(r, Ok(Withdrawal { amount_a: 4500, amount_b: 9000, liquidity: 4500 }));
}

#[test]
fn withdrawal_rounds_down() {
    let r = withdraw_from(10, 19, 0).withdraw_liquidity(150);
    assert_eq!(r, Ok(Withdrawal { amount_a: 1, amount_b: 2, liquidity: 150 }));
    let r = withdraw_from(10, 19, 0).withdraw_liquidity(99);
    assert_eq!(r, Ok(Withdrawal { amount_a: 0, amount_b: 1, liquidity: 99 }));
}

#[test]
fn withdrawal_of_nothing_pays_nothing() {
    let r = withdraw_from(10000, 20000, 9000).withdraw_liquidity(0);
    assert_eq!(r, Ok(Withdrawal { amount_a: 0, amount_b: 0, liquidity: 0 }));
}

#[test]
fn withdrawal_counts_the_withheld_shares_as_outstanding() {
    // all 9000 minted shares stand for nine tenths of the pool
    let r = withdraw_from(10000, 10000, 9000).withdraw_liquidity(9000);
    assert_eq!(r, Ok(Withdrawal { amount_a: 9000, amount_b: 9000, liquidity: 9000 }));
}

#[test]
fn withdrawal_does_not_ask_who_holds_the_shares() {
    // more shares than exist: the amounts exceed the reserves, and the ledger refuses the move
    let r = withdraw_from(100, 100, 0).withdraw_liquidity(2000);
    assert_eq!(r, Ok(Withdrawal { amount_a: 200, amount_b: 200, liquidity: 2000 }));
}

#[test]
fn withdrawal_reports_overflow() {
    let overflow = Err(ErrorCode::ArithmeticOverflow);
    assert_eq!(withdraw_from(1, 1, 0).withdraw_liquidity(TOP), overflow);
    assert_eq!(withdraw_from(TOP, 1, 0).withdraw_liquidity(1), overflow);
    assert_eq!(withdraw_from(1, TOP, 0).withdraw_liquidity(1), overflow);
    assert_eq!(withdraw_from(1 << 31, 1, 0).withdraw_liquidity(1 << 32), overflow);
    assert_eq!(withdraw_from(1, 1 << 31, 0).withdraw_liquidity(1 << 32), overflow);
    assert_eq!(withdraw_from(1, 1, u64::MAX).withdraw_liquidity(1), overflow);
    assert_eq!(withdraw_from(1, 1, u64::MAX - 999).withdraw_liquidity(1), overflow);
    assert_eq!(withdraw_from(1, 1, TOP - 1000).withdraw_liquidity(1), overflow);
}

#[test]
fn withdrawal_at_the_edge_of_the_range() {
    let r = withdraw_from(1, 1, TOP - 1001).withdraw_liquidity(1);
    assert_eq!(r, Ok(Withdrawal { amount_a: 0, amount_b: 0, liquidity: 1 }));
    let r = withdraw_from(TOP - 1, 1 << 31, 0).withdraw_liquidity(1);
    assert_eq!(
        r,
        Ok(Withdrawal { amount_a: (TOP - 1) / 1000, amount_b: (1 << 31) / 1000, liquidity: 1 })
    );
}

#[test]
fn withdrawal_through_the_entry_point() {
    let ctx = withdraw_from(10000, 20000, 9000);
    assert_eq!(withdraw_liquidity(&ctx, 4500), ctx.withdraw_liquidity(4500));
    assert_eq!(
        withdraw_liquidity(&ctx, 4500),
        Ok(Withdrawal { amount_a: 4500, amount_b: 9000, liquidity: 4500 })
    );
}

#[test]
fn pro_rata_is_the_floored_share() {
    assert_eq!(pro_rata(4500, 10000, 9000), Ok(4500));
    assert_eq!(pro_rata(1, 1999, 0), Ok(1));
    assert_eq!(pro_rata(1, 999, 0), Ok(0));
    assert_eq!(pro_rata(7, 1_000_000, 2000), Ok(2333));
}

#[test]
fn round_trip_returns_no_more_than_was_paid_in() {
    for (a, b) in [(10_000u64, 40_000u64), (1000, 1000), (1234, 987_654), (3_000_000, 7)] {
        let d = deposit_into(0, 0).deposit_liquidity(a, b).unwrap();
        assert_eq!((d.amount_a, d.amount_b), (a, b));
        let w = withdraw_from(d.amount_a, d.amount_b, d.liquidity)
            .withdraw_liquidity(d.liquidity)
            .unwrap();
        assert!(w.amount_a <= a && w.amount_b <= b);
        // with the withheld shares on top, the formula gives back just what was paid in
        assert_eq!(pro_rata(d.liquidity + MINIMUM_LIQUIDITY, a, d.liquidity), Ok(a));
        assert_eq!(pro_rata(d.liquidity + MINIMUM_LIQUIDITY, b, d.liquidity), Ok(b));
    }
}

#[test]
fn round_trip_in_numbers() {
    let d = deposit_into(0, 0).deposit_liquidity(10_000, 40_000).unwrap();
    assert_eq!(d, Deposit { amount_a: 10_000, amount_b: 40_000, liquidity: 19_000 });
    let w = withdraw_from(10_000, 40_000, 19_000).withdraw_liquidity(19_000);
    assert_eq!(w, Ok(Withdrawal { amount_a: 9_500, amount_b: 38_000, liquidity: 19_000 }));
}
