use piggy::amm::{
    deposit_quote, init_pool, swap_quote, withdraw_quote, Holder, Pool, PoolState, Side,
};
use piggy::error::ErrorCode;
use piggy::math::isqrt;

fn mint(first: u8) -> [u8; 32] {
    let mut m = [0u8; 32];
    m[0] = first;
    m
}

fn pool(fee_bps: u64) -> Pool {
    init_pool(mint(1), mint(2), fee_bps, 254, 253, false).unwrap()
}

fn funded_user() -> Holder {
    Holder { a: 10_000_000, b: 10_000_000, lp: 0 }
}

#[test]
fn init_pool_orders_and_checks_mints() {
    let p = pool(30);
    assert_eq!(p.mint_a, mint(1));
    assert_eq!(p.mint_b, mint(2));
    assert_eq!(p.fee_bps, 30);
    assert_eq!(init_pool(mint(2), mint(1), 30, 0, 0, false), Err(ErrorCode::InvalidAccount));
    assert_eq!(init_pool(mint(1), mint(1), 30, 0, 0, false), Err(ErrorCode::InvalidAccount));
    let mut high = mint(1);
    high[31] = 9;
    assert!(init_pool(mint(1), high, 30, 0, 0, false).is_ok());
}

#[test]
fn init_pool_rejects_fee_and_existing() {
    assert_eq!(
        init_pool(mint(1), mint(2), 10_001, 0, 0, false),
        Err(ErrorCode::InvalidInstructionData)
    );
    assert_eq!(
        init_pool(mint(1), mint(2), u64::MAX, 0, 0, false),
        Err(ErrorCode::InvalidInstructionData)
    );
    assert!(init_pool(mint(1), mint(2), 10_000, 0, 0, false).is_ok());
    assert_eq!(init_pool(mint(1), mint(2), 30, 0, 0, true), Err(ErrorCode::AlreadyExists));
}

#[test]
fn isqrt_exact_values() {
    assert_eq!(isqrt(0), 0);
    assert_eq!(isqrt(1), 1);
    assert_eq!(isqrt(15), 3);
    assert_eq!(isqrt(16), 4);
    assert_eq!(isqrt(4_000_000_000_000), 2_000_000);
    assert_eq!(isqrt(u128::MAX), u64::MAX);
}

#[test]
fn init_deposit_swap_scenario() {
    let mut st = pool(30).empty_state();
    let mut user = funded_user();
    let lp = st.deposit(&mut user, 1_000_000, 4_000_000, 0).unwrap();
    assert_eq!(lp, 2_000_000);
    assert_eq!((st.reserve_a, st.reserve_b, st.lp_supply), (1_000_000, 4_000_000, 2_000_000));
    assert_eq!(user, Holder { a: 9_000_000, b: 6_000_000, lp: 2_000_000 });
    let old_product = st.reserve_a as u128 * st.reserve_b as u128;
    let out = st.swap(&mut user, Side::AtoB, 1000, 0).unwrap();
    assert_eq!(out, 3984);
    assert_eq!((st.reserve_a, st.reserve_b), (1_001_000, 3_996_016));
    assert_eq!(user.a, 8_999_000);
    assert_eq!(user.b, 6_003_984);
    let new_product = st.reserve_a as u128 * st.reserve_b as u128;
    assert_eq!(new_product, 4_000_012_016_000);
    assert!(new_product >= old_product);
}

#[test]
fn swap_sequence_keeps_product() {
    let mut st = pool(30).empty_state();
    let mut user = funded_user();
    st.deposit(&mut user, 1_000_000, 4_000_000, 0).unwrap();
    let start = st.reserve_a as u128 * st.reserve_b as u128;
    let ops = [(Side::AtoB, 5_000u64), (Side::BtoA, 77_777), (Side::AtoB, 1), (Side::BtoA, 3)];
    for (side, amount) in ops {
        let before = st.reserve_a as u128 * st.reserve_b as u128;
        let _ = st.swap(&mut user, side, amount, 0);
        let after = st.reserve_a as u128 * st.reserve_b as u128;
        assert!(after >= before);
    }
    assert!(st.reserve_a as u128 * st.reserve_b as u128 >= start);
}

#[test]
fn swap_quote_fee_and_errors() {
    assert_eq!(swap_quote(1_000_000, 4_000_000, 30, 1000, 0), Ok(3984));
    assert_eq!(swap_quote(1_000_000, 4_000_000, 0, 1000, 0), Ok(3996));
    assert_eq!(swap_quote(1_000_000, 4_000_000, 30, 1000, 3985), Err(ErrorCode::SlippageExceeded));
    assert_eq!(swap_quote(1_000_000, 4_000_000, 30, 1, 0), Err(ErrorCode::InsufficientLiquidity));
    assert_eq!(swap_quote(0, 4_000_000, 30, 1000, 0), Err(ErrorCode::InsufficientLiquidity));
    assert_eq!(swap_quote(0, 4_000_000, 30, 0, 0), Err(ErrorCode::MathOverflow));
    assert_eq!(swap_quote(1, 1, 10_001, 1, 0), Err(ErrorCode::MathOverflow));
}

#[test]
fn failed_swap_changes_nothing() {
    let mut st = pool(30).empty_state();
    let mut user = funded_user();
    st.deposit(&mut user, 1_000_000, 4_000_000, 0).unwrap();
    let (st0, user0) = (st, user);
    assert_eq!(st.swap(&mut user, Side::AtoB, 1000, 5000), Err(ErrorCode::SlippageExceeded));
    assert_eq!((st, user), (st0, user0));
    assert_eq!(st.swap(&mut user, Side::AtoB, 20_000_000, 0), Err(ErrorCode::MathOverflow));
    assert_eq!((st, user), (st0, user0));
}

#[test]
fn deposit_quote_proportional_and_trimmed() {
    // Supply 2_000_000 against reserves (1_000_000, 4_000_000): 1000 of A backs 2000 LP,
    // which need 8000 of B; the B side is trimmed to that.
    assert_eq!(deposit_quote(1_000_000, 4_000_000, 2_000_000, 1000, 9000, 0), Ok((1000, 4000, 2000)));
    assert_eq!(deposit_quote(1_000_000, 4_000_000, 2_000_000, 1001, 4000, 0), Ok((1000, 4000, 2000)));
    assert_eq!(deposit_quote(3, 7, 5, 2, 100, 0), Ok((2, 5, 3)));
    assert_eq!(
        deposit_quote(1_000_000, 4_000_000, 2_000_000, 1000, 4000, 2001),
        Err(ErrorCode::SlippageExceeded)
    );
    assert_eq!(deposit_quote(0, 0, 0, 0, 5, 0), Err(ErrorCode::InsufficientLiquidity));
    assert_eq!(deposit_quote(0, 4, 2, 5, 5, 0), Err(ErrorCode::MathOverflow));
}

#[test]
fn withdraw_quote_shares_and_errors() {
    assert_eq!(withdraw_quote(1_000_000, 4_000_000, 2_000_000, 500_000, 0, 0), Ok((250_000, 1_000_000)));
    assert_eq!(withdraw_quote(10, 10, 3, 1, 0, 0), Ok((3, 3)));
    assert_eq!(
        withdraw_quote(1_000_000, 4_000_000, 2_000_000, 500_000, 250_001, 0),
        Err(ErrorCode::SlippageExceeded)
    );
    assert_eq!(withdraw_quote(1, 1, 2, 3, 0, 0), Err(ErrorCode::InsufficientLiquidity));
    assert_eq!(withdraw_quote(0, 0, 0, 0, 0, 0), Err(ErrorCode::MathOverflow));
}

#[test]
fn deposit_withdraw_round_trip() {
    let mut st = pool(30).empty_state();
    let mut first = funded_user();
    st.deposit(&mut first, 1_000_003, 4_000_011, 0).unwrap();
    let mut user = funded_user();
    let before = user;
    let lp = st.deposit(&mut user, 12_345, 99_999, 0).unwrap();
    let (out_a, out_b) = st.withdraw(&mut user, lp, 0, 0).unwrap();
    assert!(out_a > 0 && out_b > 0);
    assert_eq!(user.lp, before.lp);
    assert!(user.a <= before.a && user.a + 1 >= before.a);
    assert!(user.b <= before.b && user.b + 1 >= before.b);
}

#[test]
fn first_deposit_round_trip_is_exact() {
    let mut st = pool(0).empty_state();
    let mut user = funded_user();
    let lp = st.deposit(&mut user, 1_000_000, 4_000_000, 0).unwrap();
    assert_eq!(st.withdraw(&mut user, lp, 0, 0), Ok((1_000_000, 4_000_000)));
    assert_eq!(user, funded_user());
    assert_eq!((st.reserve_a, st.reserve_b, st.lp_supply), (0, 0, 0));
}

#[test]
fn deposit_and_withdraw_errors_change_nothing() {
    let mut st = pool(30).empty_state();
    let mut user = Holder { a: 10, b: 10, lp: 0 };
    assert_eq!(st.deposit(&mut user, 11, 10, 0), Err(ErrorCode::MathOverflow));
    assert_eq!(st.deposit(&mut user, 10, 10, 11), Err(ErrorCode::SlippageExceeded));
    assert_eq!(user, Holder { a: 10, b: 10, lp: 0 });
    assert_eq!(st, pool(30).empty_state());
    assert_eq!(st.withdraw(&mut user, 1, 0, 0), Err(ErrorCode::MathOverflow));
    st.deposit(&mut user, 10, 10, 10).unwrap();
    assert_eq!(st.withdraw(&mut user, 11, 0, 0), Err(ErrorCode::InsufficientLiquidity));
    let mut other = Holder { a: 0, b: 0, lp: 0 };
    assert_eq!(st.withdraw(&mut other, 5, 0, 0), Err(ErrorCode::MathOverflow));
    assert_eq!(other, Holder { a: 0, b: 0, lp: 0 });
}

#[test]
fn deposit_does_not_dilute() {
    let mut st = pool(30).empty_state();
    let mut first = funded_user();
    st.deposit(&mut first, 1_000_003, 4_000_011, 0).unwrap();
    let mut user = funded_user();
    st.swap(&mut user, Side::AtoB, 7_777, 0).unwrap();
    let before = st;
    st.deposit(&mut user, 333_333, 999_999, 0).unwrap();
    let (ra0, rb0, s0) = (before.reserve_a as u128, before.reserve_b as u128, before.lp_supply as u128);
    let (ra1, rb1, s1) = (st.reserve_a as u128, st.reserve_b as u128, st.lp_supply as u128);
    assert!(s1 > s0);
    assert!(ra1 * s0 >= ra0 * s1);
    assert!(rb1 * s0 >= rb0 * s1);
}
