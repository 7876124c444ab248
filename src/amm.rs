use vstd::prelude::*;

use crate::address::{address_lt, lex_lt, Address};
use crate::error::ErrorCode;
use crate::instruction::{decode_amm, decode_amm_spec, AmmInstruction};
use crate::pda::{check_program_address, program_address_of, seeds_two, MINT_POOL_SEED, POOL_SEED};
use crate::math::{
    ceil_div, floor_sqrt, is_floor_sqrt, isqrt, lemma_floor_sqrt_exists, lemma_floor_sqrt_fits,
    min_int,
};

verus! {

/// Denominator of the swap fee, which is given in basis points.
pub const FEE_DENOMINATOR: u64 = 10000;

/// Decimals of the pool's LP mint.
pub const LP_DECIMALS: u8 = 6;

/// Direction of a swap.
#[derive(Debug, Clone, Copy, PartialEq, Eq, Structural)]
pub enum Side {
    AtoB,
    BtoA,
}

/// Persistent configuration of a pool, stored at the PDA `["pool", mint_a, mint_b]`.
#[derive(Debug, Clone, Copy, PartialEq, Eq)]
pub struct Pool {
    pub mint_a: Address,
    pub mint_b: Address,
    pub fee_bps: u64,
    pub bump_pool: u8,
    pub bump_mint_pool: u8,
}

/// A pool together with the balances derived from its custody accounts:
/// the two reserves and the supply of the LP mint.
#[derive(Debug, Clone, Copy, PartialEq, Eq)]
pub struct PoolState {
    pub pool: Pool,
    pub reserve_a: u64,
    pub reserve_b: u64,
    pub lp_supply: u64,
}

/// The caller's balances of token A, token B and LP tokens.
#[derive(Debug, Clone, Copy, PartialEq, Eq, Structural)]
pub struct Holder {
    pub a: u64,
    pub b: u64,
    pub lp: u64,
}

impl PoolState {
    /// A pool holds liquidity exactly when LP tokens are outstanding, and its fee is a
    /// fraction of one.
    pub open spec fn wf(self) -> bool {
        &&& self.pool.fee_bps <= FEE_DENOMINATOR
        &&& (self.lp_supply == 0) == (self.reserve_a == 0)
        &&& (self.lp_supply == 0) == (self.reserve_b == 0)
    }

    /// The constant-product invariant's `k`.
    pub open spec fn product(self) -> int {
        self.reserve_a * self.reserve_b
    }
}

/// Outcome of pool creation.
pub open spec fn init_pool_spec(
    mint_a: Address,
    mint_b: Address,
    fee_bps: u64,
    bump_pool: u8,
    bump_mint_pool: u8,
    already_initialized: bool,
) -> Result<Pool, ErrorCode> {
    if already_initialized {
        Err(ErrorCode::AlreadyExists)
    } else if fee_bps > FEE_DENOMINATOR {
        Err(ErrorCode::InvalidInstructionData)
    } else if !lex_lt(mint_a@, mint_b@) {
        Err(ErrorCode::InvalidAccount)
    } else {
        Ok(Pool { mint_a, mint_b, fee_bps, bump_pool, bump_mint_pool })
    }
}

/// Creates a pool: fails if its account already exists, if the fee exceeds 100%, or
/// unless `mint_a < mint_b` byte-wise (which also rules out equal mints).
pub fn init_pool(
    mint_a: Address,
    mint_b: Address,
    fee_bps: u64,
    bump_pool: u8,
    bump_mint_pool: u8,
    already_initialized: bool,
) -> (r: Result<Pool, ErrorCode>)
    ensures
        r == init_pool_spec(mint_a, mint_b, fee_bps, bump_pool, bump_mint_pool, already_initialized),
{
    if already_initialized {
        Err(ErrorCode::AlreadyExists)
    } else if fee_bps > FEE_DENOMINATOR {
        Err(ErrorCode::InvalidInstructionData)
    } else if !address_lt(&mint_a, &mint_b) {
        Err(ErrorCode::InvalidAccount)
    } else {
        Ok(Pool { mint_a, mint_b, fee_bps, bump_pool, bump_mint_pool })
    }
}

impl Pool {
    /// An empty pool state for a freshly created pool.
    pub fn empty_state(self) -> (r: PoolState)
        ensures
            r == (PoolState { pool: self, reserve_a: 0, reserve_b: 0, lp_supply: 0 }),
            self.fee_bps <= FEE_DENOMINATOR ==> r.wf(),
    {
        PoolState { pool: self, reserve_a: 0, reserve_b: 0, lp_supply: 0 }
    }
}

impl Pool {
    /// Address of the pool's state account, `["pool", mint_a, mint_b]` with its bump.
    pub open spec fn pool_address(self, program_id: Address) -> Option<Seq<u8>> {
        program_address_of(
            seq![POOL_SEED@, self.mint_a@, self.mint_b@, seq![self.bump_pool]],
            program_id@,
        )
    }

    /// Address of the pool's LP mint, `["mint_pool", mint_a, mint_b]` with its bump.
    pub open spec fn mint_pool_address(self, program_id: Address) -> Option<Seq<u8>> {
        program_address_of(
            seq![MINT_POOL_SEED@, self.mint_a@, self.mint_b@, seq![self.bump_mint_pool]],
            program_id@,
        )
    }

    /// Accepts the presented pool and LP mint accounts only if both re-derive from the
    /// pool's mints and bumps.
    pub fn verify_addresses(
        &self,
        program_id: &Address,
        pool_address: &Address,
        mint_pool_address: &Address,
    ) -> (r: Result<(), ErrorCode>)
        ensures
            r is Ok <==> self.pool_address(*program_id) == Some(pool_address@)
                && self.mint_pool_address(*program_id) == Some(mint_pool_address@),
            r is Err ==> r == Err::<(), ErrorCode>(ErrorCode::InvalidAccount),
    {
        let pool_tag = POOL_SEED;
        let seeds = seeds_two(&pool_tag, &self.mint_a, &self.mint_b, self.bump_pool);
        match check_program_address(&seeds, program_id, pool_address) {
            Ok(()) => {},
            Err(e) => return Err(e),
        }
        let mint_tag = MINT_POOL_SEED;
        let seeds = seeds_two(&mint_tag, &self.mint_a, &self.mint_b, self.bump_mint_pool);
        check_program_address(&seeds, program_id, mint_pool_address)
    }
}

/// Amounts `(Δa, Δb, lp_minted)` of a deposit of at most `a_max` and `b_max`.
/// The first deposit sets the ratio and mints `floor(sqrt(Δa·Δb))`; later ones mint the
/// smaller of the two proportional shares and charge each side the rounded-up amount
/// that backs it.
pub open spec fn deposit_quote_spec(
    r_a: u64,
    r_b: u64,
    s: u64,
    a_max: u64,
    b_max: u64,
    lp_min: u64,
) -> Result<(u64, u64, u64), ErrorCode> {
    if s == 0 {
        let lp = floor_sqrt((a_max * b_max) as nat);
        if lp == 0 {
            Err(ErrorCode::InsufficientLiquidity)
        } else if lp < lp_min {
            Err(ErrorCode::SlippageExceeded)
        } else {
            Ok((a_max, b_max, lp as u64))
        }
    } else if r_a == 0 || r_b == 0 {
        Err(ErrorCode::MathOverflow)
    } else {
        let lp = min_int(a_max * s / r_a as int, b_max * s / r_b as int);
        if lp > u64::MAX {
            Err(ErrorCode::MathOverflow)
        } else if lp == 0 {
            Err(ErrorCode::InsufficientLiquidity)
        } else if lp < lp_min {
            Err(ErrorCode::SlippageExceeded)
        } else {
            Ok(
                (
                    ceil_div(lp * r_a, s as int) as u64,
                    ceil_div(lp * r_b, s as int) as u64,
                    lp as u64,
                ),
            )
        }
    }
}

proof fn lemma_ceil_share(lp: int, r: int, s: int, m: int)
    requires
        s > 0,
        r > 0,
        0 <= lp <= m * s / r,
        0 <= m,
    ensures
        0 <= ceil_div(lp * r, s) <= m,
{
    assert(lp * r <= (m * s / r) * r) by (nonlinear_arith)
        requires
            lp <= m * s / r,
            r > 0,
    ;
    assert((m * s / r) * r <= m * s) by (nonlinear_arith)
        requires
            r > 0,
            m * s >= 0,
    ;
    assert(0 <= (lp * r + s - 1) / s <= m) by (nonlinear_arith)
        requires
            s > 0,
            lp * r <= m * s,
            lp * r >= 0,
    ;
}

/// Computes the amounts of a deposit, as `deposit_quote_spec` states.
pub fn deposit_quote(r_a: u64, r_b: u64, s: u64, a_max: u64, b_max: u64, lp_min: u64) -> (r: Result<
    (u64, u64, u64),
    ErrorCode,
>)
    ensures
        r == deposit_quote_spec(r_a, r_b, s, a_max, b_max, lp_min),
{
    if s == 0 {
        assert(a_max * b_max <= u128::MAX) by (nonlinear_arith)
            requires
                a_max <= u64::MAX,
                b_max <= u64::MAX,
        ;
        let lp = isqrt(a_max as u128 * b_max as u128);
        if lp == 0 {
            Err(ErrorCode::InsufficientLiquidity)
        } else if lp < lp_min {
            Err(ErrorCode::SlippageExceeded)
        } else {
            Ok((a_max, b_max, lp))
        }
    } else if r_a == 0 || r_b == 0 {
        Err(ErrorCode::MathOverflow)
    } else {
        assert(a_max * s <= u128::MAX && b_max * s <= u128::MAX) by (nonlinear_arith)
            requires
                a_max <= u64::MAX,
                b_max <= u64::MAX,
                s <= u64::MAX,
        ;
        let lp_from_a: u128 = a_max as u128 * s as u128 / r_a as u128;
        let lp_from_b: u128 = b_max as u128 * s as u128 / r_b as u128;
        let lp: u128 = if lp_from_a <= lp_from_b {
            lp_from_a
        } else {
            lp_from_b
        };
        if lp > u64::MAX as u128 {
            Err(ErrorCode::MathOverflow)
        } else if lp == 0 {
            Err(ErrorCode::InsufficientLiquidity)
        } else if lp < lp_min as u128 {
            Err(ErrorCode::SlippageExceeded)
        } else {
            proof {
                lemma_ceil_share(lp as int, r_a as int, s as int, a_max as int);
                lemma_ceil_share(lp as int, r_b as int, s as int, b_max as int);
                assert(lp * r_a <= u64::MAX * u64::MAX) by (nonlinear_arith)
                    requires
                        lp <= u64::MAX,
                        r_a <= u64::MAX,
                ;
                assert(lp * r_b <= u64::MAX * u64::MAX) by (nonlinear_arith)
                    requires
                        lp <= u64::MAX,
                        r_b <= u64::MAX,
                ;
            }
            let da: u128 = (lp * r_a as u128 + s as u128 - 1) / s as u128;
            let db: u128 = (lp * r_b as u128 + s as u128 - 1) / s as u128;
            Ok((da as u64, db as u64, lp as u64))
        }
    }
}

/// Amounts `(out_a, out_b)` paid out for burning `lp` LP tokens.
pub open spec fn withdraw_quote_spec(
    r_a: u64,
    r_b: u64,
    s: u64,
    lp: u64,
    min_a: u64,
    min_b: u64,
) -> Result<(u64, u64), ErrorCode> {
    if s == 0 {
        Err(ErrorCode::MathOverflow)
    } else if lp > s {
        Err(ErrorCode::InsufficientLiquidity)
    } else {
        let out_a = lp * r_a / s as int;
        let out_b = lp * r_b / s as int;
        if out_a < min_a || out_b < min_b {
            Err(ErrorCode::SlippageExceeded)
        } else {
            Ok((out_a as u64, out_b as u64))
        }
    }
}

/// Computes the amounts of a withdrawal, as `withdraw_quote_spec` states.
pub fn withdraw_quote(r_a: u64, r_b: u64, s: u64, lp: u64, min_a: u64, min_b: u64) -> (r: Result<
    (u64, u64),
    ErrorCode,
>)
    ensures
        r == withdraw_quote_spec(r_a, r_b, s, lp, min_a, min_b),
        r matches Ok((out_a, out_b)) ==> out_a <= r_a && out_b <= r_b,
{
    if s == 0 {
        Err(ErrorCode::MathOverflow)
    } else if lp > s {
        Err(ErrorCode::InsufficientLiquidity)
    } else {
        proof {
            assert(lp * r_a <= s * r_a && lp * r_b <= s * r_b) by (nonlinear_arith)
                requires
                    lp <= s,
                    r_a >= 0,
                    r_b >= 0,
            ;
            assert(s * r_a <= u128::MAX && s * r_b <= u128::MAX) by (nonlinear_arith)
                requires
                    s <= u64::MAX,
                    r_a <= u64::MAX,
                    r_b <= u64::MAX,
            ;
            assert(lp * r_a / s as int <= r_a && lp * r_b / s as int <= r_b) by (nonlinear_arith)
                requires
                    s > 0,
                    lp * r_a <= s * r_a,
                    lp * r_b <= s * r_b,
                    r_a >= 0,
                    r_b >= 0,
            ;
        }
        let out_a: u128 = lp as u128 * r_a as u128 / s as u128;
        let out_b: u128 = lp as u128 * r_b as u128 / s as u128;
        if out_a < min_a as u128 || out_b < min_b as u128 {
            Err(ErrorCode::SlippageExceeded)
        } else {
            Ok((out_a as u64, out_b as u64))
        }
    }
}

/// Part of `amount_in` that trades after the fee is kept.
pub open spec fn after_fee(amount_in: u64, fee_bps: u64) -> int {
    amount_in * (FEE_DENOMINATOR - fee_bps) / FEE_DENOMINATOR as int
}

/// Output of a constant-product swap of `amount_in` into the `r_in` reserve.
pub open spec fn swap_quote_spec(
    r_in: u64,
    r_out: u64,
    fee_bps: u64,
    amount_in: u64,
    min_out: u64,
) -> Result<u64, ErrorCode> {
    if fee_bps > FEE_DENOMINATOR {
        Err(ErrorCode::MathOverflow)
    } else {
        let f = after_fee(amount_in, fee_bps);
        if r_in + f == 0 {
            Err(ErrorCode::MathOverflow)
        } else {
            let out = r_out * f / (r_in + f);
            if out == 0 || out >= r_out {
                Err(ErrorCode::InsufficientLiquidity)
            } else if out < min_out {
                Err(ErrorCode::SlippageExceeded)
            } else {
                Ok(out as u64)
            }
        }
    }
}

/// Computes the output of a swap, as `swap_quote_spec` states.
pub fn swap_quote(r_in: u64, r_out: u64, fee_bps: u64, amount_in: u64, min_out: u64) -> (r: Result<
    u64,
    ErrorCode,
>)
    ensures
        r == swap_quote_spec(r_in, r_out, fee_bps, amount_in, min_out),
{
    if fee_bps > FEE_DENOMINATOR {
        return Err(ErrorCode::MathOverflow);
    }
    let keep: u128 = (FEE_DENOMINATOR - fee_bps) as u128;
    assert(amount_in * keep <= u64::MAX * 10000) by (nonlinear_arith)
        requires
            amount_in <= u64::MAX,
            keep <= 10000,
    ;
    let f: u128 = amount_in as u128 * keep / FEE_DENOMINATOR as u128;
    assert(f <= amount_in) by (nonlinear_arith)
        requires
            f == amount_in * keep / 10000,
            keep <= 10000,
            amount_in >= 0,
    ;
    let denom: u128 = r_in as u128 + f;
    if denom == 0 {
        return Err(ErrorCode::MathOverflow);
    }
    assert(r_out * f <= u64::MAX * u64::MAX) by (nonlinear_arith)
        requires
            r_out <= u64::MAX,
            f <= u64::MAX,
    ;
    let out: u128 = r_out as u128 * f / denom;
    if out == 0 || out >= r_out as u128 {
        Err(ErrorCode::InsufficientLiquidity)
    } else if out < min_out as u128 {
        Err(ErrorCode::SlippageExceeded)
    } else {
        Ok(out as u64)
    }
}

/// Result of a deposit on the pool and on the caller's balances: the pool's reserves
/// and supply grow by the quoted amounts, the caller pays them and receives the LP tokens.
pub open spec fn deposit_spec(
    st: PoolState,
    user: Holder,
    a_max: u64,
    b_max: u64,
    lp_min: u64,
) -> Result<(PoolState, Holder, u64), ErrorCode> {
    match deposit_quote_spec(st.reserve_a, st.reserve_b, st.lp_supply, a_max, b_max, lp_min) {
        Err(e) => Err(e),
        Ok((da, db, lp)) => {
            if user.a < da || user.b < db || st.reserve_a + da > u64::MAX || st.reserve_b + db
                > u64::MAX || st.lp_supply + lp > u64::MAX || user.lp + lp > u64::MAX {
                Err(ErrorCode::MathOverflow)
            } else {
                Ok(
                    (
                        PoolState {
                            reserve_a: (st.reserve_a + da) as u64,
                            reserve_b: (st.reserve_b + db) as u64,
                            lp_supply: (st.lp_supply + lp) as u64,
                            ..st
                        },
                        Holder {
                            a: (user.a - da) as u64,
                            b: (user.b - db) as u64,
                            lp: (user.lp + lp) as u64,
                        },
                        lp,
                    ),
                )
            }
        },
    }
}

/// Result of a withdrawal: the LP tokens are burnt and the caller receives the quoted
/// share of each reserve.
pub open spec fn withdraw_spec(
    st: PoolState,
    user: Holder,
    lp: u64,
    min_a: u64,
    min_b: u64,
) -> Result<(PoolState, Holder, (u64, u64)), ErrorCode> {
    match withdraw_quote_spec(st.reserve_a, st.reserve_b, st.lp_supply, lp, min_a, min_b) {
        Err(e) => Err(e),
        Ok((out_a, out_b)) => {
            if user.lp < lp || user.a + out_a > u64::MAX || user.b + out_b > u64::MAX {
                Err(ErrorCode::MathOverflow)
            } else {
                Ok(
                    (
                        PoolState {
                            reserve_a: (st.reserve_a - out_a) as u64,
                            reserve_b: (st.reserve_b - out_b) as u64,
                            lp_supply: (st.lp_supply - lp) as u64,
                            ..st
                        },
                        Holder {
                            a: (user.a + out_a) as u64,
                            b: (user.b + out_b) as u64,
                            lp: (user.lp - lp) as u64,
                        },
                        (out_a, out_b),
                    ),
                )
            }
        },
    }
}

/// Result of a swap: the whole `amount_in` enters the `in` reserve (the fee stays in
/// the pool) and the quoted output leaves the `out` reserve for the caller.
pub open spec fn swap_spec(
    st: PoolState,
    user: Holder,
    side: Side,
    amount_in: u64,
    min_out: u64,
) -> Result<(PoolState, Holder, u64), ErrorCode> {
    let (r_in, r_out, u_in, u_out) = match side {
        Side::AtoB => (st.reserve_a, st.reserve_b, user.a, user.b),
        Side::BtoA => (st.reserve_b, st.reserve_a, user.b, user.a),
    };
    match swap_quote_spec(r_in, r_out, st.pool.fee_bps, amount_in, min_out) {
        Err(e) => Err(e),
        Ok(out) => {
            if u_in < amount_in || r_in + amount_in > u64::MAX || u_out + out > u64::MAX {
                Err(ErrorCode::MathOverflow)
            } else {
                let new_in = (r_in + amount_in) as u64;
                let new_out = (r_out - out) as u64;
                let user_in = (u_in - amount_in) as u64;
                let user_out = (u_out + out) as u64;
                match side {
                    Side::AtoB => Ok(
                        (
                            PoolState { reserve_a: new_in, reserve_b: new_out, ..st },
                            Holder { a: user_in, b: user_out, ..user },
                            out,
                        ),
                    ),
                    Side::BtoA => Ok(
                        (
                            PoolState { reserve_a: new_out, reserve_b: new_in, ..st },
                            Holder { a: user_out, b: user_in, ..user },
                            out,
                        ),
                    ),
                }
            }
        },
    }
}

impl PoolState {
    /// Deposits liquidity; on failure neither the pool nor the caller changes.
    pub fn deposit(&mut self, user: &mut Holder, a_max: u64, b_max: u64, lp_min: u64) -> (r: Result<
        u64,
        ErrorCode,
    >)
        ensures
            match deposit_spec(*old(self), *old(user), a_max, b_max, lp_min) {
                Ok((st, u, lp)) => r == Ok::<u64, ErrorCode>(lp) && *final(self) == st && *final(user) == u,
                Err(e) => r == Err::<u64, ErrorCode>(e) && *final(self) == *old(self) && *final(user) == *old(user),
            },
            old(self).wf() ==> final(self).wf(),
    {
        proof {
            if old(self).wf() && deposit_spec(*old(self), *old(user), a_max, b_max, lp_min) is Ok {
                lemma_deposit_keeps_wf(*old(self), *old(user), a_max, b_max, lp_min);
            }
        }
        let (da, db, lp) = match deposit_quote(
            self.reserve_a,
            self.reserve_b,
            self.lp_supply,
            a_max,
            b_max,
            lp_min,
        ) {
            Ok(q) => q,
            Err(e) => return Err(e),
        };
        if user.a < da || user.b < db || self.reserve_a > u64::MAX - da || self.reserve_b > u64::MAX
            - db || self.lp_supply > u64::MAX - lp || user.lp > u64::MAX - lp {
            return Err(ErrorCode::MathOverflow);
        }
        self.reserve_a = self.reserve_a + da;
        self.reserve_b = self.reserve_b + db;
        self.lp_supply = self.lp_supply + lp;
        user.a = user.a - da;
        user.b = user.b - db;
        user.lp = user.lp + lp;
        Ok(lp)
    }

    /// Withdraws liquidity; on failure neither the pool nor the caller changes.
    pub fn withdraw(&mut self, user: &mut Holder, lp: u64, min_a: u64, min_b: u64) -> (r: Result<
        (u64, u64),
        ErrorCode,
    >)
        ensures
            match withdraw_spec(*old(self), *old(user), lp, min_a, min_b) {
                Ok((st, u, outs)) => r == Ok::<(u64, u64), ErrorCode>(outs) && *final(self) == st
                    && *final(user) == u,
                Err(e) => r == Err::<(u64, u64), ErrorCode>(e) && *final(self) == *old(self)
                    && *final(user) == *old(user),
            },
            old(self).wf() ==> final(self).wf(),
    {
        proof {
            if old(self).wf() && withdraw_spec(*old(self), *old(user), lp, min_a, min_b) is Ok {
                lemma_withdraw_keeps_wf(*old(self), *old(user), lp, min_a, min_b);
            }
        }
        let (out_a, out_b) = match withdraw_quote(
            self.reserve_a,
            self.reserve_b,
            self.lp_supply,
            lp,
            min_a,
            min_b,
        ) {
            Ok(q) => q,
            Err(e) => return Err(e),
        };
        if user.lp < lp || user.a > u64::MAX - out_a || user.b > u64::MAX - out_b {
            return Err(ErrorCode::MathOverflow);
        }
        self.reserve_a = self.reserve_a - out_a;
        self.reserve_b = self.reserve_b - out_b;
        self.lp_supply = self.lp_supply - lp;
        user.a = user.a + out_a;
        user.b = user.b + out_b;
        user.lp = user.lp - lp;
        Ok((out_a, out_b))
    }

    /// Swaps `amount_in` of one token for the other; on failure neither the pool nor the
    /// caller changes.
    pub fn swap(&mut self, user: &mut Holder, side: Side, amount_in: u64, min_out: u64) -> (r: Result<
        u64,
        ErrorCode,
    >)
        ensures
            match swap_spec(*old(self), *old(user), side, amount_in, min_out) {
                Ok((st, u, out)) => r == Ok::<u64, ErrorCode>(out) && *final(self) == st && *final(user) == u,
                Err(e) => r == Err::<u64, ErrorCode>(e) && *final(self) == *old(self) && *final(user) == *old(user),
            },
            old(self).wf() ==> final(self).wf(),
    {
        proof {
            if old(self).wf() && swap_spec(*old(self), *old(user), side, amount_in, min_out) is Ok {
                lemma_swap_keeps_wf(*old(self), *old(user), side, amount_in, min_out);
            }
        }
        let (r_in, r_out, u_in, u_out) = match side {
            Side::AtoB => (self.reserve_a, self.reserve_b, user.a, user.b),
            Side::BtoA => (self.reserve_b, self.reserve_a, user.b, user.a),
        };
        let out = match swap_quote(r_in, r_out, self.pool.fee_bps, amount_in, min_out) {
            Ok(o) => o,
            Err(e) => return Err(e),
        };
        if u_in < amount_in || r_in > u64::MAX - amount_in || u_out > u64::MAX - out {
            return Err(ErrorCode::MathOverflow);
        }
        let new_in = r_in + amount_in;
        let new_out = r_out - out;
        let user_in = u_in - amount_in;
        let user_out = u_out + out;
        match side {
            Side::AtoB => {
                self.reserve_a = new_in;
                self.reserve_b = new_out;
                user.a = user_in;
                user.b = user_out;
            },
            Side::BtoA => {
                self.reserve_b = new_in;
                self.reserve_a = new_out;
                user.b = user_in;
                user.a = user_out;
            },
        }
        Ok(out)
    }
}

/// What the AMM program does with the instruction bytes `data` on an existing pool: a
/// second `InitPool` finds the pool already there.
pub open spec fn process_spec(st: PoolState, user: Holder, data: Seq<u8>) -> Result<
    (PoolState, Holder),
    ErrorCode,
> {
    match decode_amm_spec(data) {
        Err(e) => Err(e),
        Ok(AmmInstruction::InitPool { .. }) => Err(ErrorCode::AlreadyExists),
        Ok(AmmInstruction::Deposit { amount_a_max, amount_b_max, lp_min }) => match deposit_spec(
            st,
            user,
            amount_a_max,
            amount_b_max,
            lp_min,
        ) {
            Ok((s, u, _)) => Ok((s, u)),
            Err(e) => Err(e),
        },
        Ok(AmmInstruction::Withdraw { lp_amount, min_a, min_b }) => match withdraw_spec(
            st,
            user,
            lp_amount,
            min_a,
            min_b,
        ) {
            Ok((s, u, _)) => Ok((s, u)),
            Err(e) => Err(e),
        },
        Ok(AmmInstruction::Swap { side, amount_in, min_out }) => match swap_spec(
            st,
            user,
            side,
            amount_in,
            min_out,
        ) {
            Ok((s, u, _)) => Ok((s, u)),
            Err(e) => Err(e),
        },
    }
}

impl PoolState {
    /// Entry point of the AMM program on an existing pool: parses `data` and runs the
    /// instruction it names; on failure neither the pool nor the caller changes.
    pub fn process(&mut self, user: &mut Holder, data: &Vec<u8>) -> (r: Result<(), ErrorCode>)
        ensures
            match process_spec(*old(self), *old(user), data@) {
                Ok((st, u)) => r is Ok && *final(self) == st && *final(user) == u,
                Err(e) => r == Err::<(), ErrorCode>(e) && *final(self) == *old(self) && *final(user)
                    == *old(user),
            },
    {
        let res = match decode_amm(data) {
            Err(e) => return Err(e),
            Ok(AmmInstruction::InitPool { .. }) => return Err(ErrorCode::AlreadyExists),
            Ok(AmmInstruction::Deposit { amount_a_max, amount_b_max, lp_min }) => {
                match self.deposit(user, amount_a_max, amount_b_max, lp_min) {
                    Ok(_) => Ok(()),
                    Err(e) => Err(e),
                }
            },
            Ok(AmmInstruction::Withdraw { lp_amount, min_a, min_b }) => {
                match self.withdraw(user, lp_amount, min_a, min_b) {
                    Ok(_) => Ok(()),
                    Err(e) => Err(e),
                }
            },
            Ok(AmmInstruction::Swap { side, amount_in, min_out }) => {
                match self.swap(user, side, amount_in, min_out) {
                    Ok(_) => Ok(()),
                    Err(e) => Err(e),
                }
            },
        };
        res
    }
}

/// State after one step of a sequence of swaps `(side, amount_in, min_out)`: a swap that
/// fails leaves the pool and the trader as they were.
pub open spec fn apply_swap(st: PoolState, user: Holder, op: (Side, u64, u64)) -> (
    PoolState,
    Holder,
) {
    match swap_spec(st, user, op.0, op.1, op.2) {
        Ok((s, u, _)) => (s, u),
        Err(_) => (st, user),
    }
}

/// State after a whole sequence of swaps.
pub open spec fn apply_swaps(st: PoolState, user: Holder, ops: Seq<(Side, u64, u64)>) -> (
    PoolState,
    Holder,
)
    decreases ops.len(),
{
    if ops.len() == 0 {
        (st, user)
    } else {
        let (s, u) = apply_swap(st, user, ops[0]);
        apply_swaps(s, u, ops.drop_first())
    }
}

proof fn lemma_swap_step(r_in: int, r_out: int, amount_in: int, keep: int, f: int, out: int)
    requires
        r_in >= 0,
        r_out >= 0,
        amount_in >= 0,
        0 <= keep <= 10000,
        f == amount_in * keep / 10000,
        r_in + f > 0,
        out == r_out * f / (r_in + f),
        out <= r_out,
    ensures
        (r_in + amount_in) * (r_out - out) >= r_in * r_out,
{
    assert(0 <= f <= amount_in) by (nonlinear_arith)
        requires
            f == amount_in * keep / 10000,
            0 <= keep <= 10000,
            amount_in >= 0,
    ;
    assert(out * (r_in + f) <= r_out * f) by (nonlinear_arith)
        requires
            out == r_out * f / (r_in + f),
            r_in + f > 0,
            r_out * f >= 0,
    ;
    assert((r_in + f) * (r_out - out) >= r_in * r_out) by (nonlinear_arith)
        requires
            out * (r_in + f) <= r_out * f,
    ;
    assert((r_in + amount_in) * (r_out - out) >= (r_in + f) * (r_out - out)) by (nonlinear_arith)
        requires
            f <= amount_in,
            out <= r_out,
    ;
}

/// A successful swap never lowers the product of the reserves.
pub proof fn lemma_swap_keeps_product(
    st: PoolState,
    user: Holder,
    side: Side,
    amount_in: u64,
    min_out: u64,
)
    requires
        swap_spec(st, user, side, amount_in, min_out) is Ok,
    ensures
        swap_spec(st, user, side, amount_in, min_out)->Ok_0.0.product() >= st.product(),
{
    let (r_in, r_out) = match side {
        Side::AtoB => (st.reserve_a, st.reserve_b),
        Side::BtoA => (st.reserve_b, st.reserve_a),
    };
    let keep = FEE_DENOMINATOR - st.pool.fee_bps;
    let f = after_fee(amount_in, st.pool.fee_bps);
    let out = r_out * f / (r_in + f);
    lemma_swap_step(r_in as int, r_out as int, amount_in as int, keep, f, out);
    let new_st = swap_spec(st, user, side, amount_in, min_out)->Ok_0.0;
    match side {
        Side::AtoB => {
            assert(new_st.reserve_a == r_in + amount_in && new_st.reserve_b == r_out - out);
        },
        Side::BtoA => {
            assert(new_st.reserve_b == r_in + amount_in && new_st.reserve_a == r_out - out);
            assert(new_st.product() == (r_in + amount_in) * (r_out - out)) by (nonlinear_arith)
                requires
                    new_st.reserve_b == r_in + amount_in,
                    new_st.reserve_a == r_out - out,
                    new_st.product() == new_st.reserve_a * new_st.reserve_b,
            ;
        },
    }
}

/// Over any sequence of swaps, `reserve_a · reserve_b` ends at least where it started.
pub proof fn lemma_swaps_keep_product(st: PoolState, user: Holder, ops: Seq<(Side, u64, u64)>)
    ensures
        apply_swaps(st, user, ops).0.product() >= st.product(),
    decreases ops.len(),
{
    if ops.len() > 0 {
        let (s, u) = apply_swap(st, user, ops[0]);
        if swap_spec(st, user, ops[0].0, ops[0].1, ops[0].2) is Ok {
            lemma_swap_keeps_product(st, user, ops[0].0, ops[0].1, ops[0].2);
        }
        lemma_swaps_keep_product(s, u, ops.drop_first());
    }
}

proof fn lemma_round_share(lp: int, r: int, s: int, d: int)
    requires
        s > 0,
        lp > 0,
        r >= 0,
        d == (lp * r + s - 1) / s,
    ensures
        d - 1 <= lp * (r + d) / (s + lp) <= d,
        d >= 0,
{
    let x = lp * r + s - 1;
    assert(lp * r >= 0) by (nonlinear_arith)
        requires
            lp > 0,
            r >= 0,
    ;
    assert(d * s <= x && x < d * s + s && d >= 0) by (nonlinear_arith)
        requires
            d == x / s,
            s > 0,
            x >= 0,
    ;
    assert(lp * (r + d) <= d * (s + lp)) by (nonlinear_arith)
        requires
            d * s >= lp * r,
    ;
    assert((d - 1) * (s + lp) <= lp * (r + d)) by (nonlinear_arith)
        requires
            d * s <= lp * r + s,
            lp > 0,
    ;
    assert(d - 1 <= lp * (r + d) / (s + lp) <= d) by (nonlinear_arith)
        requires
            lp * (r + d) <= d * (s + lp),
            (d - 1) * (s + lp) <= lp * (r + d),
            s + lp > 0,
    ;
}

/// A deposit followed at once by the withdrawal of the LP tokens it minted succeeds and
/// gives the depositor back what was paid, less at most one unit of each token.
pub proof fn lemma_deposit_withdraw_round_trip(
    st: PoolState,
    user: Holder,
    a_max: u64,
    b_max: u64,
    lp_min: u64,
)
    requires
        st.wf(),
        deposit_spec(st, user, a_max, b_max, lp_min) is Ok,
    ensures
        ({
            let (st1, u1, lp) = deposit_spec(st, user, a_max, b_max, lp_min)->Ok_0;
            let w = withdraw_spec(st1, u1, lp, 0, 0);
            &&& w is Ok
            &&& w->Ok_0.1.lp == user.lp
            &&& user.a - 1 <= w->Ok_0.1.a <= user.a
            &&& user.b - 1 <= w->Ok_0.1.b <= user.b
        }),
{
    let (st1, u1, lp) = deposit_spec(st, user, a_max, b_max, lp_min)->Ok_0;
    let (da, db, _) = deposit_quote_spec(
        st.reserve_a,
        st.reserve_b,
        st.lp_supply,
        a_max,
        b_max,
        lp_min,
    )->Ok_0;
    let s = st.lp_supply as int;
    if s == 0 {
        assert(a_max * b_max <= u64::MAX * u64::MAX) by (nonlinear_arith)
            requires
                a_max <= u64::MAX,
                b_max <= u64::MAX,
        ;
        lemma_floor_sqrt_fits((a_max * b_max) as nat);
        assert(lp * da / lp as int == da) by (nonlinear_arith)
            requires
                lp > 0,
        ;
        assert(lp * db / lp as int == db) by (nonlinear_arith)
            requires
                lp > 0,
        ;
    } else {
        let l = min_int(
            a_max * s / st.reserve_a as int,
            b_max * s / st.reserve_b as int,
        );
        lemma_ceil_share(l, st.reserve_a as int, s, a_max as int);
        lemma_ceil_share(l, st.reserve_b as int, s, b_max as int);
        lemma_round_share(lp as int, st.reserve_a as int, s, da as int);
        lemma_round_share(lp as int, st.reserve_b as int, s, db as int);
    }
}

/// A successful deposit keeps the pool well formed.
pub proof fn lemma_deposit_keeps_wf(st: PoolState, user: Holder, a_max: u64, b_max: u64, lp_min: u64)
    requires
        st.wf(),
        deposit_spec(st, user, a_max, b_max, lp_min) is Ok,
    ensures
        deposit_spec(st, user, a_max, b_max, lp_min)->Ok_0.0.wf(),
{
    if st.lp_supply == 0 {
        let n = (a_max * b_max) as nat;
        assert(a_max * b_max <= u64::MAX * u64::MAX) by (nonlinear_arith)
            requires
                a_max <= u64::MAX,
                b_max <= u64::MAX,
        ;
        lemma_floor_sqrt_fits(n);
        lemma_floor_sqrt_exists(n);
        let r = floor_sqrt(n) as int;
        assert(is_floor_sqrt(n as int, r));
        if a_max == 0 || b_max == 0 {
            assert(a_max * b_max == 0) by (nonlinear_arith)
                requires
                    a_max == 0 || b_max == 0,
            ;
            assert(r == 0) by (nonlinear_arith)
                requires
                    r >= 0,
                    r * r <= 0,
            ;
        }
    }
}

/// A successful withdrawal keeps the pool well formed: burning the whole supply empties
/// both reserves, and burning less leaves some of each.
pub proof fn lemma_withdraw_keeps_wf(st: PoolState, user: Holder, lp: u64, min_a: u64, min_b: u64)
    requires
        st.wf(),
        withdraw_spec(st, user, lp, min_a, min_b) is Ok,
    ensures
        withdraw_spec(st, user, lp, min_a, min_b)->Ok_0.0.wf(),
{
    let s = st.lp_supply as int;
    if lp == s {
        assert(lp * st.reserve_a / s == st.reserve_a && lp * st.reserve_b / s == st.reserve_b)
            by (nonlinear_arith)
            requires
                lp == s,
                s > 0,
        ;
    } else {
        assert(lp * st.reserve_a / s < st.reserve_a && lp * st.reserve_b / s < st.reserve_b)
            by (nonlinear_arith)
            requires
                0 <= lp < s,
                st.reserve_a > 0,
                st.reserve_b > 0,
        ;
    }
}

/// A successful swap keeps the pool well formed: it needs liquidity on both sides and
/// never empties the side it pays out of.
pub proof fn lemma_swap_keeps_wf(
    st: PoolState,
    user: Holder,
    side: Side,
    amount_in: u64,
    min_out: u64,
)
    requires
        st.wf(),
        swap_spec(st, user, side, amount_in, min_out) is Ok,
    ensures
        swap_spec(st, user, side, amount_in, min_out)->Ok_0.0.wf(),
{
}

/// A deposit into a pool with liquidity never dilutes the LP tokens already out: after it,
/// each LP token is backed by at least as much of each reserve as before
/// (`r'/s' >= r/s`, cross-multiplied).
pub proof fn lemma_deposit_does_not_dilute(
    st: PoolState,
    user: Holder,
    a_max: u64,
    b_max: u64,
    lp_min: u64,
)
    requires
        st.lp_supply > 0,
        deposit_spec(st, user, a_max, b_max, lp_min) is Ok,
    ensures
        ({
            let st1 = deposit_spec(st, user, a_max, b_max, lp_min)->Ok_0.0;
            &&& st1.reserve_a * st.lp_supply >= st.reserve_a * st1.lp_supply
            &&& st1.reserve_b * st.lp_supply >= st.reserve_b * st1.lp_supply
        }),
{
    let (da, db, lp) = deposit_quote_spec(
        st.reserve_a,
        st.reserve_b,
        st.lp_supply,
        a_max,
        b_max,
        lp_min,
    )->Ok_0;
    let s = st.lp_supply as int;
    let l = min_int(a_max * s / st.reserve_a as int, b_max * s / st.reserve_b as int);
    lemma_ceil_share(l, st.reserve_a as int, s, a_max as int);
    lemma_ceil_share(l, st.reserve_b as int, s, b_max as int);
    lemma_round_share(lp as int, st.reserve_a as int, s, da as int);
    lemma_round_share(lp as int, st.reserve_b as int, s, db as int);
    let ra = st.reserve_a as int;
    let rb = st.reserve_b as int;
    assert(da * s >= lp * ra) by (nonlinear_arith)
        requires
            da == (lp * ra + s - 1) / s,
            s > 0,
            lp * ra >= 0,
    ;
    assert(db * s >= lp * rb) by (nonlinear_arith)
        requires
            db == (lp * rb + s - 1) / s,
            s > 0,
            lp * rb >= 0,
    ;
    assert((ra + da) * s >= ra * (s + lp)) by (nonlinear_arith)
        requires
            da * s >= lp * ra,
    ;
    assert((rb + db) * s >= rb * (s + lp)) by (nonlinear_arith)
        requires
            db * s >= lp * rb,
    ;
}

} // verus!
