//! A constant-product (`x * y = k`) pool for swapping two tokens, with a
//! trading fee, slippage protection and liquidity shares.

use vstd::prelude::*;

use crate::account::AccountId;
use crate::math::{
    lemma_fee_at_most_a_tenth, lemma_full_share, lemma_output_below_reserve, lemma_product_kept,
    lemma_quotient, lemma_scaled_fraction,
};
use vstd::arithmetic::mul::lemma_mul_inequality;

verus! {

/// Denominator of amounts written in basis points (100%).
pub const BPS_DENOMINATOR: u128 = 10_000;

/// Shares minted by the first deposit into an empty pool.
pub const INITIAL_LIQUIDITY: u128 = 1_000;

/// Highest trading fee a pool accepts, in basis points (10%).
pub const MAX_FEE_BPS: u128 = 1_000;

/// Why a pool operation was refused.
#[derive(Clone, Copy, Debug, PartialEq, Eq, Structural)]
pub enum SwapError {
    InsufficientLiquidity,
    InvalidAmount,
    SlippageExceeded,
    ZeroOutput,
    Unauthorized,
    InvalidToken,
    MathOverflow,
}

/// What a trade of `amount_in` would give, computed without trading.
#[derive(Clone, Copy, Debug, PartialEq, Eq, Structural)]
pub struct SwapQuote {
    pub amount_in: u128,
    pub amount_out: u128,
    pub fee: u128,
    /// `amount_in` as a share of the input reserve, in basis points.
    pub price_impact_pct: u128,
}

/// Reserves and metadata of a pool.
#[derive(Clone, Copy, Debug, PartialEq, Eq)]
pub struct PoolInfo {
    pub token_a: AccountId,
    pub token_b: AccountId,
    pub reserve_a: u128,
    pub reserve_b: u128,
    pub fee_bps: u128,
    pub total_shares: u128,
}

/// The state that a swap pool keeps: its administrator and its pool.
#[derive(Clone, Copy, Debug)]
pub struct SwapContract {
    pub admin: AccountId,
    pub pool: PoolInfo,
}

/// A pool has shares outstanding exactly when both its reserves are
/// non-empty. `initialize` establishes this and every operation keeps it.
pub open spec fn shares_match_reserves(pool: PoolInfo) -> bool {
    &&& (pool.total_shares == 0) == (pool.reserve_a == 0)
    &&& (pool.total_shares == 0) == (pool.reserve_b == 0)
}

/// The reserve a trade pays into and the reserve it takes out of.
pub open spec fn trade_reserves(pool: PoolInfo, a_to_b: bool) -> (u128, u128) {
    if a_to_b {
        (pool.reserve_a, pool.reserve_b)
    } else {
        (pool.reserve_b, pool.reserve_a)
    }
}

/// `pool` with the input and output reserves of a trade replaced.
pub open spec fn with_trade_reserves(
    pool: PoolInfo,
    a_to_b: bool,
    reserve_in: u128,
    reserve_out: u128,
) -> PoolInfo {
    if a_to_b {
        PoolInfo { reserve_a: reserve_in, reserve_b: reserve_out, ..pool }
    } else {
        PoolInfo { reserve_a: reserve_out, reserve_b: reserve_in, ..pool }
    }
}

/// The product `reserve_a * reserve_b` that trades must not decrease.
pub open spec fn reserve_product(pool: PoolInfo) -> int {
    pool.reserve_a * pool.reserve_b
}

/// The quote for trading `amount_in`, or why there is none.
///
/// The fee is `amount_in * fee_bps / 10000`; the rest goes into the pool and
/// `amount_out = reserve_out * net / (reserve_in + net)`. Every product or
/// sum that does not fit in a `u128` is a `MathOverflow`.
pub open spec fn quote_outcome(pool: PoolInfo, amount_in: u128, a_to_b: bool) -> Result<
    SwapQuote,
    SwapError,
> {
    let (reserve_in, reserve_out) = trade_reserves(pool, a_to_b);
    if amount_in == 0 {
        Err(SwapError::InvalidAmount)
    } else if reserve_in == 0 || reserve_out == 0 {
        Err(SwapError::InsufficientLiquidity)
    } else if amount_in * pool.fee_bps > u128::MAX {
        Err(SwapError::MathOverflow)
    } else {
        let fee = amount_in * pool.fee_bps / 10_000;
        if fee > amount_in {
            Err(SwapError::MathOverflow)
        } else {
            let net = amount_in - fee;
            if reserve_out * net > u128::MAX || reserve_in + net > u128::MAX {
                Err(SwapError::MathOverflow)
            } else {
                let amount_out = reserve_out * net / (reserve_in + net);
                if amount_out == 0 {
                    Err(SwapError::ZeroOutput)
                } else if amount_in * 10_000 > u128::MAX {
                    Err(SwapError::MathOverflow)
                } else {
                    Ok(
                        SwapQuote {
                            amount_in,
                            amount_out: amount_out as u128,
                            fee: fee as u128,
                            price_impact_pct: (amount_in * 10_000 / (reserve_in as int)) as u128,
                        },
                    )
                }
            }
        }
    }
}

/// The pool after trading `amount_in` and the amount paid out, or why the
/// trade is refused.
pub open spec fn swap_outcome(
    pool: PoolInfo,
    amount_in: u128,
    min_amount_out: u128,
    a_to_b: bool,
) -> Result<(PoolInfo, u128), SwapError> {
    match quote_outcome(pool, amount_in, a_to_b) {
        Err(e) => Err(e),
        Ok(quote) => {
            let (reserve_in, reserve_out) = trade_reserves(pool, a_to_b);
            if quote.amount_out < min_amount_out {
                Err(SwapError::SlippageExceeded)
            } else if reserve_in + amount_in > u128::MAX {
                Err(SwapError::MathOverflow)
            } else {
                Ok(
                    (
                        with_trade_reserves(
                            pool,
                            a_to_b,
                            (reserve_in + amount_in) as u128,
                            (reserve_out - quote.amount_out) as u128,
                        ),
                        quote.amount_out,
                    ),
                )
            }
        },
    }
}

/// Whether the shares minted for a deposit into a pool that already has
/// shares can be computed: no product overflows and no reserve is empty.
pub open spec fn shares_computable(pool: PoolInfo, amount_a: u128, amount_b: u128) -> bool {
    &&& amount_a * pool.total_shares <= u128::MAX
    &&& pool.reserve_a != 0
    &&& amount_b * pool.total_shares <= u128::MAX
    &&& pool.reserve_b != 0
}

/// Shares minted for a deposit: `INITIAL_LIQUIDITY` into a pool without
/// shares, otherwise the smaller of the two proportional shares.
pub open spec fn minted_shares(pool: PoolInfo, amount_a: u128, amount_b: u128) -> int {
    if pool.total_shares == 0 {
        INITIAL_LIQUIDITY as int
    } else {
        let share_a = amount_a * pool.total_shares / (pool.reserve_a as int);
        let share_b = amount_b * pool.total_shares / (pool.reserve_b as int);
        if share_a <= share_b {
            share_a
        } else {
            share_b
        }
    }
}

/// The pool after a deposit and the shares minted for it, or why the
/// deposit is refused.
pub open spec fn add_liquidity_outcome(pool: PoolInfo, amount_a: u128, amount_b: u128) -> Result<
    (PoolInfo, u128),
    SwapError,
> {
    if amount_a == 0 || amount_b == 0 {
        Err(SwapError::InvalidAmount)
    } else if pool.total_shares != 0 && !shares_computable(pool, amount_a, amount_b) {
        Err(SwapError::MathOverflow)
    } else {
        let shares = minted_shares(pool, amount_a, amount_b);
        if pool.reserve_a + amount_a > u128::MAX || pool.reserve_b + amount_b > u128::MAX
            || pool.total_shares + shares > u128::MAX {
            Err(SwapError::MathOverflow)
        } else {
            Ok(
                (
                    PoolInfo {
                        reserve_a: (pool.reserve_a + amount_a) as u128,
                        reserve_b: (pool.reserve_b + amount_b) as u128,
                        total_shares: (pool.total_shares + shares) as u128,
                        ..pool
                    },
                    shares as u128,
                ),
            )
        }
    }
}

/// The pool after burning `shares` and the amounts of each token paid out
/// (the burnt fraction of each reserve, rounded down), or why the
/// withdrawal is refused.
pub open spec fn remove_liquidity_outcome(pool: PoolInfo, shares: u128) -> Result<
    (PoolInfo, (u128, u128)),
    SwapError,
> {
    if shares == 0 {
        Err(SwapError::InvalidAmount)
    } else if shares > pool.total_shares {
        Err(SwapError::InsufficientLiquidity)
    } else if shares * pool.reserve_a > u128::MAX || shares * pool.reserve_b > u128::MAX {
        Err(SwapError::MathOverflow)
    } else {
        let amount_a = shares * pool.reserve_a / (pool.total_shares as int);
        let amount_b = shares * pool.reserve_b / (pool.total_shares as int);
        Ok(
            (
                PoolInfo {
                    reserve_a: (pool.reserve_a - amount_a) as u128,
                    reserve_b: (pool.reserve_b - amount_b) as u128,
                    total_shares: (pool.total_shares - shares) as u128,
                    ..pool
                },
                (amount_a as u128, amount_b as u128),
            ),
        )
    }
}

impl SwapContract {
    /// Sets up a pool for `token_a` and `token_b` with empty reserves, no
    /// shares and a fee of `fee_bps`; a fee above `MAX_FEE_BPS` is refused.
    pub fn initialize(admin: AccountId, token_a: AccountId, token_b: AccountId, fee_bps: u128) -> (r:
        Result<SwapContract, SwapError>)
        ensures
            fee_bps > MAX_FEE_BPS ==> r == Err::<SwapContract, SwapError>(SwapError::InvalidAmount),
            fee_bps <= MAX_FEE_BPS ==> r == Ok::<SwapContract, SwapError>(
                (SwapContract {
                    admin,
                    pool: PoolInfo {
                        token_a,
                        token_b,
                        reserve_a: 0,
                        reserve_b: 0,
                        fee_bps,
                        total_shares: 0,
                    },
                }),
            ),
            r matches Ok(c) ==> shares_match_reserves(c.pool),
    {
        if fee_bps > MAX_FEE_BPS {
            return Err(SwapError::InvalidAmount);
        }
        Ok(
            SwapContract {
                admin,
                pool: PoolInfo {
                    token_a,
                    token_b,
                    reserve_a: 0,
                    reserve_b: 0,
                    fee_bps,
                    total_shares: 0,
                },
            },
        )
    }

    /// The pool's reserves and metadata.
    pub fn get_pool_info(&self) -> (r: PoolInfo)
        ensures
            r == self.pool,
    {
        self.pool
    }

    /// The quote for trading `amount_in` (A to B when `a_to_b`), without
    /// trading. A quote's output is always below the output reserve, and
    /// with a fee of at most `MAX_FEE_BPS` its fee is at most a tenth of
    /// the input.
    pub fn get_swap_quote(&self, amount_in: u128, a_to_b: bool) -> (r: Result<SwapQuote, SwapError>)
        ensures
            r == quote_outcome(self.pool, amount_in, a_to_b),
            r matches Ok(q) ==> q.amount_out < trade_reserves(self.pool, a_to_b).1,
            r matches Ok(q) ==> (self.pool.fee_bps <= MAX_FEE_BPS ==> q.fee * 10 <= amount_in),
    {
        if amount_in == 0 {
            return Err(SwapError::InvalidAmount);
        }
        let (reserve_in, reserve_out) = if a_to_b {
            (self.pool.reserve_a, self.pool.reserve_b)
        } else {
            (self.pool.reserve_b, self.pool.reserve_a)
        };
        if reserve_in == 0 || reserve_out == 0 {
            return Err(SwapError::InsufficientLiquidity);
        }
        let fee = match amount_in.checked_mul(self.pool.fee_bps) {
            Some(x) => x / BPS_DENOMINATOR,
            None => return Err(SwapError::MathOverflow),
        };
        let net = match amount_in.checked_sub(fee) {
            Some(x) => x,
            None => return Err(SwapError::MathOverflow),
        };
        let numerator = match reserve_out.checked_mul(net) {
            Some(x) => x,
            None => return Err(SwapError::MathOverflow),
        };
        let denominator = match reserve_in.checked_add(net) {
            Some(x) => x,
            None => return Err(SwapError::MathOverflow),
        };
        let amount_out = numerator / denominator;
        if amount_out == 0 {
            return Err(SwapError::ZeroOutput);
        }
        let price_impact_pct = match amount_in.checked_mul(BPS_DENOMINATOR) {
            Some(x) => x / reserve_in,
            None => return Err(SwapError::MathOverflow),
        };
        proof {
            lemma_output_below_reserve(reserve_in as int, reserve_out as int, net as int);
            if self.pool.fee_bps <= MAX_FEE_BPS {
                lemma_fee_at_most_a_tenth(amount_in as int, self.pool.fee_bps as int);
            }
        }
        Ok(SwapQuote { amount_in, amount_out, fee, price_impact_pct })
    }

    /// Trades `amount_in` of one token for the other (A to B when
    /// `a_to_b`) at the quoted price, refusing when the output would be
    /// below `min_amount_out`. A trade never lowers `reserve_a * reserve_b`.
    pub fn swap(&mut self, amount_in: u128, min_amount_out: u128, a_to_b: bool) -> (r: Result<
        u128,
        SwapError,
    >)
        ensures
            match swap_outcome(old(self).pool, amount_in, min_amount_out, a_to_b) {
                Ok((pool, out)) => {
                    &&& r == Ok::<u128, SwapError>(out)
                    &&& final(self).pool == pool
                    &&& final(self).admin == old(self).admin
                },
                Err(e) => r == Err::<u128, SwapError>(e) && *final(self) == *old(self),
            },
            r matches Ok(out) ==> out >= min_amount_out,
            r is Ok ==> reserve_product(final(self).pool) >= reserve_product(old(self).pool),
            shares_match_reserves(old(self).pool) ==> shares_match_reserves(final(self).pool),
    {
        let quote = match self.get_swap_quote(amount_in, a_to_b) {
            Ok(q) => q,
            Err(e) => return Err(e),
        };
        if quote.amount_out < min_amount_out {
            return Err(SwapError::SlippageExceeded);
        }
        let (reserve_in, reserve_out) = if a_to_b {
            (self.pool.reserve_a, self.pool.reserve_b)
        } else {
            (self.pool.reserve_b, self.pool.reserve_a)
        };
        let new_reserve_in = match reserve_in.checked_add(amount_in) {
            Some(x) => x,
            None => return Err(SwapError::MathOverflow),
        };
        let new_reserve_out = reserve_out - quote.amount_out;
        proof {
            let fee = amount_in * self.pool.fee_bps / 10_000;
            let net = amount_in - fee;
            lemma_product_kept(reserve_in as int, reserve_out as int, amount_in as int, net as int);
        }
        if a_to_b {
            self.pool.reserve_a = new_reserve_in;
            self.pool.reserve_b = new_reserve_out;
        } else {
            self.pool.reserve_b = new_reserve_in;
            self.pool.reserve_a = new_reserve_out;
        }
        Ok(quote.amount_out)
    }

    /// Deposits `amount_a` and `amount_b` and mints shares for them:
    /// `INITIAL_LIQUIDITY` into a pool without shares, otherwise the smaller
    /// of the two amounts' proportional shares.
    pub fn add_liquidity(&mut self, amount_a: u128, amount_b: u128) -> (r: Result<u128, SwapError>)
        ensures
            match add_liquidity_outcome(old(self).pool, amount_a, amount_b) {
                Ok((pool, shares)) => {
                    &&& r == Ok::<u128, SwapError>(shares)
                    &&& final(self).pool == pool
                    &&& final(self).admin == old(self).admin
                },
                Err(e) => r == Err::<u128, SwapError>(e) && *final(self) == *old(self),
            },
            r is Ok ==> shares_match_reserves(final(self).pool),
            shares_match_reserves(old(self).pool) ==> shares_match_reserves(final(self).pool),
    {
        if amount_a == 0 || amount_b == 0 {
            return Err(SwapError::InvalidAmount);
        }
        let reserve_a = self.pool.reserve_a;
        let reserve_b = self.pool.reserve_b;
        let total_shares = self.pool.total_shares;
        let shares = if total_shares == 0 {
            INITIAL_LIQUIDITY
        } else {
            let share_a = match amount_a.checked_mul(total_shares) {
                Some(x) => match x.checked_div(reserve_a) {
                    Some(y) => y,
                    None => return Err(SwapError::MathOverflow),
                },
                None => return Err(SwapError::MathOverflow),
            };
            let share_b = match amount_b.checked_mul(total_shares) {
                Some(x) => match x.checked_div(reserve_b) {
                    Some(y) => y,
                    None => return Err(SwapError::MathOverflow),
                },
                None => return Err(SwapError::MathOverflow),
            };
            if share_a <= share_b {
                share_a
            } else {
                share_b
            }
        };
        let new_reserve_a = match reserve_a.checked_add(amount_a) {
            Some(x) => x,
            None => return Err(SwapError::MathOverflow),
        };
        let new_reserve_b = match reserve_b.checked_add(amount_b) {
            Some(x) => x,
            None => return Err(SwapError::MathOverflow),
        };
        let new_total = match total_shares.checked_add(shares) {
            Some(x) => x,
            None => return Err(SwapError::MathOverflow),
        };
        self.pool.reserve_a = new_reserve_a;
        self.pool.reserve_b = new_reserve_b;
        self.pool.total_shares = new_total;
        Ok(shares)
    }

    /// Burns `shares` and pays out the same fraction of each reserve,
    /// rounded down; returns the amounts of token A and token B paid out.
    pub fn remove_liquidity(&mut self, shares: u128) -> (r: Result<(u128, u128), SwapError>)
        ensures
            match remove_liquidity_outcome(old(self).pool, shares) {
                Ok((pool, amounts)) => {
                    &&& r == Ok::<(u128, u128), SwapError>(amounts)
                    &&& final(self).pool == pool
                    &&& final(self).admin == old(self).admin
                },
                Err(e) => r == Err::<(u128, u128), SwapError>(e) && *final(self) == *old(self),
            },
            r matches Ok((a, b)) ==> a <= old(self).pool.reserve_a && b <= old(self).pool.reserve_b,
            shares_match_reserves(old(self).pool) ==> shares_match_reserves(final(self).pool),
    {
        if shares == 0 {
            return Err(SwapError::InvalidAmount);
        }
        let total_shares = self.pool.total_shares;
        let reserve_a = self.pool.reserve_a;
        let reserve_b = self.pool.reserve_b;
        if shares > total_shares {
            return Err(SwapError::InsufficientLiquidity);
        }
        let amount_a = match shares.checked_mul(reserve_a) {
            Some(x) => x / total_shares,
            None => return Err(SwapError::MathOverflow),
        };
        let amount_b = match shares.checked_mul(reserve_b) {
            Some(x) => x / total_shares,
            None => return Err(SwapError::MathOverflow),
        };
        proof {
            lemma_scaled_fraction(shares as int, total_shares as int, reserve_a as int);
            lemma_scaled_fraction(shares as int, total_shares as int, reserve_b as int);
            if shares == total_shares {
                lemma_full_share(reserve_a as int, total_shares as int);
                lemma_full_share(reserve_b as int, total_shares as int);
            }
        }
        self.pool.reserve_a = reserve_a - amount_a;
        self.pool.reserve_b = reserve_b - amount_b;
        self.pool.total_shares = total_shares - shares;
        Ok((amount_a, amount_b))
    }
}

/// What a quote is: the fee is `fee_bps` basis points of the input rounded
/// down, and the rest (`net`) buys `amount_out`, the largest amount with
/// `amount_out * (reserve_in + net) <= reserve_out * net`, so the product of
/// the reserves is kept; the price impact is the input in basis points of
/// the input reserve, rounded down. `reserve_in` is `reserve_a` for a trade
/// from A to B and `reserve_b` otherwise.
pub proof fn law_quote_terms(pool: PoolInfo, amount_in: u128, a_to_b: bool)
    requires
        quote_outcome(pool, amount_in, a_to_b) is Ok,
    ensures
        ({
            let q = quote_outcome(pool, amount_in, a_to_b)->Ok_0;
            let reserve_in: int = if a_to_b {
                pool.reserve_a as int
            } else {
                pool.reserve_b as int
            };
            let reserve_out: int = if a_to_b {
                pool.reserve_b as int
            } else {
                pool.reserve_a as int
            };
            let net = amount_in - q.fee;
            &&& q.amount_in == amount_in
            &&& q.fee * 10_000 <= amount_in * pool.fee_bps < (q.fee + 1) * 10_000
            &&& 0 <= net
            &&& 0 < q.amount_out
            &&& q.amount_out * (reserve_in + net) <= reserve_out * net
            &&& reserve_out * net < (q.amount_out + 1) * (reserve_in + net)
            &&& q.price_impact_pct * reserve_in <= amount_in * 10_000
            &&& amount_in * 10_000 < (q.price_impact_pct + 1) * reserve_in
        }),
{
    let (reserve_in, reserve_out) = trade_reserves(pool, a_to_b);
    let fee = amount_in * pool.fee_bps / 10_000;
    assert(amount_in * pool.fee_bps >= 0) by (nonlinear_arith)
        requires
            amount_in >= 0,
            pool.fee_bps >= 0,
    ;
    lemma_quotient(amount_in * pool.fee_bps, 10_000);
    let net = amount_in - fee;
    assert(reserve_out * net >= 0) by (nonlinear_arith)
        requires
            reserve_out >= 0,
            net >= 0,
    ;
    lemma_quotient(reserve_out * net, reserve_in + net);
    lemma_quotient(amount_in * 10_000, reserve_in as int);
}

/// When a quote is refused: a zero input is an invalid amount, an empty
/// reserve means there is no liquidity, and when nothing overflows and the
/// fee is at most 100%, the only possible refusal is a zero output.
pub proof fn law_quote_refusals(pool: PoolInfo, amount_in: u128, a_to_b: bool)
    ensures
        amount_in == 0 ==> quote_outcome(pool, amount_in, a_to_b) == Err::<SwapQuote, SwapError>(
            SwapError::InvalidAmount,
        ),
        amount_in > 0 && (pool.reserve_a == 0 || pool.reserve_b == 0) ==> quote_outcome(
            pool,
            amount_in,
            a_to_b,
        ) == Err::<SwapQuote, SwapError>(SwapError::InsufficientLiquidity),
        ({
            let reserve_in: int = if a_to_b {
                pool.reserve_a as int
            } else {
                pool.reserve_b as int
            };
            let reserve_out: int = if a_to_b {
                pool.reserve_b as int
            } else {
                pool.reserve_a as int
            };
            pool.fee_bps <= 10_000 && amount_in * 10_000 <= u128::MAX && reserve_out * amount_in
                <= u128::MAX && reserve_in + amount_in <= u128::MAX
        }) ==> (quote_outcome(pool, amount_in, a_to_b) is Ok || quote_outcome(
            pool,
            amount_in,
            a_to_b,
        ) == Err::<SwapQuote, SwapError>(SwapError::ZeroOutput) || amount_in == 0
            || pool.reserve_a == 0 || pool.reserve_b == 0),
{
    let (reserve_in, reserve_out) = trade_reserves(pool, a_to_b);
    if pool.fee_bps <= 10_000 && amount_in * 10_000 <= u128::MAX && reserve_out * amount_in
        <= u128::MAX && reserve_in + amount_in <= u128::MAX && amount_in > 0 && reserve_in > 0
        && reserve_out > 0 {
        lemma_mul_inequality(pool.fee_bps as int, 10_000, amount_in as int);
        assert(amount_in * pool.fee_bps == pool.fee_bps * amount_in) by (nonlinear_arith);
        assert(amount_in * 10_000 == 10_000 * amount_in) by (nonlinear_arith);
        let fee = amount_in * pool.fee_bps / 10_000;
        lemma_quotient(amount_in * pool.fee_bps, 10_000);
        assert(fee <= amount_in) by (nonlinear_arith)
            requires
                fee * 10_000 <= amount_in * pool.fee_bps,
                amount_in * pool.fee_bps <= amount_in * 10_000,
        ;
        let net = amount_in - fee;
        lemma_mul_inequality(net, amount_in as int, reserve_out as int);
        assert(reserve_out * net == net * reserve_out && reserve_out * amount_in == amount_in
            * reserve_out) by (nonlinear_arith);
    }
}

/// A trade moves the reserves by exactly what goes in and what comes out:
/// the input reserve grows by `amount_in`, the output reserve shrinks by the
/// quoted output, which is at least `min_amount_out`; tokens, fee and
/// shares are unchanged.
pub proof fn law_swap_moves_the_reserves(
    pool: PoolInfo,
    amount_in: u128,
    min_amount_out: u128,
    a_to_b: bool,
)
    requires
        swap_outcome(pool, amount_in, min_amount_out, a_to_b) is Ok,
    ensures
        ({
            let (after, out) = swap_outcome(pool, amount_in, min_amount_out, a_to_b)->Ok_0;
            &&& quote_outcome(pool, amount_in, a_to_b) == Ok::<SwapQuote, SwapError>(
                quote_outcome(pool, amount_in, a_to_b)->Ok_0,
            )
            &&& out == quote_outcome(pool, amount_in, a_to_b)->Ok_0.amount_out
            &&& out >= min_amount_out
            &&& a_to_b ==> after.reserve_a == pool.reserve_a + amount_in && after.reserve_b
                == pool.reserve_b - out
            &&& !a_to_b ==> after.reserve_b == pool.reserve_b + amount_in && after.reserve_a
                == pool.reserve_a - out
            &&& after.token_a == pool.token_a && after.token_b == pool.token_b
            &&& after.fee_bps == pool.fee_bps && after.total_shares == pool.total_shares
        }),
{
    let q = quote_outcome(pool, amount_in, a_to_b)->Ok_0;
    let (reserve_in, reserve_out) = trade_reserves(pool, a_to_b);
    let fee = amount_in * pool.fee_bps / 10_000;
    lemma_output_below_reserve(reserve_in as int, reserve_out as int, (amount_in - fee) as int);
}

/// A quote that falls short of `min_amount_out` is refused as slippage,
/// and a refused quote refuses the trade with the same error.
pub proof fn law_swap_refusals(pool: PoolInfo, amount_in: u128, min_amount_out: u128, a_to_b: bool)
    ensures
        quote_outcome(pool, amount_in, a_to_b) matches Err(e) ==> swap_outcome(
            pool,
            amount_in,
            min_amount_out,
            a_to_b,
        ) == Err::<(PoolInfo, u128), SwapError>(e),
        quote_outcome(pool, amount_in, a_to_b) matches Ok(q) && q.amount_out < min_amount_out
            ==> swap_outcome(pool, amount_in, min_amount_out, a_to_b) == Err::<
            (PoolInfo, u128),
            SwapError,
        >(SwapError::SlippageExceeded),
{
}

/// What a deposit mints: `INITIAL_LIQUIDITY` into a pool without shares;
/// otherwise the largest number of shares that neither amount pays less
/// for than the pool's current price per share (`shares * reserve <= amount
/// * total_shares` for both tokens). The reserves grow by the amounts and
/// the shares by what was minted.
pub proof fn law_deposit_mints_fair_shares(pool: PoolInfo, amount_a: u128, amount_b: u128)
    requires
        add_liquidity_outcome(pool, amount_a, amount_b) is Ok,
    ensures
        ({
            let (after, shares) = add_liquidity_outcome(pool, amount_a, amount_b)->Ok_0;
            let total = pool.total_shares as int;
            &&& after.reserve_a == pool.reserve_a + amount_a
            &&& after.reserve_b == pool.reserve_b + amount_b
            &&& after.total_shares == pool.total_shares + shares
            &&& after.token_a == pool.token_a && after.token_b == pool.token_b
            &&& after.fee_bps == pool.fee_bps
            &&& total == 0 ==> shares == INITIAL_LIQUIDITY
            &&& total > 0 ==> {
                &&& shares * pool.reserve_a <= amount_a * total
                &&& shares * pool.reserve_b <= amount_b * total
                &&& ((shares + 1) * pool.reserve_a > amount_a * total || (shares + 1)
                    * pool.reserve_b > amount_b * total)
            }
        }),
{
    let total = pool.total_shares as int;
    if total > 0 {
        let x = amount_a * total;
        let y = amount_b * total;
        assert(x >= 0 && y >= 0) by (nonlinear_arith)
            requires
                amount_a >= 0,
                amount_b >= 0,
                total > 0,
                x == amount_a * total,
                y == amount_b * total,
        ;
        lemma_quotient(x, pool.reserve_a as int);
        lemma_quotient(y, pool.reserve_b as int);
        let sa = x / (pool.reserve_a as int);
        let sb = y / (pool.reserve_b as int);
        if sa <= sb {
            lemma_mul_inequality(sa, sb, pool.reserve_b as int);
        } else {
            lemma_mul_inequality(sb, sa, pool.reserve_a as int);
        }
    }
}

/// When a deposit is refused or accepted: a zero amount is invalid, and
/// a deposit of two positive amounts into a pool whose reserves are not
/// empty while it has shares succeeds whenever no sum or product
/// overflows.
pub proof fn law_deposit_refusals(pool: PoolInfo, amount_a: u128, amount_b: u128)
    ensures
        amount_a == 0 || amount_b == 0 ==> add_liquidity_outcome(pool, amount_a, amount_b) == Err::<
            (PoolInfo, u128),
            SwapError,
        >(SwapError::InvalidAmount),
        amount_a > 0 && amount_b > 0 && pool.reserve_a + amount_a <= u128::MAX && pool.reserve_b
            + amount_b <= u128::MAX && (pool.total_shares == 0 ==> pool.total_shares + 1_000
            <= u128::MAX) && (pool.total_shares > 0 ==> pool.reserve_a > 0 && pool.reserve_b > 0
            && amount_a * pool.total_shares <= u128::MAX && amount_b * pool.total_shares
            <= u128::MAX && pool.total_shares + amount_a * pool.total_shares <= u128::MAX)
            ==> add_liquidity_outcome(pool, amount_a, amount_b) is Ok,
{
    let total = pool.total_shares as int;
    if amount_a > 0 && amount_b > 0 && total > 0 && pool.reserve_a > 0 && pool.reserve_b > 0
        && amount_a * total <= u128::MAX && amount_b * total <= u128::MAX {
        let x = amount_a * total;
        let y = amount_b * total;
        assert(x >= 0 && y >= 0) by (nonlinear_arith)
            requires
                amount_a >= 0,
                amount_b >= 0,
                total > 0,
                x == amount_a * total,
                y == amount_b * total,
        ;
        lemma_quotient(x, pool.reserve_a as int);
        lemma_quotient(y, pool.reserve_b as int);
        let sa = x / (pool.reserve_a as int);
        assert(sa <= x) by (nonlinear_arith)
            requires
                sa * pool.reserve_a <= x,
                pool.reserve_a >= 1,
                sa >= 0,
        ;
    }
}

/// What a withdrawal pays: for each token the largest amount with
/// `amount * total_shares <= shares * reserve`, the burnt fraction of the
/// reserve rounded down; the reserves shrink by the amounts paid and the
/// shares by those burnt.
pub proof fn law_withdrawal_pays_the_burnt_fraction(pool: PoolInfo, shares: u128)
    requires
        remove_liquidity_outcome(pool, shares) is Ok,
    ensures
        ({
            let (after, (amount_a, amount_b)) = remove_liquidity_outcome(pool, shares)->Ok_0;
            let total = pool.total_shares as int;
            &&& amount_a * total <= shares * pool.reserve_a < (amount_a + 1) * total
            &&& amount_b * total <= shares * pool.reserve_b < (amount_b + 1) * total
            &&& after.reserve_a == pool.reserve_a - amount_a
            &&& after.reserve_b == pool.reserve_b - amount_b
            &&& after.total_shares == pool.total_shares - shares
            &&& after.token_a == pool.token_a && after.token_b == pool.token_b
            &&& after.fee_bps == pool.fee_bps
        }),
{
    let total = pool.total_shares as int;
    lemma_scaled_fraction(shares as int, total, pool.reserve_a as int);
    lemma_scaled_fraction(shares as int, total, pool.reserve_b as int);
    lemma_quotient(shares * pool.reserve_a, total);
    lemma_quotient(shares * pool.reserve_b, total);
}

/// When a withdrawal is refused or accepted: burning nothing is invalid,
/// burning more than exist is refused for want of liquidity, and any other
/// burn succeeds unless a product overflows.
pub proof fn law_withdrawal_refusals(pool: PoolInfo, shares: u128)
    ensures
        shares == 0 ==> remove_liquidity_outcome(pool, shares) == Err::<
            (PoolInfo, (u128, u128)),
            SwapError,
        >(SwapError::InvalidAmount),
        shares > pool.total_shares ==> remove_liquidity_outcome(pool, shares) == Err::<
            (PoolInfo, (u128, u128)),
            SwapError,
        >(SwapError::InsufficientLiquidity),
        0 < shares <= pool.total_shares && shares * pool.reserve_a <= u128::MAX && shares
            * pool.reserve_b <= u128::MAX ==> remove_liquidity_outcome(pool, shares) is Ok,
{
}

/// A trade pays out exactly the amount that `get_swap_quote` quotes for it.
pub proof fn law_swap_pays_the_quote(
    pool: PoolInfo,
    amount_in: u128,
    min_amount_out: u128,
    a_to_b: bool,
)
    requires
        swap_outcome(pool, amount_in, min_amount_out, a_to_b) is Ok,
    ensures
        quote_outcome(pool, amount_in, a_to_b) matches Ok(q) && q.amount_out == swap_outcome(
            pool,
            amount_in,
            min_amount_out,
            a_to_b,
        )->Ok_0.1,
{
}

/// Burning every share pays out both reserves in full and leaves the pool
/// empty.
pub proof fn law_burning_every_share_empties_the_pool(pool: PoolInfo)
    requires
        pool.total_shares > 0,
        pool.total_shares * pool.reserve_a <= u128::MAX,
        pool.total_shares * pool.reserve_b <= u128::MAX,
    ensures
        remove_liquidity_outcome(pool, pool.total_shares) == Ok::<
            (PoolInfo, (u128, u128)),
            SwapError,
        >(
            (
                (PoolInfo { reserve_a: 0, reserve_b: 0, total_shares: 0, ..pool }),
                (pool.reserve_a, pool.reserve_b),
            ),
        ),
{
    lemma_full_share(pool.reserve_a as int, pool.total_shares as int);
    lemma_full_share(pool.reserve_b as int, pool.total_shares as int);
}

} // verus!
