//! A lending pool: suppliers deposit an asset, borrowers take it against
//! collateral, and interest rates follow a two-slope utilization model.

use vstd::prelude::*;

use crate::account::AccountId;
use vstd::arithmetic::div_mod::lemma_div_is_ordered;
use vstd::arithmetic::mul::lemma_mul_inequality;

use crate::math::{
    lemma_div_bounds, lemma_full_share, lemma_health_after_borrow, lemma_quotient,
    lemma_scaled_fraction,
};

verus! {

/// Denominator of amounts written in basis points (100%).
pub const BPS_DENOMINATOR: u128 = 10_000;

/// Seconds in a year, the period of an annual rate.
pub const SECONDS_PER_YEAR: u128 = 31_536_000;

/// Share of the collateral, in basis points, at which a position would be
/// liquidated; the health factor weighs collateral by it.
pub const LIQUIDATION_THRESHOLD: u128 = 8_000;

/// Share of the collateral, in basis points, that may be borrowed.
pub const COLLATERAL_FACTOR: u128 = 7_500;

/// Highest reserve factor a pool accepts, in basis points (50%).
pub const MAX_RESERVE_FACTOR_BPS: u128 = 5_000;

/// Exchange rate of a new pool (1.0 at a scale of 10^9).
pub const INITIAL_EXCHANGE_RATE: u128 = 1_000_000_000;

/// Health factor of 1.0x: positions at or above it are safe.
pub const HEALTHY_FACTOR: u128 = 10_000;

/// Why a lending operation was refused.
#[derive(Clone, Copy, Debug, PartialEq, Eq, Structural)]
pub enum LendingError {
    InsufficientCollateral,
    InsufficientLiquidity,
    InvalidAmount,
    Undercollateralized,
    PositionNotFound,
    Unauthorized,
    MathOverflow,
    HealthFactorTooLow,
}

/// Parameters of the two-slope interest rate model, in basis points.
#[derive(Clone, Copy, Debug, PartialEq, Eq, Structural)]
pub struct InterestRateModel {
    /// Annual rate at zero utilization.
    pub base_rate_bps: u128,
    /// Rate added between zero and optimal utilization, and again above it.
    pub slope_bps: u128,
    /// Utilization at which the second slope starts.
    pub optimal_utilization: u128,
}

/// The pool's totals and parameters.
#[derive(Clone, Copy, Debug, PartialEq, Eq)]
pub struct LendingPool {
    pub asset: AccountId,
    pub total_deposits: u128,
    pub total_borrowed: u128,
    pub reserve_factor_bps: u128,
    pub interest_rate_model: InterestRateModel,
    pub last_update_timestamp: u64,
    /// Value of the pool per deposited unit, at a scale of 10^9.
    pub exchange_rate: u128,
}

/// One user's deposits, debt and collateral.
#[derive(Clone, Copy, Debug, PartialEq, Eq, Structural)]
pub struct UserPosition {
    pub deposited: u128,
    pub borrowed: u128,
    pub collateral_value: u128,
    pub last_accrued: u64,
    pub interest_earned: u128,
    pub interest_owed: u128,
}

/// What a borrow reports.
#[derive(Clone, Copy, Debug, PartialEq, Eq, Structural)]
pub struct BorrowResult {
    pub amount: u128,
    pub health_factor: u128,
    pub new_utilization: u128,
}

/// What a supply reports.
#[derive(Clone, Copy, Debug, PartialEq, Eq, Structural)]
pub struct SupplyResult {
    pub shares: u128,
    pub exchange_rate: u128,
}

/// The state that a lending pool keeps besides the users' positions: its
/// administrator and the pool. Each user's position is kept apart, as an
/// `Option<UserPosition>` that is `None` until the user first acts.
#[derive(Clone, Copy, Debug)]
pub struct LendingContract {
    pub admin: AccountId,
    pub pool: LendingPool,
}

/// `a * b`, or 0 where the product does not fit in a `u128`.
pub open spec fn mul_or_zero(a: int, b: int) -> int {
    if a * b <= u128::MAX {
        a * b
    } else {
        0
    }
}

/// `x / d`, or 0 where `d` is 0.
pub open spec fn div_or_zero(x: int, d: int) -> int {
    if d == 0 {
        0
    } else {
        x / d
    }
}

/// Borrowed over deposited, in basis points; 0 for an empty pool and where
/// `total_borrowed * 10000` overflows.
pub open spec fn utilization(pool: LendingPool) -> int {
    if pool.total_deposits == 0 {
        0
    } else {
        mul_or_zero(pool.total_borrowed as int, 10_000) / (pool.total_deposits as int)
    }
}

/// The annual borrow rate in basis points at `utilization`:
/// `base + utilization * slope / optimal` up to the optimum, and
/// `base + slope + (utilization - optimal) * slope / (10000 - optimal)`
/// above it. A product that overflows and a quotient by zero count as 0;
/// an optimum above 100% divides the excess by 1.
pub open spec fn borrow_rate(model: InterestRateModel, utilization: int) -> int {
    if utilization <= model.optimal_utilization {
        model.base_rate_bps + div_or_zero(
            mul_or_zero(utilization, model.slope_bps as int),
            model.optimal_utilization as int,
        )
    } else {
        let excess = utilization - model.optimal_utilization;
        let max_excess = if model.optimal_utilization <= 10_000 {
            10_000 - model.optimal_utilization
        } else {
            1
        };
        model.base_rate_bps + model.slope_bps + div_or_zero(
            mul_or_zero(excess, model.slope_bps as int),
            max_excess,
        )
    }
}

/// The pool's current borrow rate.
pub open spec fn pool_borrow_rate(pool: LendingPool) -> int {
    borrow_rate(pool.interest_rate_model, utilization(pool))
}

/// Whether the pool's borrow rate fits in a `u128`; the rates cannot be
/// computed otherwise.
pub open spec fn rates_fit(pool: LendingPool) -> bool {
    pool_borrow_rate(pool) <= u128::MAX
}

/// The annual supply rate in basis points:
/// `borrow_rate * utilization / 10000 * (10000 - reserve_factor) / 10000`,
/// where an overflowing product and a reserve factor above 100% count as 0.
pub open spec fn supply_rate(pool: LendingPool) -> int {
    let u = utilization(pool);
    let earned = mul_or_zero(pool_borrow_rate(pool), u) / 10_000;
    let kept = if pool.reserve_factor_bps <= 10_000 {
        10_000 - pool.reserve_factor_bps
    } else {
        0
    };
    mul_or_zero(earned, kept) / 10_000
}

/// A position with nothing in it, opened at `now`.
pub open spec fn fresh_position(now: u64) -> UserPosition {
    UserPosition {
        deposited: 0,
        borrowed: 0,
        collateral_value: 0,
        last_accrued: now,
        interest_earned: 0,
        interest_owed: 0,
    }
}

/// The stored position, or a fresh one opened at `now`.
pub open spec fn position_or_fresh(stored: Option<UserPosition>, now: u64) -> UserPosition {
    match stored {
        Some(p) => p,
        None => fresh_position(now),
    }
}

/// The health factor of a stored position: `u128::MAX` without debt,
/// otherwise `collateral * 8000 / borrowed` (0 where the product overflows).
pub open spec fn health_factor_of(stored: Option<UserPosition>) -> int {
    let p = position_or_fresh(stored, 0);
    if p.borrowed == 0 {
        u128::MAX as int
    } else {
        mul_or_zero(p.collateral_value as int, 8_000) / (p.borrowed as int)
    }
}

/// The pool, the user's position and the report after supplying `amount`
/// at time `now`, or why the supply is refused.
pub open spec fn supply_outcome(
    pool: LendingPool,
    stored: Option<UserPosition>,
    amount: u128,
    now: u64,
) -> Result<(LendingPool, UserPosition, SupplyResult), LendingError> {
    let pos = position_or_fresh(stored, now);
    let deposits = pool.total_deposits;
    let borrowed = pool.total_borrowed;
    if amount == 0 {
        Err(LendingError::InvalidAmount)
    } else if deposits != 0 && amount * deposits > u128::MAX {
        Err(LendingError::MathOverflow)
    } else {
        let shares = if deposits == 0 {
            amount as int
        } else {
            let value = if borrowed + deposits <= u128::MAX {
                borrowed + deposits
            } else {
                1
            };
            amount * deposits / value
        };
        let new_deposits = deposits + amount;
        let total_value = new_deposits + borrowed;
        if new_deposits > u128::MAX || total_value > u128::MAX || total_value * 1_000_000_000
            > u128::MAX || pos.deposited + amount > u128::MAX {
            Err(LendingError::MathOverflow)
        } else {
            let rate = total_value * 1_000_000_000 / new_deposits;
            Ok(
                (
                    LendingPool {
                        total_deposits: new_deposits as u128,
                        exchange_rate: rate as u128,
                        last_update_timestamp: now,
                        ..pool
                    },
                    UserPosition {
                        deposited: (pos.deposited + amount) as u128,
                        last_accrued: now,
                        ..pos
                    },
                    SupplyResult { shares: shares as u128, exchange_rate: rate as u128 },
                ),
            )
        }
    }
}

/// The pool, the user's position and the report after borrowing `amount`
/// at time `now`, or why the borrow is refused. A borrow may take only
/// deposits not yet lent out, and the debt after it may not exceed 75% of
/// the collateral, so a user without collateral cannot borrow.
pub open spec fn borrow_outcome(
    pool: LendingPool,
    stored: Option<UserPosition>,
    amount: u128,
    now: u64,
) -> Result<(LendingPool, UserPosition, BorrowResult), LendingError> {
    let pos = position_or_fresh(stored, now);
    let collateral = pos.collateral_value;
    if amount == 0 {
        Err(LendingError::InvalidAmount)
    } else if pool.total_borrowed + amount > pool.total_deposits {
        Err(LendingError::InsufficientLiquidity)
    } else if pos.borrowed + amount > u128::MAX || collateral * 7_500 > u128::MAX {
        Err(LendingError::MathOverflow)
    } else {
        let new_borrowed = pos.borrowed + amount;
        let max_borrow = collateral * 7_500 / 10_000;
        if new_borrowed > max_borrow {
            Err(LendingError::Undercollateralized)
        } else if collateral * 8_000 > u128::MAX {
            Err(LendingError::MathOverflow)
        } else {
            let health = collateral * 8_000 / new_borrowed;
            let total_borrowed = pool.total_borrowed + amount;
            if health < 10_000 && collateral > 0 {
                Err(LendingError::HealthFactorTooLow)
            } else if total_borrowed * 10_000 > u128::MAX {
                Err(LendingError::MathOverflow)
            } else {
                let new_utilization = total_borrowed * 10_000 / (pool.total_deposits as int);
                Ok(
                    (
                        LendingPool {
                            total_borrowed: total_borrowed as u128,
                            last_update_timestamp: now,
                            ..pool
                        },
                        UserPosition {
                            borrowed: new_borrowed as u128,
                            last_accrued: now,
                            ..pos
                        },
                        BorrowResult {
                            amount,
                            health_factor: health as u128,
                            new_utilization: new_utilization as u128,
                        },
                    ),
                )
            }
        }
    }
}

/// The user's position after depositing `amount` of collateral at time
/// `now`, or why the deposit is refused.
pub open spec fn deposit_collateral_outcome(
    stored: Option<UserPosition>,
    amount: u128,
    now: u64,
) -> Result<UserPosition, LendingError> {
    let pos = position_or_fresh(stored, now);
    if amount == 0 {
        Err(LendingError::InvalidAmount)
    } else if pos.collateral_value + amount > u128::MAX {
        Err(LendingError::MathOverflow)
    } else {
        Ok(UserPosition { collateral_value: (pos.collateral_value + amount) as u128, ..pos })
    }
}

/// The stored position, or a fresh one opened at `now`.
fn position_or_fresh_exec(stored: Option<UserPosition>, now: u64) -> (r: UserPosition)
    ensures
        r == position_or_fresh(stored, now),
{
    match stored {
        Some(p) => p,
        None => UserPosition {
            deposited: 0,
            borrowed: 0,
            collateral_value: 0,
            last_accrued: now,
            interest_earned: 0,
            interest_owed: 0,
        },
    }
}

/// `a * b`, or 0 where the product overflows.
fn mul_or_zero_exec(a: u128, b: u128) -> (r: u128)
    ensures
        r == mul_or_zero(a as int, b as int),
{
    match a.checked_mul(b) {
        Some(x) => x,
        None => 0,
    }
}

/// The pool's utilization in basis points.
fn utilization_exec(pool: &LendingPool) -> (r: u128)
    ensures
        r == utilization(*pool),
{
    if pool.total_deposits == 0 {
        return 0;
    }
    let scaled = mul_or_zero_exec(pool.total_borrowed, BPS_DENOMINATOR);
    scaled / pool.total_deposits
}

/// The borrow rate at `utilization`, or `None` where it does not fit in a
/// `u128`.
fn checked_borrow_rate(model: &InterestRateModel, utilization: u128) -> (r: Option<u128>)
    ensures
        r == (if borrow_rate(*model, utilization as int) <= u128::MAX {
            Some(borrow_rate(*model, utilization as int) as u128)
        } else {
            None::<u128>
        }),
{
    if utilization <= model.optimal_utilization {
        let scaled = mul_or_zero_exec(utilization, model.slope_bps);
        let part = if model.optimal_utilization == 0 {
            0
        } else {
            scaled / model.optimal_utilization
        };
        model.base_rate_bps.checked_add(part)
    } else {
        let excess = utilization - model.optimal_utilization;
        let max_excess = if model.optimal_utilization <= BPS_DENOMINATOR {
            BPS_DENOMINATOR - model.optimal_utilization
        } else {
            1
        };
        let scaled = mul_or_zero_exec(excess, model.slope_bps);
        let part = if max_excess == 0 {
            0
        } else {
            scaled / max_excess
        };
        match model.base_rate_bps.checked_add(model.slope_bps) {
            Some(s) => s.checked_add(part),
            None => None,
        }
    }
}

impl LendingContract {
    /// Sets up an empty pool for `asset` at time `now`, with the given
    /// reserve factor and interest rate model; a reserve factor above
    /// `MAX_RESERVE_FACTOR_BPS` is refused.
    pub fn initialize(
        admin: AccountId,
        asset: AccountId,
        reserve_factor_bps: u128,
        base_rate_bps: u128,
        slope_bps: u128,
        optimal_utilization: u128,
        now: u64,
    ) -> (r: Result<LendingContract, LendingError>)
        ensures
            reserve_factor_bps > MAX_RESERVE_FACTOR_BPS ==> r == Err::<
                LendingContract,
                LendingError,
            >(LendingError::InvalidAmount),
            reserve_factor_bps <= MAX_RESERVE_FACTOR_BPS ==> r == Ok::<
                LendingContract,
                LendingError,
            >(
                (LendingContract {
                    admin,
                    pool: LendingPool {
                        asset,
                        total_deposits: 0,
                        total_borrowed: 0,
                        reserve_factor_bps,
                        interest_rate_model: InterestRateModel {
                            base_rate_bps,
                            slope_bps,
                            optimal_utilization,
                        },
                        last_update_timestamp: now,
                        exchange_rate: INITIAL_EXCHANGE_RATE,
                    },
                }),
            ),
    {
        if reserve_factor_bps > MAX_RESERVE_FACTOR_BPS {
            return Err(LendingError::InvalidAmount);
        }
        let model = InterestRateModel { base_rate_bps, slope_bps, optimal_utilization };
        Ok(
            LendingContract {
                admin,
                pool: LendingPool {
                    asset,
                    total_deposits: 0,
                    total_borrowed: 0,
                    reserve_factor_bps,
                    interest_rate_model: model,
                    last_update_timestamp: now,
                    exchange_rate: INITIAL_EXCHANGE_RATE,
                },
            },
        )
    }

    /// The pool's totals and parameters.
    pub fn get_pool_info(&self) -> (r: LendingPool)
        ensures
            r == self.pool,
    {
        self.pool
    }

    /// Borrowed over deposited, in basis points; at most 10000 while the
    /// pool has lent no more than it holds.
    pub fn get_utilization_rate(&self) -> (r: u128)
        ensures
            r == utilization(self.pool),
            self.pool.total_borrowed <= self.pool.total_deposits ==> r <= BPS_DENOMINATOR,
    {
        proof {
            if self.pool.total_deposits != 0 && self.pool.total_borrowed
                <= self.pool.total_deposits {
                lemma_utilization_at_most_full(self.pool);
            }
        }
        utilization_exec(&self.pool)
    }

    /// Whether the pool's interest rates can be computed, that is whether
    /// the borrow rate fits in a `u128`.
    pub fn interest_rates_fit(&self) -> (r: bool)
        ensures
            r == rates_fit(self.pool),
    {
        let u = utilization_exec(&self.pool);
        checked_borrow_rate(&self.pool.interest_rate_model, u).is_some()
    }

    /// The current annual borrow rate, in basis points.
    pub fn get_borrow_apy(&self) -> (r: u128)
        requires
            rates_fit(self.pool),
        ensures
            r == pool_borrow_rate(self.pool),
    {
        let u = utilization_exec(&self.pool);
        match checked_borrow_rate(&self.pool.interest_rate_model, u) {
            Some(rate) => rate,
            None => 0,
        }
    }

    /// The current annual supply rate, in basis points: the borrow rate
    /// scaled by utilization and by the share the reserve factor leaves.
    pub fn get_supply_apy(&self) -> (r: u128)
        requires
            rates_fit(self.pool),
        ensures
            r == supply_rate(self.pool),
    {
        let u = utilization_exec(&self.pool);
        let rate = match checked_borrow_rate(&self.pool.interest_rate_model, u) {
            Some(rate) => rate,
            None => 0,
        };
        let earned = mul_or_zero_exec(rate, u) / BPS_DENOMINATOR;
        let kept = if self.pool.reserve_factor_bps <= BPS_DENOMINATOR {
            BPS_DENOMINATOR - self.pool.reserve_factor_bps
        } else {
            0
        };
        mul_or_zero_exec(earned, kept) / BPS_DENOMINATOR
    }

    /// Supplies `amount` at time `now` on behalf of the user whose stored
    /// position is `*position` (`None` before the user's first action).
    /// On success the pool and the position are updated and the shares
    /// minted are reported; on failure nothing changes.
    pub fn supply(&mut self, position: &mut Option<UserPosition>, amount: u128, now: u64) -> (r:
        Result<SupplyResult, LendingError>)
        ensures
            match supply_outcome(old(self).pool, *old(position), amount, now) {
                Ok((pool, pos, report)) => {
                    &&& r == Ok::<SupplyResult, LendingError>(report)
                    &&& final(self).pool == pool
                    &&& final(self).admin == old(self).admin
                    &&& *final(position) == Some(pos)
                },
                Err(e) => {
                    &&& r == Err::<SupplyResult, LendingError>(e)
                    &&& *final(self) == *old(self)
                    &&& *final(position) == *old(position)
                },
            },
            old(self).pool.total_borrowed <= old(self).pool.total_deposits
                ==> final(self).pool.total_borrowed <= final(self).pool.total_deposits,
    {
        if amount == 0 {
            return Err(LendingError::InvalidAmount);
        }
        let deposits = self.pool.total_deposits;
        let borrowed = self.pool.total_borrowed;
        let shares = if deposits == 0 {
            amount
        } else {
            let product = match amount.checked_mul(deposits) {
                Some(x) => x,
                None => return Err(LendingError::MathOverflow),
            };
            let value = match borrowed.checked_add(deposits) {
                Some(x) => x,
                None => 1,
            };
            product / value
        };
        let new_deposits = match deposits.checked_add(amount) {
            Some(x) => x,
            None => return Err(LendingError::MathOverflow),
        };
        let total_value = match new_deposits.checked_add(borrowed) {
            Some(x) => x,
            None => return Err(LendingError::MathOverflow),
        };
        let rate = match total_value.checked_mul(INITIAL_EXCHANGE_RATE) {
            Some(x) => x / new_deposits,
            None => return Err(LendingError::MathOverflow),
        };
        let mut pos = position_or_fresh_exec(*position, now);
        let deposited = match pos.deposited.checked_add(amount) {
            Some(x) => x,
            None => return Err(LendingError::MathOverflow),
        };
        self.pool.total_deposits = new_deposits;
        self.pool.exchange_rate = rate;
        self.pool.last_update_timestamp = now;
        pos.deposited = deposited;
        pos.last_accrued = now;
        *position = Some(pos);
        Ok(SupplyResult { shares, exchange_rate: rate })
    }

    /// Borrows `amount` at time `now` for the user whose stored position is
    /// `*position`. Only deposits not yet lent out can be borrowed, so a
    /// successful borrow keeps the pool's total borrowed within its total
    /// deposits. The debt after the borrow may not exceed
    /// `COLLATERAL_FACTOR` of the collateral, so a successful borrow leaves
    /// the health factor at `HEALTHY_FACTOR` or above (and the
    /// `HealthFactorTooLow` check never fires), and a user without
    /// collateral cannot borrow. On failure nothing changes.
    pub fn borrow(&mut self, position: &mut Option<UserPosition>, amount: u128, now: u64) -> (r:
        Result<BorrowResult, LendingError>)
        ensures
            match borrow_outcome(old(self).pool, *old(position), amount, now) {
                Ok((pool, pos, report)) => {
                    &&& r == Ok::<BorrowResult, LendingError>(report)
                    &&& final(self).pool == pool
                    &&& final(self).admin == old(self).admin
                    &&& *final(position) == Some(pos)
                },
                Err(e) => {
                    &&& r == Err::<BorrowResult, LendingError>(e)
                    &&& *final(self) == *old(self)
                    &&& *final(position) == *old(position)
                },
            },
            r matches Ok(report) ==> report.health_factor >= HEALTHY_FACTOR,
            r is Ok ==> ({
                let pos = final(position).unwrap();
                pos.borrowed * 10_000 <= pos.collateral_value * 7_500
            }),
            position_or_fresh(*old(position), now).collateral_value == 0 ==> r is Err,
            r != Err::<BorrowResult, LendingError>(LendingError::HealthFactorTooLow),
            r is Ok ==> final(self).pool.total_borrowed <= final(self).pool.total_deposits,
    {
        if amount == 0 {
            return Err(LendingError::InvalidAmount);
        }
        let total_borrowed = match self.pool.total_borrowed.checked_add(amount) {
            Some(x) => x,
            None => return Err(LendingError::InsufficientLiquidity),
        };
        if total_borrowed > self.pool.total_deposits {
            return Err(LendingError::InsufficientLiquidity);
        }
        let mut pos = position_or_fresh_exec(*position, now);
        let new_borrowed = match pos.borrowed.checked_add(amount) {
            Some(x) => x,
            None => return Err(LendingError::MathOverflow),
        };
        let max_borrow = match pos.collateral_value.checked_mul(COLLATERAL_FACTOR) {
            Some(x) => x / BPS_DENOMINATOR,
            None => return Err(LendingError::MathOverflow),
        };
        if new_borrowed > max_borrow {
            return Err(LendingError::Undercollateralized);
        }
        let health_factor = match pos.collateral_value.checked_mul(LIQUIDATION_THRESHOLD) {
            Some(x) => x / new_borrowed,
            None => return Err(LendingError::MathOverflow),
        };
        proof {
            lemma_health_after_borrow(pos.collateral_value as int, new_borrowed as int);
        }
        if health_factor < HEALTHY_FACTOR && pos.collateral_value > 0 {
            return Err(LendingError::HealthFactorTooLow);
        }
        let new_utilization = match total_borrowed.checked_mul(BPS_DENOMINATOR) {
            Some(x) => x / self.pool.total_deposits,
            None => return Err(LendingError::MathOverflow),
        };
        proof {
            lemma_div_bounds(pos.collateral_value * 7_500, 10_000);
        }
        self.pool.total_borrowed = total_borrowed;
        self.pool.last_update_timestamp = now;
        pos.borrowed = new_borrowed;
        pos.last_accrued = now;
        *position = Some(pos);
        Ok(BorrowResult { amount, health_factor, new_utilization })
    }

    /// Adds `amount` to the collateral of the user whose stored position is
    /// `*position` (a fresh position is opened at `now`); returns the
    /// collateral after the deposit. On failure nothing changes.
    pub fn deposit_collateral(position: &mut Option<UserPosition>, amount: u128, now: u64) -> (r:
        Result<u128, LendingError>)
        ensures
            match deposit_collateral_outcome(*old(position), amount, now) {
                Ok(pos) => {
                    &&& r == Ok::<u128, LendingError>(pos.collateral_value)
                    &&& *final(position) == Some(pos)
                },
                Err(e) => r == Err::<u128, LendingError>(e) && *final(position) == *old(position),
            },
    {
        if amount == 0 {
            return Err(LendingError::InvalidAmount);
        }
        let mut pos = position_or_fresh_exec(*position, now);
        let collateral = match pos.collateral_value.checked_add(amount) {
            Some(x) => x,
            None => return Err(LendingError::MathOverflow),
        };
        pos.collateral_value = collateral;
        *position = Some(pos);
        Ok(collateral)
    }

    /// The stored position, or an empty one.
    pub fn get_user_position(stored: Option<UserPosition>) -> (r: UserPosition)
        ensures
            r == position_or_fresh(stored, 0),
    {
        position_or_fresh_exec(stored, 0)
    }

    /// The health factor of a stored position (10000 is 1.0x):
    /// `u128::MAX` without debt, otherwise `collateral * 8000 / borrowed`.
    pub fn get_health_factor(stored: Option<UserPosition>) -> (r: u128)
        ensures
            r == health_factor_of(stored),
    {
        let pos = position_or_fresh_exec(stored, 0);
        if pos.borrowed == 0 {
            return u128::MAX;
        }
        mul_or_zero_exec(pos.collateral_value, LIQUIDATION_THRESHOLD) / pos.borrowed
    }
}

/// While a pool has lent no more than it holds, its utilization is at
/// most 100%.
pub proof fn lemma_utilization_at_most_full(pool: LendingPool)
    requires
        pool.total_borrowed <= pool.total_deposits,
    ensures
        0 <= utilization(pool) <= 10_000,
{
    if pool.total_deposits != 0 {
        if pool.total_borrowed * 10_000 <= u128::MAX {
            lemma_scaled_fraction(
                pool.total_borrowed as int,
                pool.total_deposits as int,
                10_000,
            );
        } else {
            lemma_div_bounds(0, pool.total_deposits as int);
        }
    }
}

/// The position a user acts with: the stored one, or an empty one opened
/// at `now`.
pub open spec fn acting_position(stored: Option<UserPosition>, now: u64) -> UserPosition {
    if stored is Some {
        stored->Some_0
    } else {
        UserPosition {
            deposited: 0,
            borrowed: 0,
            collateral_value: 0,
            last_accrued: now,
            interest_earned: 0,
            interest_owed: 0,
        }
    }
}

/// A borrow succeeds exactly as far as the rules allow: when the amount is
/// positive, the pool has that much not yet lent out, and the user's debt
/// with it stays within 75% of the collateral (rounded down), the borrow
/// goes through (unless a health or utilization product overflows). The
/// debt grows by the amount; the health factor reported is
/// `collateral * 8000 / debt` and the utilization
/// `total_borrowed * 10000 / total_deposits`, both rounded down.
pub proof fn law_borrow_within_the_limits_succeeds(
    pool: LendingPool,
    stored: Option<UserPosition>,
    amount: u128,
    now: u64,
)
    requires
        amount > 0,
        pool.total_borrowed + amount <= pool.total_deposits,
        acting_position(stored, now).borrowed + amount <= acting_position(stored, now).collateral_value
            * 7_500 / 10_000,
        acting_position(stored, now).collateral_value * 8_000 <= u128::MAX,
        (pool.total_borrowed + amount) * 10_000 <= u128::MAX,
    ensures
        ({
            let pos = acting_position(stored, now);
            let debt = pos.borrowed + amount;
            let total = pool.total_borrowed + amount;
            &&& borrow_outcome(pool, stored, amount, now) is Ok
            &&& borrow_outcome(pool, stored, amount, now) matches Ok((after, new_pos, report)) && {
                &&& new_pos.borrowed == debt
                &&& new_pos.collateral_value == pos.collateral_value
                &&& new_pos.deposited == pos.deposited
                &&& new_pos.interest_earned == pos.interest_earned
                &&& new_pos.interest_owed == pos.interest_owed
                &&& new_pos.last_accrued == now
                &&& report.amount == amount
                &&& report.health_factor * debt <= pos.collateral_value * 8_000
                &&& pos.collateral_value * 8_000 < (report.health_factor + 1) * debt
                &&& report.new_utilization * pool.total_deposits <= total * 10_000
                &&& total * 10_000 < (report.new_utilization + 1) * pool.total_deposits
                &&& after.total_borrowed == total
                &&& after.total_deposits == pool.total_deposits
                &&& after.last_update_timestamp == now
                &&& after.asset == pool.asset && after.exchange_rate == pool.exchange_rate
                &&& after.reserve_factor_bps == pool.reserve_factor_bps
                &&& after.interest_rate_model == pool.interest_rate_model
            }
        }),
{
    let pos = acting_position(stored, now);
    assert(pos == position_or_fresh(stored, now));
    let c = pos.collateral_value as int;
    let debt = pos.borrowed + amount;
    assert(c * 7_500 <= c * 8_000) by (nonlinear_arith)
        requires
            c >= 0,
    ;
    lemma_health_after_borrow(c, debt);
    assert(c * 8_000 >= 0) by (nonlinear_arith)
        requires
            c >= 0,
    ;
    lemma_quotient(c * 8_000, debt);
    lemma_quotient((pool.total_borrowed + amount) * 10_000, pool.total_deposits as int);
}

/// When a borrow is refused: nothing borrowed is invalid, more than the
/// deposits not yet lent out is refused for want of liquidity, and a debt
/// beyond 75% of the collateral (rounded down) is undercollateralized;
/// `Undercollateralized` is reported only then.
pub proof fn law_borrow_refusals(
    pool: LendingPool,
    stored: Option<UserPosition>,
    amount: u128,
    now: u64,
)
    ensures
        amount == 0 ==> borrow_outcome(pool, stored, amount, now) == Err::<
            (LendingPool, UserPosition, BorrowResult),
            LendingError,
        >(LendingError::InvalidAmount),
        amount > 0 && pool.total_borrowed + amount > pool.total_deposits ==> borrow_outcome(
            pool,
            stored,
            amount,
            now,
        ) == Err::<(LendingPool, UserPosition, BorrowResult), LendingError>(
            LendingError::InsufficientLiquidity,
        ),
        borrow_outcome(pool, stored, amount, now) == Err::<
            (LendingPool, UserPosition, BorrowResult),
            LendingError,
        >(LendingError::Undercollateralized) ==> acting_position(stored, now).borrowed + amount
            > acting_position(stored, now).collateral_value * 7_500 / 10_000,
        amount > 0 && pool.total_borrowed + amount <= pool.total_deposits && acting_position(
            stored,
            now,
        ).collateral_value * 7_500 <= u128::MAX && acting_position(stored, now).borrowed + amount
            > acting_position(stored, now).collateral_value * 7_500 / 10_000 ==> borrow_outcome(
            pool,
            stored,
            amount,
            now,
        ) is Err,
{
    assert(acting_position(stored, now) == position_or_fresh(stored, now));
}

/// What a supply does: deposits grow by the amount, as does the user's
/// deposit; the exchange rate becomes the pool's value (deposits plus
/// borrowed) per deposited unit at a scale of 10^9, rounded down; the first
/// supply mints one share per unit, a later one `amount * deposits /
/// (deposits + borrowed)` shares, rounded down.
pub proof fn law_supply_terms(
    pool: LendingPool,
    stored: Option<UserPosition>,
    amount: u128,
    now: u64,
)
    requires
        supply_outcome(pool, stored, amount, now) is Ok,
    ensures
        ({
            let pos = acting_position(stored, now);
            let (after, new_pos, report) = supply_outcome(pool, stored, amount, now)->Ok_0;
            let deposits = pool.total_deposits + amount;
            let value = deposits + pool.total_borrowed;
            &&& after.total_deposits == deposits
            &&& after.total_borrowed == pool.total_borrowed
            &&& after.last_update_timestamp == now
            &&& after.exchange_rate == report.exchange_rate
            &&& after.asset == pool.asset && after.reserve_factor_bps == pool.reserve_factor_bps
            &&& after.interest_rate_model == pool.interest_rate_model
            &&& new_pos.deposited == pos.deposited + amount
            &&& new_pos.borrowed == pos.borrowed
            &&& new_pos.collateral_value == pos.collateral_value
            &&& new_pos.interest_earned == pos.interest_earned
            &&& new_pos.interest_owed == pos.interest_owed
            &&& new_pos.last_accrued == now
            &&& report.exchange_rate * deposits <= value * 1_000_000_000
            &&& value * 1_000_000_000 < (report.exchange_rate + 1) * deposits
            &&& pool.total_deposits == 0 ==> report.shares == amount
            &&& pool.total_deposits > 0 && pool.total_deposits + pool.total_borrowed
                <= u128::MAX ==> {
                &&& report.shares * (pool.total_deposits + pool.total_borrowed) <= amount
                    * pool.total_deposits
                &&& amount * pool.total_deposits < (report.shares + 1) * (pool.total_deposits
                    + pool.total_borrowed)
            }
        }),
{
    let pos = acting_position(stored, now);
    assert(pos == position_or_fresh(stored, now));
    let deposits = pool.total_deposits + amount;
    let value = deposits + pool.total_borrowed;
    lemma_quotient(value * 1_000_000_000, deposits);
    if pool.total_deposits > 0 {
        assert(amount * pool.total_deposits >= 0) by (nonlinear_arith)
            requires
                amount >= 0,
                pool.total_deposits >= 0,
        ;
        if pool.total_deposits + pool.total_borrowed <= u128::MAX {
            lemma_quotient(
                amount * pool.total_deposits,
                pool.total_borrowed + pool.total_deposits,
            );
        }
    }
}

/// When a supply is refused or accepted: nothing supplied is invalid, and
/// a positive supply succeeds whenever the pool's value times 10^9, the
/// share product and the user's deposit all fit.
pub proof fn law_supply_refusals(
    pool: LendingPool,
    stored: Option<UserPosition>,
    amount: u128,
    now: u64,
)
    ensures
        amount == 0 ==> supply_outcome(pool, stored, amount, now) == Err::<
            (LendingPool, UserPosition, SupplyResult),
            LendingError,
        >(LendingError::InvalidAmount),
        amount > 0 && (pool.total_deposits + amount + pool.total_borrowed) * 1_000_000_000
            <= u128::MAX && amount * pool.total_deposits <= u128::MAX && acting_position(
            stored,
            now,
        ).deposited + amount <= u128::MAX ==> supply_outcome(pool, stored, amount, now) is Ok,
{
    assert(acting_position(stored, now) == position_or_fresh(stored, now));
    let v = pool.total_deposits + amount + pool.total_borrowed;
    assert(v >= 0 ==> v <= v * 1_000_000_000) by (nonlinear_arith);
}

/// Depositing collateral adds the amount to the collateral and changes
/// nothing else; nothing deposited is invalid, and a positive deposit
/// succeeds whenever the sum fits.
pub proof fn law_collateral_adds_up(stored: Option<UserPosition>, amount: u128, now: u64)
    ensures
        amount == 0 ==> deposit_collateral_outcome(stored, amount, now) == Err::<
            UserPosition,
            LendingError,
        >(LendingError::InvalidAmount),
        amount > 0 && acting_position(stored, now).collateral_value + amount <= u128::MAX
            ==> deposit_collateral_outcome(stored, amount, now) == Ok::<UserPosition, LendingError>(
            (UserPosition {
                collateral_value: (acting_position(stored, now).collateral_value + amount) as u128,
                ..acting_position(stored, now)
            }),
        ),
        deposit_collateral_outcome(stored, amount, now) is Ok ==> amount > 0
            && acting_position(stored, now).collateral_value + amount <= u128::MAX,
{
    assert(acting_position(stored, now) == position_or_fresh(stored, now));
}

/// Reading a position gives the stored one, and a user who never acted
/// reads as an empty position.
pub proof fn law_missing_position_is_empty(stored: Option<UserPosition>, now: u64)
    ensures
        stored matches Some(p) ==> position_or_fresh(stored, now) == p,
        stored is None ==> position_or_fresh(stored, 0) == (UserPosition {
            deposited: 0,
            borrowed: 0,
            collateral_value: 0,
            last_accrued: 0,
            interest_earned: 0,
            interest_owed: 0,
        }),
{
}

/// The health factor: the largest `h` with `h * borrowed <= collateral *
/// 8000` for a position with debt (where the product fits), and
/// `u128::MAX` for one without debt or without a stored position.
pub proof fn law_health_factor_terms(stored: Option<UserPosition>)
    ensures
        stored is None ==> health_factor_of(stored) == u128::MAX,
        stored matches Some(p) && p.borrowed == 0 ==> health_factor_of(stored) == u128::MAX,
        stored is Some && stored->Some_0.borrowed > 0 && stored->Some_0.collateral_value * 8_000
            <= u128::MAX ==> {
            let p = stored->Some_0;
            &&& health_factor_of(stored) * p.borrowed <= p.collateral_value * 8_000
            &&& p.collateral_value * 8_000 < (health_factor_of(stored) + 1) * p.borrowed
        },
{
    if let Some(p) = stored {
        if p.borrowed > 0 && p.collateral_value * 8_000 <= u128::MAX {
            assert(p.collateral_value * 8_000 >= 0) by (nonlinear_arith)
                requires
                    p.collateral_value >= 0,
            ;
            lemma_quotient(p.collateral_value * 8_000, p.borrowed as int);
        }
    }
}

/// Utilization: 0 for an empty pool, otherwise the largest `u` with
/// `u * total_deposits <= total_borrowed * 10000` (where the product fits).
pub proof fn law_utilization_terms(pool: LendingPool)
    ensures
        pool.total_deposits == 0 ==> utilization(pool) == 0,
        pool.total_deposits > 0 && pool.total_borrowed * 10_000 <= u128::MAX ==> {
            &&& utilization(pool) * pool.total_deposits <= pool.total_borrowed * 10_000
            &&& pool.total_borrowed * 10_000 < (utilization(pool) + 1) * pool.total_deposits
        },
{
    if pool.total_deposits > 0 && pool.total_borrowed * 10_000 <= u128::MAX {
        lemma_quotient(pool.total_borrowed * 10_000, pool.total_deposits as int);
    }
}

/// The two slopes of the borrow rate: at zero utilization it is the base
/// rate; up to the optimum it adds `utilization * slope / optimal` (the
/// largest such amount, rounded down), and above an optimum below 100% it
/// adds `slope` plus `(utilization - optimal) * slope / (10000 - optimal)`,
/// rounded down (where the products fit).
pub proof fn law_borrow_rate_terms(model: InterestRateModel, u: int)
    requires
        u >= 0,
        u * model.slope_bps <= u128::MAX,
    ensures
        u == 0 ==> borrow_rate(model, u) == model.base_rate_bps,
        0 < model.optimal_utilization && u <= model.optimal_utilization ==> {
            let extra = borrow_rate(model, u) - model.base_rate_bps;
            &&& extra * model.optimal_utilization <= u * model.slope_bps
            &&& u * model.slope_bps < (extra + 1) * model.optimal_utilization
        },
        model.optimal_utilization < u && model.optimal_utilization < 10_000 ==> {
            let extra = borrow_rate(model, u) - model.base_rate_bps - model.slope_bps;
            let span = 10_000 - model.optimal_utilization;
            &&& extra * span <= (u - model.optimal_utilization) * model.slope_bps
            &&& (u - model.optimal_utilization) * model.slope_bps < (extra + 1) * span
        },
{
    let s = model.slope_bps as int;
    let opt = model.optimal_utilization as int;
    assert(u * s >= 0) by (nonlinear_arith)
        requires
            u >= 0,
            s >= 0,
    ;
    if u == 0 {
        assert(u * s == 0) by (nonlinear_arith)
            requires
                u == 0,
        ;
        if opt > 0 {
            lemma_quotient(0, opt);
        }
    }
    if 0 < opt && u <= opt {
        lemma_quotient(u * s, opt);
    }
    if opt < u && opt < 10_000 {
        lemma_mul_inequality(u - opt, u, s);
        assert((u - opt) * s >= 0) by (nonlinear_arith)
            requires
                u - opt >= 0,
                s >= 0,
        ;
        lemma_quotient((u - opt) * s, 10_000 - opt);
    }
}

/// The supply rate never exceeds the borrow rate scaled by utilization and
/// by the share the reserve factor leaves: `supply * 10000 * 10000 <=
/// borrow_rate * utilization * (10000 - reserve_factor)`; without
/// utilization suppliers earn nothing.
pub proof fn law_supply_rate_terms(pool: LendingPool)
    requires
        pool.reserve_factor_bps <= 10_000,
        rates_fit(pool),
    ensures
        utilization(pool) == 0 ==> supply_rate(pool) == 0,
        supply_rate(pool) * 10_000 * 10_000 <= pool_borrow_rate(pool) * utilization(pool) * (
        10_000 - pool.reserve_factor_bps),
{
    let u = utilization(pool);
    let rate = pool_borrow_rate(pool);
    let kept = 10_000 - pool.reserve_factor_bps;
    assert(u >= 0) by {
        if pool.total_deposits != 0 {
            lemma_div_bounds(
                mul_or_zero(pool.total_borrowed as int, 10_000),
                pool.total_deposits as int,
            );
        }
    }
    assert(rate >= 0) by {
        law_borrow_rate_is_nonnegative(pool.interest_rate_model, u);
    }
    let x = mul_or_zero(rate, u);
    assert(0 <= x <= rate * u) by (nonlinear_arith)
        requires
            rate >= 0,
            u >= 0,
            x == (if rate * u <= u128::MAX {
                rate * u
            } else {
                0
            }),
    ;
    let earned = x / 10_000;
    lemma_quotient(x, 10_000);
    let y = mul_or_zero(earned, kept);
    assert(0 <= y <= earned * kept) by (nonlinear_arith)
        requires
            earned >= 0,
            kept >= 0,
            y == (if earned * kept <= u128::MAX {
                earned * kept
            } else {
                0
            }),
    ;
    lemma_quotient(y, 10_000);
    let paid = y / 10_000;
    assert(paid * 10_000 * 10_000 <= rate * u * kept) by (nonlinear_arith)
        requires
            paid * 10_000 <= y,
            y <= earned * kept,
            earned * 10_000 <= x,
            x <= rate * u,
            kept >= 0,
            paid >= 0,
            earned >= 0,
    ;
    if u == 0 {
        assert(rate * u == 0) by (nonlinear_arith)
            requires
                u == 0,
        ;
    }
}

/// The borrow rate is never negative.
pub proof fn law_borrow_rate_is_nonnegative(model: InterestRateModel, u: int)
    requires
        u >= 0,
    ensures
        borrow_rate(model, u) >= model.base_rate_bps,
{
    let s = model.slope_bps as int;
    let opt = model.optimal_utilization as int;
    if u <= opt {
        let x = mul_or_zero(u, s);
        assert(x >= 0) by (nonlinear_arith)
            requires
                u >= 0,
                s >= 0,
                x == (if u * s <= u128::MAX {
                    u * s
                } else {
                    0
                }),
        ;
        if opt != 0 {
            lemma_div_bounds(x, opt);
        }
    } else {
        let x = mul_or_zero(u - opt, s);
        assert(x >= 0) by (nonlinear_arith)
            requires
                u - opt >= 0,
                s >= 0,
                x == (if (u - opt) * s <= u128::MAX {
                    (u - opt) * s
                } else {
                    0
                }),
        ;
        let max_excess = if opt <= 10_000 {
            10_000 - opt
        } else {
            1
        };
        if max_excess != 0 {
            lemma_div_bounds(x, max_excess);
        }
    }
}

/// After a successful borrow, the health factor read back from the stored
/// position is the one the borrow reported.
pub proof fn law_health_factor_reads_back(
    pool: LendingPool,
    stored: Option<UserPosition>,
    amount: u128,
    now: u64,
)
    requires
        borrow_outcome(pool, stored, amount, now) is Ok,
    ensures
        ({
            let (_, pos, report) = borrow_outcome(pool, stored, amount, now)->Ok_0;
            health_factor_of(Some(pos)) == report.health_factor
        }),
{
}

/// The borrow rate never falls as utilization rises, as long as
/// `utilization * slope` fits in a `u128` (where it does not, the product
/// counts as 0).
pub proof fn law_borrow_rate_is_monotone(model: InterestRateModel, u1: int, u2: int)
    requires
        0 <= u1 <= u2,
        u2 * model.slope_bps <= u128::MAX,
    ensures
        borrow_rate(model, u1) <= borrow_rate(model, u2),
{
    let s = model.slope_bps as int;
    let opt = model.optimal_utilization as int;
    lemma_mul_inequality(u1, u2, s);
    assert(u1 * s >= 0 && u2 * s >= 0) by (nonlinear_arith)
        requires
            u1 >= 0,
            u2 >= 0,
            s >= 0,
    ;
    let max_excess = if opt <= 10_000 {
        10_000 - opt
    } else {
        1
    };
    if u2 <= opt {
        if opt > 0 {
            lemma_div_is_ordered(u1 * s, u2 * s, opt);
        }
    } else if u1 > opt {
        lemma_mul_inequality(u1 - opt, u2 - opt, s);
        lemma_mul_inequality(u2 - opt, u2, s);
        assert((u1 - opt) * s >= 0) by (nonlinear_arith)
            requires
                u1 - opt >= 0,
                s >= 0,
        ;
        if max_excess > 0 {
            lemma_div_is_ordered((u1 - opt) * s, (u2 - opt) * s, max_excess);
        }
    } else {
        // below the kink the first slope adds at most `slope`
        if opt > 0 {
            lemma_mul_inequality(u1, opt, s);
            assert(opt * s / opt == s) by {
                lemma_full_share(s, opt);
            }
            lemma_div_is_ordered(u1 * s, opt * s, opt);
            assert(opt * s <= u2 * s) by {
                lemma_mul_inequality(opt, u2, s);
            }
        }
        lemma_mul_inequality(u2 - opt, u2, s);
        assert((u2 - opt) * s >= 0) by (nonlinear_arith)
            requires
                u2 - opt >= 0,
                s >= 0,
        ;
        if max_excess > 0 {
            lemma_div_bounds((u2 - opt) * s, max_excess);
        }
    }
}

/// The two slopes meet at the optimum: there the rate is `base + slope`,
/// and above it the rate is never lower.
pub proof fn law_borrow_rate_kink(model: InterestRateModel)
    requires
        model.optimal_utilization > 0,
        model.optimal_utilization * model.slope_bps <= u128::MAX,
    ensures
        borrow_rate(model, model.optimal_utilization as int) == model.base_rate_bps
            + model.slope_bps,
        forall|u: int|
            u > model.optimal_utilization ==> #[trigger] borrow_rate(model, u)
                >= model.base_rate_bps + model.slope_bps,
{
    let s = model.slope_bps as int;
    let opt = model.optimal_utilization as int;
    lemma_full_share(s, opt);
    assert(opt * s == model.optimal_utilization * model.slope_bps);
    assert forall|u: int| u > model.optimal_utilization implies #[trigger] borrow_rate(model, u)
        >= model.base_rate_bps + model.slope_bps by {
        let excess = u - opt;
        assert(mul_or_zero(excess, s) >= 0) by (nonlinear_arith)
            requires
                excess > 0,
                s >= 0,
        ;
        let max_excess = if opt <= 10_000 {
            10_000 - opt
        } else {
            1
        };
        if max_excess != 0 {
            lemma_div_bounds(mul_or_zero(excess, s), max_excess);
        }
    }
}

/// While the pool has lent no more than it holds (which `initialize`
/// establishes and `supply` and `borrow` keep), suppliers earn at most
/// the borrow rate, and strictly less when that rate is positive and
/// either the reserve factor keeps a share or utilization is below 100%.
pub proof fn law_supply_rate_at_most_borrow_rate(pool: LendingPool)
    requires
        pool.total_borrowed <= pool.total_deposits,
        rates_fit(pool),
    ensures
        supply_rate(pool) <= pool_borrow_rate(pool),
        pool_borrow_rate(pool) > 0 && (pool.reserve_factor_bps > 0 || utilization(pool) < 10_000)
            ==> supply_rate(pool) < pool_borrow_rate(pool),
{
    let u = utilization(pool);
    let rate = pool_borrow_rate(pool);
    lemma_utilization_at_most_full(pool);
    assert(rate >= 0) by {
        assert(mul_or_zero(u, pool.interest_rate_model.slope_bps as int) >= 0) by (nonlinear_arith)
            requires
                u >= 0,
        ;
        let excess = u - pool.interest_rate_model.optimal_utilization;
        if u > pool.interest_rate_model.optimal_utilization {
            assert(mul_or_zero(excess, pool.interest_rate_model.slope_bps as int) >= 0)
                by (nonlinear_arith)
                requires
                    excess >= 0,
            ;
            let max_excess = if pool.interest_rate_model.optimal_utilization <= 10_000 {
                10_000 - pool.interest_rate_model.optimal_utilization
            } else {
                1
            };
            if max_excess != 0 {
                lemma_div_bounds(
                    mul_or_zero(excess, pool.interest_rate_model.slope_bps as int),
                    max_excess,
                );
            }
        } else if pool.interest_rate_model.optimal_utilization != 0 {
            lemma_div_bounds(
                mul_or_zero(u, pool.interest_rate_model.slope_bps as int),
                pool.interest_rate_model.optimal_utilization as int,
            );
        }
    }
    // earned = rate * u / 10000, at most the rate since u <= 10000
    let earned = mul_or_zero(rate, u) / 10_000;
    if rate * u <= u128::MAX {
        if rate > 0 {
            lemma_scaled_fraction(u, 10_000, rate);
            assert(rate * u == u * rate) by (nonlinear_arith);
        } else {
            assert(rate * u == 0) by (nonlinear_arith)
                requires
                    rate == 0,
            ;
        }
    }
    assert(earned <= rate);
    assert(u < 10_000 && rate > 0 ==> earned < rate);
    assert(earned >= 0);
    let kept = if pool.reserve_factor_bps <= 10_000 {
        10_000 - pool.reserve_factor_bps
    } else {
        0
    };
    let paid = mul_or_zero(earned, kept) / 10_000;
    if earned * kept <= u128::MAX {
        if earned > 0 {
            lemma_scaled_fraction(kept, 10_000, earned);
            assert(earned * kept == kept * earned) by (nonlinear_arith);
        } else {
            assert(earned * kept == 0) by (nonlinear_arith)
                requires
                    earned == 0,
            ;
        }
    }
    assert(paid <= earned);
    assert(pool.reserve_factor_bps > 0 && earned > 0 ==> paid < earned);
}

/// The first supply into an empty pool mints one share per unit supplied
/// at an exchange rate of 1.0.
pub proof fn law_first_supply_mints_at_par(
    pool: LendingPool,
    stored: Option<UserPosition>,
    amount: u128,
    now: u64,
)
    requires
        pool.total_deposits == 0,
        pool.total_borrowed == 0,
        supply_outcome(pool, stored, amount, now) is Ok,
    ensures
        supply_outcome(pool, stored, amount, now)->Ok_0.2 == (SupplyResult {
            shares: amount,
            exchange_rate: INITIAL_EXCHANGE_RATE,
        }),
{
    lemma_full_share(1_000_000_000, amount as int);
    assert(amount * 1_000_000_000int == (amount as int) * 1_000_000_000) by (nonlinear_arith);
}

} // verus!
