//! A manager of concentrated-liquidity pools: an administrator creates
//! pools at fee tiers, and owners add liquidity to them within tick ranges
//! as numbered positions.

use std::collections::HashMap;

use vstd::prelude::*;

use crate::account::AccountId;
use crate::math::lemma_quotient;

verus! {

/// Tokens paid out per unit of liquidity removed, relative to the pool's
/// whole liquidity.
pub const PAYOUT_SCALE: u128 = 1_000;

/// Why an operation on the pools or positions was refused.
#[derive(Clone, Copy, Debug, PartialEq, Eq, Structural)]
pub enum LiquidityError {
    InsufficientLiquidity,
    InvalidAmount,
    InvalidRange,
    PositionNotFound,
    Unauthorized,
    PoolFull,
    MathOverflow,
}

/// A pool's token pair, fee tier, tick spacing, liquidity and price.
#[derive(Clone, Copy, Debug, PartialEq, Eq)]
pub struct PoolConfig {
    pub token_a: AccountId,
    pub token_b: AccountId,
    pub fee_tier_bps: u128,
    pub tick_spacing: u32,
    pub total_liquidity: u128,
    /// Square root of the price, in Q64.64 fixed point.
    pub sqrt_price: u128,
}

/// Liquidity that one owner holds in one pool within a tick range.
#[derive(Clone, Copy, Debug, PartialEq, Eq)]
pub struct LiquidityPosition {
    pub id: u64,
    pub owner: AccountId,
    pub pool_id: u32,
    pub tick_lower: i32,
    pub tick_upper: i32,
    pub liquidity: u128,
    pub fee_growth_inside: u128,
    pub tokens_owed_a: u128,
    pub tokens_owed_b: u128,
}

/// What adding liquidity reports.
#[derive(Clone, Copy, Debug, PartialEq, Eq, Structural)]
pub struct AddLiquidityResult {
    pub position_id: u64,
    pub amount_a: u128,
    pub amount_b: u128,
    pub liquidity_minted: u128,
}

/// What removing liquidity reports.
#[derive(Clone, Copy, Debug, PartialEq, Eq, Structural)]
pub struct RemoveLiquidityResult {
    pub amount_a: u128,
    pub amount_b: u128,
    pub fees_a: u128,
    pub fees_b: u128,
}

/// Everything the manager keeps. A field that is `None` has never been
/// set; `initialize` sets the administrator, the pool count and the fee
/// tiers, and leaves pools and positions as they are.
pub struct LiquidityContract {
    pub admin: Option<AccountId>,
    pub pool_count: Option<u32>,
    pub fee_tiers: Option<Vec<u128>>,
    /// The number of positions opened so far.
    pub position_count: Option<u64>,
    pub pools: HashMap<u32, PoolConfig>,
    pub positions: HashMap<u64, LiquidityPosition>,
}

/// The manager's state as mathematical values.
pub struct LiquidityState {
    pub admin: Option<AccountId>,
    pub pool_count: Option<u32>,
    pub fee_tiers: Option<Seq<u128>>,
    pub position_count: Option<u64>,
    pub pools: Map<u32, PoolConfig>,
    pub positions: Map<u64, LiquidityPosition>,
}

impl View for LiquidityContract {
    type V = LiquidityState;

    open spec fn view(&self) -> LiquidityState {
        LiquidityState {
            admin: self.admin,
            pool_count: self.pool_count,
            fee_tiers: match self.fee_tiers {
                Some(t) => Some(t@),
                None => None,
            },
            position_count: self.position_count,
            pools: self.pools@,
            positions: self.positions@,
        }
    }
}

/// The fee tiers a freshly initialized manager offers: 1, 5, 30 and 100
/// basis points.
pub open spec fn default_fee_tiers() -> Seq<u128> {
    seq![1u128, 5u128, 30u128, 100u128]
}

/// The number of pools, 0 before initialization.
pub open spec fn pool_count_of(s: LiquidityState) -> u32 {
    match s.pool_count {
        Some(c) => c,
        None => 0,
    }
}

/// The fee tiers, empty before initialization.
pub open spec fn fee_tiers_of(s: LiquidityState) -> Seq<u128> {
    match s.fee_tiers {
        Some(t) => t,
        None => Seq::empty(),
    }
}

/// The id the next position gets: one more than the positions opened so far.
pub open spec fn next_position_id(s: LiquidityState) -> int {
    match s.position_count {
        Some(c) => c + 1,
        None => 1,
    }
}

/// Every position's id lies between 1 and the number of positions opened,
/// so the next id is free.
pub open spec fn ids_within_count(s: LiquidityState) -> bool {
    forall|id: u64| #[trigger]
        s.positions.contains_key(id) ==> 1 <= id && id < next_position_id(s)
}

/// The state after `initialize(admin)`.
pub open spec fn initialized(s: LiquidityState, admin: AccountId) -> LiquidityState {
    LiquidityState {
        admin: Some(admin),
        pool_count: Some(0),
        fee_tiers: Some(default_fee_tiers()),
        ..s
    }
}

/// The state after creating a pool and the pool's id, or why the pool is
/// refused. Pools are numbered from 1 in order of creation.
pub open spec fn create_pool_outcome(
    s: LiquidityState,
    token_a: AccountId,
    token_b: AccountId,
    fee_tier_bps: u128,
    tick_spacing: u32,
    initial_sqrt_price: u128,
) -> Result<(LiquidityState, u32), LiquidityError> {
    let id = pool_count_of(s) + 1;
    if id > u32::MAX {
        Err(LiquidityError::MathOverflow)
    } else {
        let pool = PoolConfig {
            token_a,
            token_b,
            fee_tier_bps,
            tick_spacing,
            total_liquidity: 0,
            sqrt_price: initial_sqrt_price,
        };
        Ok(
            (
                LiquidityState {
                    pools: s.pools.insert(id as u32, pool),
                    pool_count: Some(id as u32),
                    ..s
                },
                id as u32,
            ),
        )
    }
}

/// The pool with id `pool_id`, or `PositionNotFound`.
pub open spec fn get_pool_outcome(s: LiquidityState, pool_id: u32) -> Result<
    PoolConfig,
    LiquidityError,
> {
    if s.pools.contains_key(pool_id) {
        Ok(s.pools[pool_id])
    } else {
        Err(LiquidityError::PositionNotFound)
    }
}

/// The state after opening a position in `pool_id` and the report, or why
/// the position is refused. The position's liquidity is
/// `amount_a + amount_b` and it gets the next free id.
pub open spec fn add_liquidity_outcome(
    s: LiquidityState,
    owner: AccountId,
    pool_id: u32,
    tick_lower: i32,
    tick_upper: i32,
    amount_a: u128,
    amount_b: u128,
) -> Result<(LiquidityState, AddLiquidityResult), LiquidityError> {
    if tick_lower >= tick_upper {
        Err(LiquidityError::InvalidRange)
    } else if amount_a == 0 && amount_b == 0 {
        Err(LiquidityError::InvalidAmount)
    } else if !s.pools.contains_key(pool_id) {
        Err(LiquidityError::PositionNotFound)
    } else {
        let pool = s.pools[pool_id];
        let liquidity = amount_a + amount_b;
        let id = next_position_id(s);
        if liquidity > u128::MAX || pool.total_liquidity + liquidity > u128::MAX || id
            > u64::MAX {
            Err(LiquidityError::MathOverflow)
        } else {
            let position = LiquidityPosition {
                id: id as u64,
                owner,
                pool_id,
                tick_lower,
                tick_upper,
                liquidity: liquidity as u128,
                fee_growth_inside: 0,
                tokens_owed_a: 0,
                tokens_owed_b: 0,
            };
            Ok(
                (
                    LiquidityState {
                        pools: s.pools.insert(
                            pool_id,
                            PoolConfig {
                                total_liquidity: (pool.total_liquidity + liquidity) as u128,
                                ..pool
                            },
                        ),
                        positions: s.positions.insert(id as u64, position),
                        position_count: Some(id as u64),
                        ..s
                    },
                    AddLiquidityResult {
                        position_id: id as u64,
                        amount_a,
                        amount_b,
                        liquidity_minted: liquidity as u128,
                    },
                ),
            )
        }
    }
}

/// The state after `owner` removes `liquidity` from position
/// `position_id` and the report, or why the removal is refused. Each token
/// is paid `liquidity * 1000 / pool liquidity` (0 from a pool without
/// liquidity), and the fees owed are paid out and cleared.
pub open spec fn remove_liquidity_outcome(
    s: LiquidityState,
    owner: AccountId,
    position_id: u64,
    liquidity: u128,
) -> Result<(LiquidityState, RemoveLiquidityResult), LiquidityError> {
    if !s.positions.contains_key(position_id) {
        Err(LiquidityError::PositionNotFound)
    } else {
        let pos = s.positions[position_id];
        if pos.owner != owner {
            Err(LiquidityError::Unauthorized)
        } else if liquidity > pos.liquidity {
            Err(LiquidityError::InsufficientLiquidity)
        } else if !s.pools.contains_key(pos.pool_id) {
            Err(LiquidityError::PositionNotFound)
        } else {
            let pool = s.pools[pos.pool_id];
            let total = pool.total_liquidity;
            if total > 0 && liquidity * 1_000 > u128::MAX {
                Err(LiquidityError::MathOverflow)
            } else if liquidity > total {
                Err(LiquidityError::MathOverflow)
            } else {
                let amount = if total > 0 {
                    liquidity * 1_000 / (total as int)
                } else {
                    0
                };
                Ok(
                    (
                        LiquidityState {
                            positions: s.positions.insert(
                                position_id,
                                LiquidityPosition {
                                    liquidity: (pos.liquidity - liquidity) as u128,
                                    tokens_owed_a: 0,
                                    tokens_owed_b: 0,
                                    ..pos
                                },
                            ),
                            pools: s.pools.insert(
                                pos.pool_id,
                                PoolConfig { total_liquidity: (total - liquidity) as u128, ..pool },
                            ),
                            ..s
                        },
                        RemoveLiquidityResult {
                            amount_a: amount as u128,
                            amount_b: amount as u128,
                            fees_a: pos.tokens_owed_a,
                            fees_b: pos.tokens_owed_b,
                        },
                    ),
                )
            }
        }
    }
}

/// The state after `owner` collects the fees of position `position_id` and
/// the fees paid, or why the collection is refused.
pub open spec fn collect_fees_outcome(s: LiquidityState, owner: AccountId, position_id: u64) -> Result<
    (LiquidityState, (u128, u128)),
    LiquidityError,
> {
    if !s.positions.contains_key(position_id) {
        Err(LiquidityError::PositionNotFound)
    } else {
        let pos = s.positions[position_id];
        if pos.owner != owner {
            Err(LiquidityError::Unauthorized)
        } else {
            Ok(
                (
                    LiquidityState {
                        positions: s.positions.insert(
                            position_id,
                            LiquidityPosition { tokens_owed_a: 0, tokens_owed_b: 0, ..pos },
                        ),
                        ..s
                    },
                    (pos.tokens_owed_a, pos.tokens_owed_b),
                ),
            )
        }
    }
}

impl LiquidityContract {
    /// A manager with nothing stored.
    pub fn new() -> (r: LiquidityContract)
        ensures
            r@.admin is None,
            r@.pool_count is None,
            r@.fee_tiers is None,
            r@.position_count is None,
            r@.pools == Map::<u32, PoolConfig>::empty(),
            r@.positions == Map::<u64, LiquidityPosition>::empty(),
            ids_within_count(r@),
    {
        LiquidityContract {
            admin: None,
            pool_count: None,
            fee_tiers: None,
            position_count: None,
            pools: HashMap::new(),
            positions: HashMap::new(),
        }
    }

    /// Sets the administrator, resets the pool count to 0 and offers the
    /// default fee tiers (1, 5, 30 and 100 basis points).
    pub fn initialize(&mut self, admin: AccountId) -> (r: Result<(), LiquidityError>)
        ensures
            r is Ok,
            final(self)@ == initialized(old(self)@, admin),
            ids_within_count(old(self)@) ==> ids_within_count(final(self)@),
    {
        self.admin = Some(admin);
        self.pool_count = Some(0);
        let mut tiers: Vec<u128> = Vec::new();
        tiers.push(1);
        tiers.push(5);
        tiers.push(30);
        tiers.push(100);
        self.fee_tiers = Some(tiers);
        proof {
            assert(tiers@ =~= default_fee_tiers());
            assert(final(self)@.pools == old(self)@.pools);
        }
        Ok(())
    }

    /// Creates a pool for a token pair at a fee tier; pools are numbered
    /// from 1 in order of creation. Needs an initialized manager.
    pub fn create_pool(
        &mut self,
        token_a: AccountId,
        token_b: AccountId,
        fee_tier_bps: u128,
        tick_spacing: u32,
        initial_sqrt_price: u128,
    ) -> (r: Result<u32, LiquidityError>)
        requires
            old(self)@.admin is Some,
            old(self)@.pool_count is Some,
        ensures
            match create_pool_outcome(
                old(self)@,
                token_a,
                token_b,
                fee_tier_bps,
                tick_spacing,
                initial_sqrt_price,
            ) {
                Ok((s, id)) => r == Ok::<u32, LiquidityError>(id) && final(self)@ == s,
                Err(e) => r == Err::<u32, LiquidityError>(e) && final(self)@ == old(self)@,
            },
            ids_within_count(old(self)@) ==> ids_within_count(final(self)@),
    {
        let count = match self.pool_count {
            Some(c) => c,
            None => 0,
        };
        let pool_id = match count.checked_add(1) {
            Some(id) => id,
            None => return Err(LiquidityError::MathOverflow),
        };
        let pool = PoolConfig {
            token_a,
            token_b,
            fee_tier_bps,
            tick_spacing,
            total_liquidity: 0,
            sqrt_price: initial_sqrt_price,
        };
        self.pools.insert(pool_id, pool);
        self.pool_count = Some(pool_id);
        Ok(pool_id)
    }

    /// The pool with id `pool_id`.
    pub fn get_pool(&self, pool_id: u32) -> (r: Result<PoolConfig, LiquidityError>)
        ensures
            r == get_pool_outcome(self@, pool_id),
    {
        match self.pools.get(&pool_id) {
            Some(pool) => Ok(*pool),
            None => Err(LiquidityError::PositionNotFound),
        }
    }

    /// The number of pools created since initialization.
    pub fn get_pool_count(&self) -> (r: u32)
        ensures
            r == pool_count_of(self@),
    {
        match self.pool_count {
            Some(c) => c,
            None => 0,
        }
    }

    /// Opens a position for `owner` in pool `pool_id` over
    /// `[tick_lower, tick_upper)` with liquidity `amount_a + amount_b`, and
    /// adds that liquidity to the pool.
    pub fn add_liquidity(
        &mut self,
        owner: AccountId,
        pool_id: u32,
        tick_lower: i32,
        tick_upper: i32,
        amount_a: u128,
        amount_b: u128,
    ) -> (r: Result<AddLiquidityResult, LiquidityError>)
        ensures
            match add_liquidity_outcome(
                old(self)@,
                owner,
                pool_id,
                tick_lower,
                tick_upper,
                amount_a,
                amount_b,
            ) {
                Ok((s, report)) => r == Ok::<AddLiquidityResult, LiquidityError>(report)
                    && final(self)@ == s,
                Err(e) => r == Err::<AddLiquidityResult, LiquidityError>(e) && final(self)@
                    == old(self)@,
            },
            ids_within_count(old(self)@) ==> ids_within_count(final(self)@),
            ids_within_count(old(self)@) ==> (r matches Ok(report)
                ==> !old(self)@.positions.contains_key(report.position_id)),
    {
        if tick_lower >= tick_upper {
            return Err(LiquidityError::InvalidRange);
        }
        if amount_a == 0 && amount_b == 0 {
            return Err(LiquidityError::InvalidAmount);
        }
        let mut pool = match self.pools.get(&pool_id) {
            Some(p) => *p,
            None => return Err(LiquidityError::PositionNotFound),
        };
        let liquidity = match amount_a.checked_add(amount_b) {
            Some(x) => x,
            None => return Err(LiquidityError::MathOverflow),
        };
        let total = match pool.total_liquidity.checked_add(liquidity) {
            Some(x) => x,
            None => return Err(LiquidityError::MathOverflow),
        };
        let opened = match self.position_count {
            Some(c) => c,
            None => 0,
        };
        let position_id = match opened.checked_add(1) {
            Some(x) => x,
            None => return Err(LiquidityError::MathOverflow),
        };
        pool.total_liquidity = total;
        let position = LiquidityPosition {
            id: position_id,
            owner,
            pool_id,
            tick_lower,
            tick_upper,
            liquidity,
            fee_growth_inside: 0,
            tokens_owed_a: 0,
            tokens_owed_b: 0,
        };
        self.positions.insert(position_id, position);
        self.pools.insert(pool_id, pool);
        self.position_count = Some(position_id);
        Ok(AddLiquidityResult { position_id, amount_a, amount_b, liquidity_minted: liquidity })
    }

    /// Removes `liquidity` from `owner`'s position `position_id` and from
    /// its pool, paying each token `liquidity * 1000 / pool liquidity` and
    /// the fees owed, which are cleared.
    pub fn remove_liquidity(&mut self, owner: AccountId, position_id: u64, liquidity: u128) -> (r:
        Result<RemoveLiquidityResult, LiquidityError>)
        ensures
            match remove_liquidity_outcome(old(self)@, owner, position_id, liquidity) {
                Ok((s, report)) => r == Ok::<RemoveLiquidityResult, LiquidityError>(report)
                    && final(self)@ == s,
                Err(e) => r == Err::<RemoveLiquidityResult, LiquidityError>(e) && final(self)@
                    == old(self)@,
            },
            ids_within_count(old(self)@) ==> ids_within_count(final(self)@),
    {
        let mut position = match self.positions.get(&position_id) {
            Some(p) => *p,
            None => return Err(LiquidityError::PositionNotFound),
        };
        if !position.owner.same_as(&owner) {
            return Err(LiquidityError::Unauthorized);
        }
        if liquidity > position.liquidity {
            return Err(LiquidityError::InsufficientLiquidity);
        }
        let mut pool = match self.pools.get(&position.pool_id) {
            Some(p) => *p,
            None => return Err(LiquidityError::PositionNotFound),
        };
        let total = pool.total_liquidity;
        let amount_a = if total > 0 {
            match liquidity.checked_mul(PAYOUT_SCALE) {
                Some(x) => x / total,
                None => return Err(LiquidityError::MathOverflow),
            }
        } else {
            0
        };
        let amount_b = amount_a;
        let remaining_total = match total.checked_sub(liquidity) {
            Some(x) => x,
            None => return Err(LiquidityError::MathOverflow),
        };
        let fees_a = position.tokens_owed_a;
        let fees_b = position.tokens_owed_b;
        position.liquidity = position.liquidity - liquidity;
        position.tokens_owed_a = 0;
        position.tokens_owed_b = 0;
        pool.total_liquidity = remaining_total;
        let pool_id = position.pool_id;
        self.positions.insert(position_id, position);
        self.pools.insert(pool_id, pool);
        Ok(RemoveLiquidityResult { amount_a, amount_b, fees_a, fees_b })
    }

    /// Pays `owner` the fees owed on position `position_id` and clears them.
    pub fn collect_fees(&mut self, owner: AccountId, position_id: u64) -> (r: Result<
        (u128, u128),
        LiquidityError,
    >)
        ensures
            match collect_fees_outcome(old(self)@, owner, position_id) {
                Ok((s, fees)) => r == Ok::<(u128, u128), LiquidityError>(fees) && final(self)@
                    == s,
                Err(e) => r == Err::<(u128, u128), LiquidityError>(e) && final(self)@
                    == old(self)@,
            },
            ids_within_count(old(self)@) ==> ids_within_count(final(self)@),
    {
        let mut position = match self.positions.get(&position_id) {
            Some(p) => *p,
            None => return Err(LiquidityError::PositionNotFound),
        };
        if !position.owner.same_as(&owner) {
            return Err(LiquidityError::Unauthorized);
        }
        let fees_a = position.tokens_owed_a;
        let fees_b = position.tokens_owed_b;
        position.tokens_owed_a = 0;
        position.tokens_owed_b = 0;
        self.positions.insert(position_id, position);
        Ok((fees_a, fees_b))
    }

    /// The fee tiers on offer; none before initialization.
    pub fn get_fee_tiers(&self) -> (r: Vec<u128>)
        ensures
            r@ == fee_tiers_of(self@),
    {
        let mut out: Vec<u128> = Vec::new();
        match &self.fee_tiers {
            Some(tiers) => {
                let mut i: usize = 0;
                while i < tiers.len()
                    invariant
                        i <= tiers.len(),
                        out@ == tiers@.take(i as int),
                    decreases tiers.len() - i,
                {
                    out.push(tiers[i]);
                    assert(tiers@.take(i + 1) =~= tiers@.take(i as int).push(tiers@[i as int]));
                    i = i + 1;
                }
                assert(tiers@.take(tiers.len() as int) =~= tiers@);
            },
            None => {
                assert(out@ =~= Seq::<u128>::empty());
            },
        }
        out
    }
}

/// Initializing sets the administrator, resets the pool count to 0 and
/// offers the fee tiers 1, 5, 30 and 100 basis points; it keeps every pool,
/// every position and the position count.
pub proof fn law_initialize_terms(s: LiquidityState, admin: AccountId)
    ensures
        s.fee_tiers is None ==> fee_tiers_of(s).len() == 0,
        s.pool_count is None ==> pool_count_of(s) == 0,
        s.pool_count matches Some(c) ==> pool_count_of(s) == c,
        ({
            let s2 = initialized(s, admin);
            &&& s2.admin == Some(admin)
            &&& s2.pool_count == Some(0u32)
            &&& s2.fee_tiers matches Some(t) && t.len() == 4 && t[0] == 1 && t[1] == 5 && t[2]
                == 30 && t[3] == 100
            &&& fee_tiers_of(s2) =~= seq![1u128, 5u128, 30u128, 100u128]
            &&& pool_count_of(s2) == 0
            &&& s2.pools == s.pools
            &&& s2.positions == s.positions
            &&& s2.position_count == s.position_count
        }),
{
}

/// Creating a pool stores it under the next id with no liquidity and the
/// price given, and leaves every other pool, the positions, the fee tiers
/// and the administrator as they were; it is refused only when the count
/// is at its maximum.
pub proof fn law_create_pool_terms(
    s: LiquidityState,
    token_a: AccountId,
    token_b: AccountId,
    fee_tier_bps: u128,
    tick_spacing: u32,
    initial_sqrt_price: u128,
)
    ensures
        ({
            let count: int = if s.pool_count is Some {
                s.pool_count->Some_0 as int
            } else {
                0
            };
            let outcome = create_pool_outcome(
                s,
                token_a,
                token_b,
                fee_tier_bps,
                tick_spacing,
                initial_sqrt_price,
            );
            &&& count < u32::MAX <==> outcome is Ok
            &&& outcome matches Ok((s2, id)) ==> {
                &&& id == count + 1
                &&& s2.pool_count == Some(id)
                &&& s2.pools.contains_key(id)
                &&& s2.pools[id].token_a == token_a && s2.pools[id].token_b == token_b
                &&& s2.pools[id].fee_tier_bps == fee_tier_bps
                &&& s2.pools[id].tick_spacing == tick_spacing
                &&& s2.pools[id].total_liquidity == 0
                &&& s2.pools[id].sqrt_price == initial_sqrt_price
                &&& forall|other: u32| #[trigger]
                    s.pools.contains_key(other) && other != id ==> s2.pools.contains_key(other)
                        && s2.pools[other] == s.pools[other]
                &&& s2.positions == s.positions && s2.admin == s.admin
                &&& s2.fee_tiers == s.fee_tiers && s2.position_count == s.position_count
            }
            &&& outcome is Err ==> outcome == Err::<(LiquidityState, u32), LiquidityError>(
                LiquidityError::MathOverflow,
            )
        }),
{
}

/// Opening a position: its liquidity is `amount_a + amount_b`, its id one
/// more than the positions opened so far, it records the owner, pool and
/// ticks with nothing owed, and its pool's liquidity grows by that much;
/// nothing else changes.
pub proof fn law_add_liquidity_terms(
    s: LiquidityState,
    owner: AccountId,
    pool_id: u32,
    tick_lower: i32,
    tick_upper: i32,
    amount_a: u128,
    amount_b: u128,
)
    requires
        add_liquidity_outcome(s, owner, pool_id, tick_lower, tick_upper, amount_a, amount_b) is Ok,
    ensures
        ({
            let (s2, report) = add_liquidity_outcome(
                s,
                owner,
                pool_id,
                tick_lower,
                tick_upper,
                amount_a,
                amount_b,
            )->Ok_0;
            let opened: int = if s.position_count is Some {
                s.position_count->Some_0 as int
            } else {
                0
            };
            let id = report.position_id;
            &&& tick_lower < tick_upper
            &&& report.amount_a == amount_a && report.amount_b == amount_b
            &&& report.liquidity_minted == amount_a + amount_b
            &&& id == opened + 1
            &&& s2.position_count == Some(id)
            &&& s2.positions.contains_key(id)
            &&& s2.positions[id] == (LiquidityPosition {
                id,
                owner,
                pool_id,
                tick_lower,
                tick_upper,
                liquidity: (amount_a + amount_b) as u128,
                fee_growth_inside: 0,
                tokens_owed_a: 0,
                tokens_owed_b: 0,
            })
            &&& s.pools.contains_key(pool_id) && s2.pools.contains_key(pool_id)
            &&& s2.pools[pool_id].total_liquidity == s.pools[pool_id].total_liquidity + amount_a
                + amount_b
            &&& s2.pools[pool_id].token_a == s.pools[pool_id].token_a
            &&& s2.pools[pool_id].token_b == s.pools[pool_id].token_b
            &&& s2.pools[pool_id].fee_tier_bps == s.pools[pool_id].fee_tier_bps
            &&& s2.pools[pool_id].tick_spacing == s.pools[pool_id].tick_spacing
            &&& s2.pools[pool_id].sqrt_price == s.pools[pool_id].sqrt_price
            &&& forall|other: u32| #[trigger]
                s.pools.contains_key(other) && other != pool_id ==> s2.pools.contains_key(other)
                    && s2.pools[other] == s.pools[other]
            &&& forall|other: u64| #[trigger]
                s.positions.contains_key(other) && other != id ==> s2.positions.contains_key(other)
                    && s2.positions[other] == s.positions[other]
            &&& s2.admin == s.admin && s2.pool_count == s.pool_count
            &&& s2.fee_tiers == s.fee_tiers
        }),
{
}

/// When opening a position is refused or accepted: an empty or inverted
/// tick range is invalid, two zero amounts are invalid, a pool that does
/// not exist is not found, and otherwise it succeeds unless a sum or the
/// position count overflows.
pub proof fn law_add_liquidity_refusals(
    s: LiquidityState,
    owner: AccountId,
    pool_id: u32,
    tick_lower: i32,
    tick_upper: i32,
    amount_a: u128,
    amount_b: u128,
)
    ensures
        ({
            let outcome = add_liquidity_outcome(
                s,
                owner,
                pool_id,
                tick_lower,
                tick_upper,
                amount_a,
                amount_b,
            );
            let opened: int = if s.position_count is Some {
                s.position_count->Some_0 as int
            } else {
                0
            };
            &&& tick_lower >= tick_upper ==> outcome == Err::<
                (LiquidityState, AddLiquidityResult),
                LiquidityError,
            >(LiquidityError::InvalidRange)
            &&& tick_lower < tick_upper && amount_a == 0 && amount_b == 0 ==> outcome == Err::<
                (LiquidityState, AddLiquidityResult),
                LiquidityError,
            >(LiquidityError::InvalidAmount)
            &&& tick_lower < tick_upper && (amount_a > 0 || amount_b > 0)
                && !s.pools.contains_key(pool_id) ==> outcome == Err::<
                (LiquidityState, AddLiquidityResult),
                LiquidityError,
            >(LiquidityError::PositionNotFound)
            &&& tick_lower < tick_upper && (amount_a > 0 || amount_b > 0) && s.pools.contains_key(
                pool_id,
            ) && s.pools[pool_id].total_liquidity + amount_a + amount_b <= u128::MAX && opened
                < u64::MAX ==> outcome is Ok
        }),
{
}

/// Removing liquidity pays each token the largest amount with `amount *
/// pool_liquidity <= liquidity * 1000`, where `pool_liquidity` is the
/// pool's whole liquidity before the removal (0 from a pool without
/// liquidity), plus the fees owed; the position and the pool each lose the
/// liquidity removed, the fees owed are cleared and nothing else changes.
pub proof fn law_remove_liquidity_terms(
    s: LiquidityState,
    owner: AccountId,
    position_id: u64,
    liquidity: u128,
)
    requires
        remove_liquidity_outcome(s, owner, position_id, liquidity) is Ok,
    ensures
        ({
            let (s2, report) = remove_liquidity_outcome(s, owner, position_id, liquidity)->Ok_0;
            let pos = s.positions[position_id];
            let pool_liquidity = s.pools[pos.pool_id].total_liquidity as int;
            &&& s.positions.contains_key(position_id) && pos.owner == owner
            &&& liquidity <= pos.liquidity && liquidity <= pool_liquidity
            &&& s.pools.contains_key(pos.pool_id)
            &&& report.amount_a == report.amount_b
            &&& pool_liquidity > 0 ==> report.amount_a * pool_liquidity <= liquidity * 1_000
                < (report.amount_a + 1) * pool_liquidity
            &&& pool_liquidity == 0 ==> report.amount_a == 0
            &&& report.fees_a == pos.tokens_owed_a && report.fees_b == pos.tokens_owed_b
            &&& s2.positions.contains_key(position_id)
            &&& s2.positions[position_id] == (LiquidityPosition {
                liquidity: (pos.liquidity - liquidity) as u128,
                tokens_owed_a: 0,
                tokens_owed_b: 0,
                ..pos
            })
            &&& s2.pools.contains_key(pos.pool_id)
            &&& s2.pools[pos.pool_id] == (PoolConfig {
                total_liquidity: (pool_liquidity - liquidity) as u128,
                ..s.pools[pos.pool_id]
            })
            &&& forall|other: u32| #[trigger]
                s.pools.contains_key(other) && other != pos.pool_id ==> s2.pools.contains_key(
                    other,
                ) && s2.pools[other] == s.pools[other]
            &&& forall|other: u64| #[trigger]
                s.positions.contains_key(other) && other != position_id
                    ==> s2.positions.contains_key(other) && s2.positions[other]
                    == s.positions[other]
            &&& s2.admin == s.admin && s2.pool_count == s.pool_count
            &&& s2.fee_tiers == s.fee_tiers && s2.position_count == s.position_count
        }),
{
    let pos = s.positions[position_id];
    let t = s.pools[pos.pool_id].total_liquidity as int;
    if t > 0 {
        lemma_quotient(liquidity * 1_000, t);
    }
}

/// When removing liquidity is refused or accepted: a missing position is
/// not found, someone other than its owner is unauthorized, more than the
/// position holds is refused, and otherwise it succeeds when the pool
/// exists, holds at least that much and the payout product fits.
pub proof fn law_remove_liquidity_refusals(
    s: LiquidityState,
    owner: AccountId,
    position_id: u64,
    liquidity: u128,
)
    ensures
        ({
            let outcome = remove_liquidity_outcome(s, owner, position_id, liquidity);
            let pos = s.positions[position_id];
            &&& !s.positions.contains_key(position_id) ==> outcome == Err::<
                (LiquidityState, RemoveLiquidityResult),
                LiquidityError,
            >(LiquidityError::PositionNotFound)
            &&& s.positions.contains_key(position_id) && pos.owner != owner ==> outcome == Err::<
                (LiquidityState, RemoveLiquidityResult),
                LiquidityError,
            >(LiquidityError::Unauthorized)
            &&& s.positions.contains_key(position_id) && pos.owner == owner && liquidity
                > pos.liquidity ==> outcome == Err::<
                (LiquidityState, RemoveLiquidityResult),
                LiquidityError,
            >(LiquidityError::InsufficientLiquidity)
            &&& s.positions.contains_key(position_id) && pos.owner == owner && liquidity
                <= pos.liquidity && s.pools.contains_key(pos.pool_id) && liquidity
                <= s.pools[pos.pool_id].total_liquidity && liquidity * 1_000 <= u128::MAX
                ==> outcome is Ok
        }),
{
}

/// Collecting fees pays what the position owes and clears it; nothing else
/// changes. Only the owner of an existing position may collect.
pub proof fn law_collect_fees_terms(s: LiquidityState, owner: AccountId, position_id: u64)
    ensures
        ({
            let outcome = collect_fees_outcome(s, owner, position_id);
            let pos = s.positions[position_id];
            &&& !s.positions.contains_key(position_id) ==> outcome == Err::<
                (LiquidityState, (u128, u128)),
                LiquidityError,
            >(LiquidityError::PositionNotFound)
            &&& s.positions.contains_key(position_id) && pos.owner != owner ==> outcome == Err::<
                (LiquidityState, (u128, u128)),
                LiquidityError,
            >(LiquidityError::Unauthorized)
            &&& s.positions.contains_key(position_id) && pos.owner == owner ==> {
                &&& outcome is Ok
                &&& outcome matches Ok((s2, fees)) && {
                    &&& fees == (pos.tokens_owed_a, pos.tokens_owed_b)
                    &&& s2.positions.contains_key(position_id)
                    &&& s2.positions[position_id] == (LiquidityPosition {
                        tokens_owed_a: 0,
                        tokens_owed_b: 0,
                        ..pos
                    })
                    &&& forall|other: u64| #[trigger]
                        s.positions.contains_key(other) && other != position_id
                            ==> s2.positions.contains_key(other) && s2.positions[other]
                            == s.positions[other]
                    &&& s2.pools == s.pools && s2.admin == s.admin
                    &&& s2.pool_count == s.pool_count && s2.fee_tiers == s.fee_tiers
                    &&& s2.position_count == s.position_count
                }
            }
        }),
{
}

/// A pool that was just created is found under the id it was given, with
/// no liquidity yet, and the pool count has grown by one.
pub proof fn law_created_pool_is_found(
    s: LiquidityState,
    token_a: AccountId,
    token_b: AccountId,
    fee_tier_bps: u128,
    tick_spacing: u32,
    initial_sqrt_price: u128,
)
    requires
        create_pool_outcome(s, token_a, token_b, fee_tier_bps, tick_spacing, initial_sqrt_price)
            is Ok,
    ensures
        ({
            let (s2, id) = create_pool_outcome(
                s,
                token_a,
                token_b,
                fee_tier_bps,
                tick_spacing,
                initial_sqrt_price,
            )->Ok_0;
            &&& id == pool_count_of(s) + 1
            &&& pool_count_of(s2) == id
            &&& get_pool_outcome(s2, id) == Ok::<PoolConfig, LiquidityError>(
                (PoolConfig {
                    token_a,
                    token_b,
                    fee_tier_bps,
                    tick_spacing,
                    total_liquidity: 0,
                    sqrt_price: initial_sqrt_price,
                }),
            )
        }),
{
}

/// In a state reached from `new` (where every id is below the next one),
/// opening a position never replaces another: the new id is free and every
/// earlier position is kept as it was.
pub proof fn law_opening_a_position_keeps_the_others(
    s: LiquidityState,
    owner: AccountId,
    pool_id: u32,
    tick_lower: i32,
    tick_upper: i32,
    amount_a: u128,
    amount_b: u128,
)
    requires
        ids_within_count(s),
        add_liquidity_outcome(s, owner, pool_id, tick_lower, tick_upper, amount_a, amount_b) is Ok,
    ensures
        ({
            let (s2, report) = add_liquidity_outcome(
                s,
                owner,
                pool_id,
                tick_lower,
                tick_upper,
                amount_a,
                amount_b,
            )->Ok_0;
            &&& !s.positions.contains_key(report.position_id)
            &&& ids_within_count(s2)
            &&& forall|id: u64| #[trigger]
                s.positions.contains_key(id) ==> s2.positions.contains_key(id)
                    && s2.positions[id] == s.positions[id]
        }),
{
}

/// Removing all the liquidity a position was opened with succeeds for its
/// owner, empties the position and gives the pool back the liquidity it
/// had before the position was opened.
pub proof fn law_remove_undoes_add(
    s: LiquidityState,
    owner: AccountId,
    pool_id: u32,
    tick_lower: i32,
    tick_upper: i32,
    amount_a: u128,
    amount_b: u128,
)
    requires
        add_liquidity_outcome(s, owner, pool_id, tick_lower, tick_upper, amount_a, amount_b) is Ok,
        (amount_a + amount_b) * 1_000 <= u128::MAX,
    ensures
        ({
            let (s1, report) = add_liquidity_outcome(
                s,
                owner,
                pool_id,
                tick_lower,
                tick_upper,
                amount_a,
                amount_b,
            )->Ok_0;
            let removed = remove_liquidity_outcome(
                s1,
                owner,
                report.position_id,
                report.liquidity_minted,
            );
            &&& removed is Ok
            &&& removed->Ok_0.0.pools[pool_id].total_liquidity
                == s.pools[pool_id].total_liquidity
            &&& removed->Ok_0.0.positions[report.position_id].liquidity == 0
        }),
{
}

/// Fees collected once are cleared: collecting again at once pays nothing
/// and changes nothing.
pub proof fn law_fees_are_paid_once(s: LiquidityState, owner: AccountId, position_id: u64)
    requires
        collect_fees_outcome(s, owner, position_id) is Ok,
    ensures
        ({
            let s1 = collect_fees_outcome(s, owner, position_id)->Ok_0.0;
            &&& collect_fees_outcome(s1, owner, position_id) matches Ok((s2, fees))
            &&& fees == (0u128, 0u128)
            &&& s2 == s1
        }),
{
    let s1 = collect_fees_outcome(s, owner, position_id)->Ok_0.0;
    let pos = s.positions[position_id];
    let cleared = LiquidityPosition { tokens_owed_a: 0, tokens_owed_b: 0, ..pos };
    assert(s1.positions.insert(position_id, cleared) =~= s1.positions);
}

} // verus!
