//! Gas: the limit of the next block, and what to offer on L1.

use vstd::prelude::*;

use crate::transactions::FeeFields;

verus! {

/// The gas limit that blocks are steered towards.
pub const DESIRED_GAS_LIMIT: u64 = 60_000_000;

/// By how much the gas limit may differ from the parent's.
pub open spec fn gas_limit_step(parent_gas_limit: u64) -> int {
    if parent_gas_limit < 1024 {
        0
    } else {
        parent_gas_limit / 1024 - 1
    }
}

/// The gas limit of the next block: the desired one, moved into the range that
/// the parent's limit allows.
pub open spec fn next_gas_limit(parent_gas_limit: u64, desired_gas_limit: u64) -> u64 {
    let step = gas_limit_step(parent_gas_limit);
    if desired_gas_limit < parent_gas_limit - step {
        (parent_gas_limit - step) as u64
    } else if desired_gas_limit > parent_gas_limit + step {
        (parent_gas_limit + step) as u64
    } else {
        desired_gas_limit
    }
}

/// The gas limit of the block behind one with `parent_gas_limit`.
pub fn calc_gas_limit(parent_gas_limit: u64, desired_gas_limit: u64) -> (gas_limit: u64)
    ensures
        gas_limit == next_gas_limit(parent_gas_limit, desired_gas_limit),
{
    let delta: u64 = (parent_gas_limit / 1024).saturating_sub(1);
    let min_limit: u64 = parent_gas_limit.saturating_sub(delta);
    let max_limit: u64 = parent_gas_limit.saturating_add(delta);
    if desired_gas_limit < min_limit {
        min_limit
    } else if desired_gas_limit > max_limit {
        max_limit
    } else {
        desired_gas_limit
    }
}

/// One block moves the gas limit by less than a 1024th of the parent's, or not
/// at all.
pub proof fn gas_limit_step_is_bounded(parent: u64, desired: u64)
    ensures
        next_gas_limit(parent, desired) == parent || {
            &&& next_gas_limit(parent, desired) < parent + parent / 1024
            &&& next_gas_limit(parent, desired) > parent - parent / 1024
        },
{
}

/// A chain at the desired gas limit stays there.
pub proof fn gas_limit_has_fixed_point(desired: u64)
    ensures
        next_gas_limit(desired, desired) == desired,
{
}

/// The gas limit never moves away from the desired one and never overshoots it.
pub proof fn gas_limit_approaches_target(parent: u64, desired: u64)
    ensures
        parent <= desired ==> parent <= next_gas_limit(parent, desired) <= desired,
        parent >= desired ==> desired <= next_gas_limit(parent, desired) <= parent,
{
}

/// The gas limit after `blocks` blocks.
pub open spec fn gas_limit_after(start: u64, desired: u64, blocks: nat) -> u64
    decreases blocks,
{
    if blocks == 0 {
        start
    } else {
        next_gas_limit(gas_limit_after(start, desired, (blocks - 1) as nat), desired)
    }
}

/// A chain whose gas limit is at least 2048, steered to a limit that is at least
/// 2048, reaches it after at most as many blocks as the two are apart.
pub proof fn gas_limit_converges(start: u64, desired: u64, blocks: nat)
    requires
        start >= 2048,
        desired >= 2048,
    ensures
        ({
            let reached = gas_limit_after(start, desired, blocks);
            &&& reached >= 2048
            &&& start <= desired ==> start <= reached <= desired && (reached == desired || reached
                >= start + blocks)
            &&& start >= desired ==> desired <= reached <= start && (reached == desired || reached
                <= start - blocks)
        }),
    decreases blocks,
{
    if blocks > 0 {
        gas_limit_converges(start, desired, (blocks - 1) as nat);
        gas_limit_approaches_target(
            gas_limit_after(start, desired, (blocks - 1) as nat),
            desired,
        );
    }
}

/// The gas a block is meant to use.
pub open spec fn gas_target(gas_limit: u64, elasticity_multiplier: u128) -> int {
    gas_limit as int / elasticity_multiplier as int
}

/// By how much the base fee changes for a block that is `distance` away from its
/// gas target.
pub open spec fn base_fee_change(
    base_fee: u64,
    distance: int,
    target: int,
    max_change_denominator: u128,
) -> int {
    base_fee * distance / (target * max_change_denominator)
}

/// The base fee behind a block: higher where the block used more gas than its
/// target, by at least one, and lower where it used less. Without a target or a
/// denominator it stays.
pub open spec fn base_fee_after(
    gas_used: u64,
    gas_limit: u64,
    base_fee: u64,
    max_change_denominator: u128,
    elasticity_multiplier: u128,
) -> int {
    let target = gas_target(gas_limit, elasticity_multiplier);
    if elasticity_multiplier == 0 || max_change_denominator == 0 || target == 0 || gas_used
        == target {
        base_fee as int
    } else if gas_used > target {
        let change = base_fee_change(
            base_fee,
            gas_used - target,
            target,
            max_change_denominator,
        );
        base_fee + if change < 1 {
            1
        } else {
            change
        }
    } else {
        let change = base_fee_change(
            base_fee,
            target - gas_used,
            target,
            max_change_denominator,
        );
        if change > base_fee {
            0
        } else {
            base_fee - change
        }
    }
}

/// The base fee behind a block can be worked out in machine words.
pub open spec fn base_fee_fits(
    gas_used: u64,
    gas_limit: u64,
    base_fee: u64,
    max_change_denominator: u128,
    elasticity_multiplier: u128,
) -> bool {
    &&& elasticity_multiplier > 0 ==> gas_target(gas_limit, elasticity_multiplier)
        * max_change_denominator <= u128::MAX
    &&& base_fee_after(
        gas_used,
        gas_limit,
        base_fee,
        max_change_denominator,
        elasticity_multiplier,
    ) <= u64::MAX
}

/// Calls `alloy_eips::eip1559::calc_next_block_base_fee`, which moves the base fee
/// by the rule of EIP-1559. Inputs on which its arithmetic would overflow are left
/// out.
#[verifier::external_body]
fn calc_next_block_base_fee(
    gas_used: u64,
    gas_limit: u64,
    base_fee: u64,
    max_change_denominator: u128,
    elasticity_multiplier: u128,
) -> (next: u64)
    requires
        base_fee_fits(
            gas_used,
            gas_limit,
            base_fee,
            max_change_denominator,
            elasticity_multiplier,
        ),
    ensures
        next == base_fee_after(
            gas_used,
            gas_limit,
            base_fee,
            max_change_denominator,
            elasticity_multiplier,
        ),
{
    let params = alloy_eips::eip1559::BaseFeeParams::new(
        max_change_denominator,
        elasticity_multiplier,
    );
    alloy_eips::eip1559::calc_next_block_base_fee(gas_used, gas_limit, base_fee, params)
}

/// What the fee of the next block depends on: the parent's gas and base fee, and
/// the parameters of the chain.
#[derive(Clone, Copy, Debug, PartialEq, Eq, Structural)]
pub struct ParentFees {
    pub gas_used: u64,
    pub gas_limit: u64,
    pub base_fee: Option<u64>,
    pub max_change_denominator: u128,
    pub elasticity_multiplier: u128,
}

impl ParentFees {
    /// The next base fee can be worked out in machine words.
    pub open spec fn fits(self) -> bool {
        self.base_fee matches Some(base_fee) ==> base_fee_fits(
            self.gas_used,
            self.gas_limit,
            base_fee,
            self.max_change_denominator,
            self.elasticity_multiplier,
        )
    }

    /// The base fee of the next block, where the parent has one.
    pub open spec fn next(self) -> Option<u64> {
        match self.base_fee {
            Some(base_fee) => Some(
                base_fee_after(
                    self.gas_used,
                    self.gas_limit,
                    base_fee,
                    self.max_change_denominator,
                    self.elasticity_multiplier,
                ) as u64,
            ),
            None => None,
        }
    }

    /// Whether the next base fee can be worked out in machine words.
    pub fn in_range(&self) -> (fits: bool)
        ensures
            fits == self.fits(),
    {
        let base_fee: u64 = match self.base_fee {
            Some(base_fee) => base_fee,
            None => return true,
        };
        if self.elasticity_multiplier == 0 {
            return true;
        }
        let target: u128 = self.gas_limit as u128 / self.elasticity_multiplier;
        assert(target == gas_target(self.gas_limit, self.elasticity_multiplier));
        let divisor: u128 = match target.checked_mul(self.max_change_denominator) {
            Some(divisor) => divisor,
            None => return false,
        };
        proof {
            assert(target <= self.gas_limit) by (nonlinear_arith)
                requires
                    target == self.gas_limit as int / self.elasticity_multiplier as int,
                    self.elasticity_multiplier > 0,
                    self.gas_limit >= 0,
            ;
            assert(divisor == 0 <==> (target == 0 || self.max_change_denominator == 0))
                by (nonlinear_arith)
                requires
                    divisor == target * self.max_change_denominator,
            ;
        }
        if divisor == 0 || self.gas_used as u128 <= target {
            if divisor > 0 {
                proof {
                    assert(base_fee * (target - self.gas_used) >= 0) by (nonlinear_arith)
                        requires
                            base_fee >= 0,
                            target >= self.gas_used,
                    ;
                    assert(base_fee_change(
                        base_fee,
                        target - self.gas_used,
                        target as int,
                        self.max_change_denominator,
                    ) >= 0) by (nonlinear_arith)
                        requires
                            base_fee * (target - self.gas_used) >= 0,
                            target * self.max_change_denominator == divisor,
                            divisor > 0,
                            base_fee_change(
                                base_fee,
                                target - self.gas_used,
                                target as int,
                                self.max_change_denominator,
                            ) == base_fee * (target - self.gas_used) / (target
                                * self.max_change_denominator),
                    ;
                }
            }
            return true;
        }
        let distance: u128 = self.gas_used as u128 - target;
        proof {
            assert(base_fee * distance <= u128::MAX) by (nonlinear_arith)
                requires
                    0 <= base_fee <= u64::MAX,
                    0 <= distance <= u64::MAX,
            ;
        }
        let change: u128 = (base_fee as u128 * distance) / divisor;
        let increase: u128 = if change < 1 {
            1
        } else {
            change
        };
        increase <= (u64::MAX - base_fee) as u128
    }

    /// The base fee of the next block, where the parent has one.
    pub fn next_block_base_fee(&self) -> (next: Option<u64>)
        requires
            self.fits(),
        ensures
            next == self.next(),
    {
        match self.base_fee {
            Some(base_fee) => Some(
                calc_next_block_base_fee(
                    self.gas_used,
                    self.gas_limit,
                    base_fee,
                    self.max_change_denominator,
                    self.elasticity_multiplier,
                ),
            ),
            None => None,
        }
    }
}

/// What protocol transactions pay for gas: the base fee of their block, and at
/// least one.
pub fn protocol_gas_price(next_base_fee: Option<u64>) -> (price: u128)
    ensures
        price == match next_base_fee {
            Some(fee) if fee > 1 => fee as u128,
            _ => 1,
        },
{
    match next_base_fee {
        Some(fee) => fee.max(1) as u128,
        None => 1,
    }
}

/// What to offer for a batch transaction.
#[derive(Clone, Copy, Debug, PartialEq, Eq, Structural)]
pub struct GasPriceHint {
    pub max_fee_per_gas: u128,
    pub max_priority_fee_per_gas: u128,
}

/// The cap on the whole fee.
pub open spec fn fee_cap(fees: FeeFields) -> u128 {
    match fees {
        FeeFields::GasPrice(price) => price,
        FeeFields::Dynamic(max_fee, _) => max_fee,
    }
}

/// The cap on the proposer's part of the fee.
pub open spec fn priority_cap(fees: FeeFields) -> u128 {
    match fees {
        FeeFields::GasPrice(price) => price,
        FeeFields::Dynamic(_, max_priority) => max_priority,
    }
}

/// The larger of two amounts.
pub open spec fn larger(a: u128, b: u128) -> u128 {
    if a < b {
        b
    } else {
        a
    }
}

/// The largest amount of a sequence, zero where there is none.
pub open spec fn largest(amounts: Seq<u128>) -> u128
    decreases amounts.len(),
{
    if amounts.len() == 0 {
        0
    } else {
        larger(largest(amounts.drop_last()), amounts.last())
    }
}

/// The fee fields of those transactions that could be read.
pub open spec fn readable(fees: Seq<Option<FeeFields>>) -> Seq<FeeFields> {
    fees.filter_map(|fields: Option<FeeFields>| fields)
}

/// The caps on the whole fee among queued calls, at their effective prices, and
/// queued raw transactions.
pub open spec fn fee_caps(prices: Seq<u128>, fees: Seq<Option<FeeFields>>) -> Seq<u128> {
    prices + readable(fees).map_values(|fields: FeeFields| fee_cap(fields))
}

/// The caps on the proposer's part among queued calls and raw transactions.
pub open spec fn priority_caps(prices: Seq<u128>, fees: Seq<Option<FeeFields>>) -> Seq<u128> {
    prices + readable(fees).map_values(|fields: FeeFields| priority_cap(fields))
}

/// `value * percent / 100`, where the product is capped at the largest `u128`.
pub open spec fn percent_of(value: u128, percent: nat) -> int {
    if value * percent > u128::MAX {
        u128::MAX as int / 100
    } else {
        (value * percent) as int / 100
    }
}

/// `value` raised by `pct` percent, by at least one where neither is zero, and
/// capped at the largest `u128`; or lowered by `-pct` percent, down to zero.
pub open spec fn overbid(value: u128, pct: i64) -> u128 {
    if pct >= 0 {
        let exact = percent_of(value, pct as nat);
        let bump = if exact == 0 && value > 0 && pct > 0 {
            1
        } else {
            exact
        };
        if value + bump > u128::MAX {
            u128::MAX
        } else {
            (value + bump) as u128
        }
    } else {
        let reduction = percent_of(value, (-pct) as nat);
        if reduction > value {
            0
        } else {
            (value - reduction) as u128
        }
    }
}

/// What to offer for the batch: the most that a queued call or transaction offers,
/// moved by `pct` percent, or nothing where none is queued or none offers a fee.
pub open spec fn overbid_hint(
    prices: Seq<u128>,
    fees: Seq<Option<FeeFields>>,
    pct: i64,
) -> Option<GasPriceHint> {
    let max_fee = largest(fee_caps(prices, fees));
    if max_fee == 0 {
        None
    } else {
        Some(
            GasPriceHint {
                max_fee_per_gas: overbid(max_fee, pct),
                max_priority_fee_per_gas: overbid(largest(priority_caps(prices, fees)), pct),
            },
        )
    }
}

fn apply_percent(value: u128, percent: u64) -> (part: u128)
    ensures
        part == percent_of(value, percent as nat),
{
    let product: u128 = match value.checked_mul(percent as u128) {
        Some(product) => product,
        None => u128::MAX,
    };
    product / 100
}

fn apply_overbid(value: u128, pct: i64) -> (offer: u128)
    ensures
        offer == overbid(value, pct),
{
    if pct >= 0 {
        let exact: u128 = apply_percent(value, pct as u64);
        let bump: u128 = if exact == 0 && value > 0 && pct > 0 {
            1
        } else {
            exact
        };
        value.saturating_add(bump)
    } else {
        let magnitude: u64 = if pct == i64::MIN {
            0x8000_0000_0000_0000
        } else {
            (-pct) as u64
        };
        value.saturating_sub(apply_percent(value, magnitude))
    }
}

proof fn largest_push(amounts: Seq<u128>, amount: u128)
    ensures
        largest(amounts.push(amount)) == larger(largest(amounts), amount),
{
    assert(amounts.push(amount).drop_last() =~= amounts);
}

/// The offer for a batch, given the effective prices of the queued calls and the
/// fee fields of the queued raw transactions.
pub fn gas_overbid_from_fees(
    prices: &Vec<u128>,
    fees: &Vec<Option<FeeFields>>,
    pct: i64,
) -> (hint: Option<GasPriceHint>)
    ensures
        hint == overbid_hint(prices@, fees@, pct),
{
    let mut max_fee: u128 = 0;
    let mut i: usize = 0;
    while i < prices.len()
        invariant
            i <= prices@.len(),
            max_fee == largest(prices@.take(i as int)),
        decreases prices@.len() - i,
    {
        proof {
            largest_push(prices@.take(i as int), prices@[i as int]);
            assert(prices@.take(i + 1) =~= prices@.take(i as int).push(prices@[i as int]));
        }
        if prices[i] > max_fee {
            max_fee = prices[i];
        }
        i += 1;
    }
    let mut max_priority: u128 = max_fee;
    let mut k: usize = 0;
    proof {
        assert(prices@.take(i as int) =~= prices@);
        assert(fees@.take(0) =~= Seq::empty());
        assert(readable(Seq::empty()) =~= Seq::empty()) by {
            reveal(Seq::filter_map);
        }
        assert(fee_caps(prices@, fees@.take(0)) =~= prices@);
        assert(priority_caps(prices@, fees@.take(0)) =~= prices@);
    }
    while k < fees.len()
        invariant
            k <= fees@.len(),
            max_fee == largest(fee_caps(prices@, fees@.take(k as int))),
            max_priority == largest(priority_caps(prices@, fees@.take(k as int))),
        decreases fees@.len() - k,
    {
        let ghost seen = fees@.take(k as int);
        proof {
            assert(fees@.take(k + 1) =~= seen.push(fees@[k as int]));
            assert(seen.push(fees@[k as int]).drop_last() =~= seen);
            reveal(Seq::filter_map);
        }
        match fees[k] {
            Some(fields) => {
                let (fee, priority) = match fields {
                    FeeFields::GasPrice(price) => (price, price),
                    FeeFields::Dynamic(fee, priority) => (fee, priority),
                };
                proof {
                    largest_push(fee_caps(prices@, seen), fee);
                    largest_push(priority_caps(prices@, seen), priority);
                    assert(fee_caps(prices@, seen.push(fees@[k as int])) =~= fee_caps(
                        prices@,
                        seen,
                    ).push(fee));
                    assert(priority_caps(prices@, seen.push(fees@[k as int])) =~= priority_caps(
                        prices@,
                        seen,
                    ).push(priority));
                }
                if fee > max_fee {
                    max_fee = fee;
                }
                if priority > max_priority {
                    max_priority = priority;
                }
            },
            None => {},
        }
        k += 1;
    }
    assert(fees@.take(k as int) =~= fees@);
    if max_fee == 0 {
        return None;
    }
    Some(
        GasPriceHint {
            max_fee_per_gas: apply_overbid(max_fee, pct),
            max_priority_fee_per_gas: apply_overbid(max_priority, pct),
        },
    )
}

/// With a positive percentage, the offer beats every amount it was raised from,
/// unless that is zero or the largest there is.
pub proof fn overbid_beats_queued(amounts: Seq<u128>, i: int, pct: i64)
    requires
        0 <= i < amounts.len(),
        pct > 0,
        0 < largest(amounts) < u128::MAX,
    ensures
        overbid(largest(amounts), pct) > amounts[i],
    decreases amounts.len(),
{
    largest_is_upper_bound(amounts, i);
}

/// No amount of a sequence is above the largest.
pub proof fn largest_is_upper_bound(amounts: Seq<u128>, i: int)
    requires
        0 <= i < amounts.len(),
    ensures
        amounts[i] <= largest(amounts),
    decreases amounts.len(),
{
    if i < amounts.len() - 1 {
        largest_is_upper_bound(amounts.drop_last(), i);
        assert(amounts.drop_last()[i] == amounts[i]);
    }
}

/// A percentage that is not negative never lowers the offer, one that is not
/// positive never raises it, and none at all leaves it as it is.
pub proof fn overbid_direction(value: u128, pct: i64)
    ensures
        pct >= 0 ==> overbid(value, pct) >= value,
        pct <= 0 ==> overbid(value, pct) <= value,
        overbid(value, 0) == value,
{
    if pct >= 0 {
        assert(value * (pct as nat) >= 0) by (nonlinear_arith)
            requires
                value >= 0,
                pct >= 0,
        ;
    } else {
        assert(value * ((-pct) as nat) >= 0) by (nonlinear_arith)
            requires
                value >= 0,
                pct < 0,
        ;
    }
}

/// A gas limit moves by one less than its thousand-and-twenty-fourth part, or straight
/// to the target where that is nearer; one below a thousand and twenty-four stays.
pub proof fn gas_limit_moves_by_its_step(parent: u64, desired: u64)
    requires
        parent + parent / 1024 <= u64::MAX,
    ensures
        parent < 1024 ==> next_gas_limit(parent, desired) == parent,
        parent >= 1024 && desired >= parent + parent / 1024 ==> next_gas_limit(parent, desired)
            == parent + parent / 1024 - 1,
        parent >= 1024 && desired <= parent - parent / 1024 ==> next_gas_limit(parent, desired)
            == parent - parent / 1024 + 1,
        parent - parent / 1024 < desired < parent + parent / 1024 ==> next_gas_limit(
            parent,
            desired,
        ) == desired,
{
}

/// The base fee stays where exactly the target was used, rises where more was, by at
/// least one, and falls where less was; the change is the fee's share of how far the
/// use was off, rounded down.
pub proof fn base_fee_follows_use(
    gas_used: u64,
    gas_limit: u64,
    base_fee: u64,
    max_change_denominator: u128,
    elasticity_multiplier: u128,
)
    requires
        max_change_denominator > 0,
        elasticity_multiplier > 0,
        gas_limit >= elasticity_multiplier,
    ensures
        ({
            let target = gas_limit as int / elasticity_multiplier as int;
            let after = base_fee_after(
                gas_used,
                gas_limit,
                base_fee,
                max_change_denominator,
                elasticity_multiplier,
            );
            let unit = target * max_change_denominator;
            &&& gas_used == target ==> after == base_fee
            &&& gas_used > target ==> {
                let change = after - base_fee;
                &&& change >= 1
                &&& change == 1 || unit * change <= base_fee * (gas_used - target)
                &&& base_fee * (gas_used - target) < unit * change + unit
            }
            &&& gas_used < target && after > 0 ==> {
                let change = base_fee - after;
                &&& change >= 0
                &&& unit * change <= base_fee * (target - gas_used)
                &&& base_fee * (target - gas_used) < unit * change + unit
            }
        }),
{
    let target = gas_limit as int / elasticity_multiplier as int;
    let unit = target * max_change_denominator;
    vstd::arithmetic::div_mod::lemma_div_non_zero(
        gas_limit as int,
        elasticity_multiplier as int,
    );
    assert(unit > 0) by (nonlinear_arith)
        requires
            unit == target * max_change_denominator,
            target > 0,
            max_change_denominator > 0,
    ;
    let off: int = if gas_used > target {
        gas_used - target
    } else {
        target - gas_used
    };
    let share = base_fee * off;
    vstd::arithmetic::div_mod::lemma_fundamental_div_mod(share, unit);
    let rounded = share / unit;
    assert(unit * rounded <= share < unit * rounded + unit);
    assert(rounded >= 0) by (nonlinear_arith)
        requires
            unit > 0,
            share >= 0,
            share < unit * rounded + unit,
    ;
    if rounded < 1 {
        assert(rounded == 0);
        assert(unit * rounded == 0) by (nonlinear_arith)
            requires
                rounded == 0,
        ;
        assert(unit * 1 == unit);
    }
}

/// The largest of some amounts is one of them, and no less than any; of none it is
/// zero.
pub proof fn largest_is_attained(amounts: Seq<u128>)
    ensures
        amounts.len() == 0 ==> largest(amounts) == 0,
        amounts.len() > 0 ==> amounts.contains(largest(amounts)),
        forall|i: int| 0 <= i < amounts.len() ==> #[trigger] amounts[i] <= largest(amounts),
    decreases amounts.len(),
{
    if amounts.len() > 0 {
        let front = amounts.drop_last();
        largest_is_attained(front);
        assert(amounts[amounts.len() - 1] == amounts.last());
        if front.len() > 0 && front.contains(largest(front)) {
            let i = choose|i: int| 0 <= i < front.len() && front[i] == largest(front);
            assert(amounts[i] == largest(front));
        }
        assert forall|i: int| 0 <= i < amounts.len() implies #[trigger] amounts[i] <= largest(
            amounts,
        ) by {
            largest_is_upper_bound(amounts, i);
        }
    }
}

/// Every price and the fees of every transaction that could be read count, and nothing
/// else.
pub proof fn all_fees_count(prices: Seq<u128>, fees: Seq<Option<FeeFields>>, i: int)
    ensures
        0 <= i < prices.len() ==> fee_caps(prices, fees).contains(prices[i]) && priority_caps(
            prices,
            fees,
        ).contains(prices[i]),
        0 <= i < fees.len() ==> match fees[i] {
            Some(FeeFields::GasPrice(price)) => fee_caps(prices, fees).contains(price)
                && priority_caps(prices, fees).contains(price),
            Some(FeeFields::Dynamic(max_fee, max_priority)) => fee_caps(prices, fees).contains(
                max_fee,
            ) && priority_caps(prices, fees).contains(max_priority),
            None => true,
        },
        fee_caps(prices, fees).len() == prices.len() + readable(fees).len(),
        priority_caps(prices, fees).len() == prices.len() + readable(fees).len(),
        readable(fees).len() <= fees.len(),
{
    readable_fees_are_kept(fees, i);
    if 0 <= i < prices.len() {
        assert(fee_caps(prices, fees)[i] == prices[i]);
        assert(priority_caps(prices, fees)[i] == prices[i]);
    }
    if 0 <= i < fees.len() && fees[i] is Some {
        let list = readable(fees);
        let k = choose|k: int| 0 <= k < list.len() && list[k] == fees[i]->0;
        assert(fee_caps(prices, fees)[prices.len() + k] == fee_cap(fees[i]->0));
        assert(priority_caps(prices, fees)[prices.len() + k] == priority_cap(fees[i]->0));
    }
}

proof fn readable_fees_are_kept(fees: Seq<Option<FeeFields>>, i: int)
    ensures
        0 <= i < fees.len() && fees[i] is Some ==> readable(fees).contains(fees[i]->0),
        readable(fees).len() <= fees.len(),
    decreases fees.len(),
{
    reveal(Seq::filter_map);
    if fees.len() > 0 {
        let front = fees.drop_last();
        readable_fees_are_kept(front, i);
        if 0 <= i < fees.len() && fees[i] is Some {
            if i < front.len() {
                let k = choose|k: int|
                    0 <= k < readable(front).len() && readable(front)[k] == front[i]->0;
                assert(readable(fees)[k] == fees[i]->0);
            } else {
                assert(readable(fees)[readable(fees).len() - 1] == fees[i]->0);
            }
        }
    }
}

/// A batch offers more than every queued call and every transaction that is forwarded
/// behind it, if it is to overbid at all; and it makes no offer of its own exactly
/// where none of them offers anything.
pub proof fn batch_outbids_what_follows(
    prices: Seq<u128>,
    fees: Seq<Option<FeeFields>>,
    pct: i64,
    i: int,
)
    requires
        pct > 0,
    ensures
        overbid_hint(prices, fees, pct) is None <==> largest(fee_caps(prices, fees)) == 0,
        overbid_hint(prices, fees, pct) matches Some(hint) ==> {
            &&& 0 <= i < prices.len() ==> hint.max_fee_per_gas > prices[i] || prices[i]
                == u128::MAX
            &&& 0 <= i < prices.len() ==> hint.max_priority_fee_per_gas > prices[i] || prices[i]
                == u128::MAX || prices[i] == 0
            &&& 0 <= i < fees.len() ==> match fees[i] {
                Some(FeeFields::GasPrice(price)) => (hint.max_fee_per_gas > price || price
                    == u128::MAX) && hint.max_priority_fee_per_gas >= price,
                Some(FeeFields::Dynamic(max_fee, max_priority)) => (hint.max_fee_per_gas > max_fee
                    || max_fee == u128::MAX) && hint.max_priority_fee_per_gas >= max_priority,
                None => true,
            }
        },
        overbid_hint(prices, fees, pct) is None && 0 <= i < prices.len() ==> prices[i] == 0,
{
    let caps = fee_caps(prices, fees);
    let priorities = priority_caps(prices, fees);
    all_fees_count(prices, fees, i);
    largest_is_attained(caps);
    largest_is_attained(priorities);
    overbid_direction(largest(caps), pct);
    overbid_direction(largest(priorities), pct);
    overbid_exceeds(largest(caps), pct);
    overbid_exceeds(largest(priorities), pct);
    if 0 <= i < prices.len() {
        assert(caps[i] == prices[i]);
        assert(priorities[i] == prices[i]);
    }
    if 0 <= i < fees.len() && fees[i] is Some {
        let k = choose|k: int| 0 <= k < caps.len() && caps[k] == fee_cap(fees[i]->0);
        let p = choose|p: int|
            0 <= p < priorities.len() && priorities[p] == priority_cap(fees[i]->0);
        assert(caps[k] <= largest(caps));
        assert(priorities[p] <= largest(priorities));
    }
}

proof fn overbid_exceeds(value: u128, pct: i64)
    requires
        pct > 0,
    ensures
        0 < value < u128::MAX ==> overbid(value, pct) > value,
{
    if 0 < value < u128::MAX {
        let one = seq![value];
        assert(one.drop_last() =~= Seq::empty());
        assert(largest(one.drop_last()) == 0);
        assert(largest(one) == value);
        overbid_beats_queued(one, 0, pct);
    }
}

/// What is added to an amount, or taken off it, is the given percentage, rounded down;
/// but something is always added where an amount is to be raised.
pub proof fn overbid_is_the_percentage(value: u128, pct: i64)
    requires
        pct >= 0 ==> value * pct <= u128::MAX && value + value * pct <= u128::MAX,
        pct < 0 ==> value * (-pct) <= u128::MAX,
    ensures
        pct >= 0 ==> {
            let added = overbid(value, pct) - value;
            &&& value * pct < 100 * added + 100
            &&& 100 * added <= value * pct || (added == 1 && value > 0 && pct > 0)
        },
        -100 <= pct < 0 ==> {
            let taken = value - overbid(value, pct);
            100 * taken <= value * (-pct) < 100 * taken + 100
        },
{
    if pct >= 0 {
        assert(value * (pct as nat) == value * pct);
        assert(value * pct >= 0) by (nonlinear_arith)
            requires
                value >= 0,
                pct >= 0,
        ;
    } else if pct >= -100 {
        let share = value * ((-pct) as nat);
        assert(share == value * (-pct));
        assert(0 <= share <= value * 100) by (nonlinear_arith)
            requires
                share == value * (-pct),
                value >= 0,
                -100 <= pct < 0,
        ;
    }
}

/// The next block's fee is worked out exactly where the parent has one.
pub proof fn next_fee_follows_parent(parent: ParentFees)
    requires
        parent.fits(),
    ensures
        parent.base_fee is None <==> parent.next() is None,
        parent.base_fee matches Some(base_fee) ==> base_fee_after(
            parent.gas_used,
            parent.gas_limit,
            base_fee,
            parent.max_change_denominator,
            parent.elasticity_multiplier,
        ) <= u64::MAX,
        parent.base_fee is Some && parent.elasticity_multiplier > 0
            && parent.gas_used == parent.gas_limit as int / parent.elasticity_multiplier as int
            ==> parent.next() == parent.base_fee,
        parent.base_fee is Some && parent.elasticity_multiplier > 0
            && parent.max_change_denominator > 0 && parent.gas_limit
            >= parent.elasticity_multiplier && parent.gas_used > parent.gas_limit as int
            / parent.elasticity_multiplier as int ==> parent.next()->0 > parent.base_fee->0,
{
    if parent.base_fee is Some && parent.max_change_denominator > 0 && parent.elasticity_multiplier
        > 0 && parent.gas_limit >= parent.elasticity_multiplier {
        base_fee_follows_use(
            parent.gas_used,
            parent.gas_limit,
            parent.base_fee->0,
            parent.max_change_denominator,
            parent.elasticity_multiplier,
        );
    }
}

/// The base fee stays where there is nothing to measure use by.
pub proof fn base_fee_stays_without_measure(
    gas_used: u64,
    gas_limit: u64,
    base_fee: u64,
    max_change_denominator: u128,
    elasticity_multiplier: u128,
)
    requires
        elasticity_multiplier == 0 || max_change_denominator == 0 || gas_limit
            < elasticity_multiplier,
    ensures
        base_fee_after(
            gas_used,
            gas_limit,
            base_fee,
            max_change_denominator,
            elasticity_multiplier,
        ) == base_fee,
{
    if 0 < elasticity_multiplier && gas_limit < elasticity_multiplier {
        vstd::arithmetic::div_mod::lemma_basic_div(
            gas_limit as int,
            elasticity_multiplier as int,
        );
    }
}

} // verus!
