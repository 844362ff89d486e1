use based_rollup::gas::{
    calc_gas_limit, gas_overbid_from_fees, protocol_gas_price, GasPriceHint, ParentFees,
    DESIRED_GAS_LIMIT,
};
use based_rollup::transactions::FeeFields;

#[test]
fn test_calc_gas_limit_same() {
    assert_eq!(calc_gas_limit(36_000_000, 36_000_000), 36_000_000);
}

#[test]
fn test_calc_gas_limit_increase() {
    let parent = 30_000_000;
    let desired = 36_000_000;
    let result = calc_gas_limit(parent, desired);
    assert!(result > parent);
    assert!(result <= parent + parent / 1024);
}

#[test]
fn test_calc_gas_limit_decrease() {
    let parent = 36_000_000;
    let desired = 30_000_000;
    let result = calc_gas_limit(parent, desired);
    assert!(result < parent);
    assert!(result >= parent - parent / 1024);
}

#[test]
fn test_calc_gas_limit_zero_parent() {
    assert_eq!(calc_gas_limit(0, 36_000_000), 0);
}

#[test]
fn test_calc_gas_limit_large_values() {
    assert_eq!(calc_gas_limit(u64::MAX / 2, u64::MAX / 2), u64::MAX / 2);
}

#[test]
fn test_calc_gas_limit_convergence() {
    let desired = 36_000_000u64;
    let mut gas_limit = 30_000_000u64;
    for _ in 0..1000 {
        gas_limit = calc_gas_limit(gas_limit, desired);
    }
    assert_eq!(gas_limit, desired);
}

#[test]
fn test_calc_gas_limit_matches_reth() {
    let mut gas_limit = 30_000_000u64;
    for _ in 0..100 {
        let ours = calc_gas_limit(gas_limit, 36_000_000);
        let delta = (gas_limit / 1024).saturating_sub(1);
        let spelled_out = 36_000_000u64.clamp(gas_limit - delta, gas_limit + delta);
        let canonical = alloy_eips::eip1559::calculate_block_gas_limit(gas_limit, 36_000_000);
        assert_eq!(ours, spelled_out, "gas limit mismatch at parent={gas_limit}");
        assert_eq!(ours, canonical, "gas limit mismatch at parent={gas_limit}");
        gas_limit = ours;
    }
}

#[test]
fn test_calc_gas_limit_u64_max() {
    let parent = u64::MAX / 2;
    assert_eq!(calc_gas_limit(parent, parent), parent);
    let delta = (parent / 1024).saturating_sub(1);
    assert_eq!(calc_gas_limit(parent, 0), parent - delta);
    assert_eq!(calc_gas_limit(parent, u64::MAX), parent + delta);
}

#[test]
fn test_calc_gas_limit_single_step_bounded() {
    let parent = 30_000_000u64;
    let delta = (parent / 1024).saturating_sub(1);
    assert_eq!(calc_gas_limit(parent, u64::MAX), parent + delta);
    assert_eq!(calc_gas_limit(parent, 0), parent - delta);
}

#[test]
fn test_calc_gas_limit_convergence_from_genesis_default() {
    let mut gas = 30_000_000u64;
    let target = DESIRED_GAS_LIMIT;
    let mut steps = 0;
    while gas != target && steps < 10_000 {
        gas = calc_gas_limit(gas, target);
        steps += 1;
    }
    assert_eq!(gas, target, "should converge to desired gas limit");
    assert!(steps < 1000, "convergence took too many steps: {steps}");
}

#[test]
fn test_calc_gas_limit_convergence_from_very_high() {
    let mut gas = u32::MAX as u64;
    let target = DESIRED_GAS_LIMIT;
    let mut steps = 0;
    while gas != target && steps < 100_000 {
        gas = calc_gas_limit(gas, target);
        steps += 1;
    }
    assert_eq!(gas, target, "should converge downward to desired gas limit");
}

#[test]
fn calc_gas_limit_never_panics() {
    let edges = [
        0u64,
        1,
        1023,
        1024,
        1025,
        2047,
        2048,
        30_000_000,
        u64::MAX / 2,
        u64::MAX - 1,
        u64::MAX,
    ];
    for parent in edges {
        for desired in edges {
            let _ = calc_gas_limit(parent, desired);
        }
    }
    assert_eq!(calc_gas_limit(u64::MAX, u64::MAX), u64::MAX);
}

#[test]
fn calc_gas_limit_idempotent() {
    for parent in [1025u64, 2048, 30_000_000, 99_999_999] {
        assert_eq!(calc_gas_limit(parent, parent), parent);
    }
}

#[test]
fn calc_gas_limit_bounded_step() {
    for parent in [2049u64, 30_000_000, 99_999_999] {
        for desired in [0u64, parent - 1, parent, parent + 1, u64::MAX] {
            let result = calc_gas_limit(parent, desired);
            let delta = (parent / 1024).saturating_sub(1);
            assert!(result >= parent.saturating_sub(delta));
            assert!(result <= parent.saturating_add(delta));
        }
    }
}

#[test]
fn overbid_raises_both_fees_by_the_percentage() {
    let hint = gas_overbid_from_fees(
        &vec![100],
        &vec![Some(FeeFields::Dynamic(2_000, 50)), None],
        10,
    );
    assert_eq!(
        hint,
        Some(GasPriceHint {
            max_fee_per_gas: 2_200,
            max_priority_fee_per_gas: 110,
        })
    );
}

#[test]
fn overbid_of_a_tiny_price_is_at_least_one() {
    let hint = gas_overbid_from_fees(&vec![1], &vec![], 10).unwrap();
    assert_eq!(hint.max_fee_per_gas, 2);
    assert_eq!(hint.max_priority_fee_per_gas, 2);
}

#[test]
fn overbid_of_no_percent_leaves_the_price() {
    assert_eq!(
        gas_overbid_from_fees(&vec![100], &vec![], 0),
        Some(GasPriceHint {
            max_fee_per_gas: 100,
            max_priority_fee_per_gas: 100,
        })
    );
}

#[test]
fn negative_overbid_lowers_the_offer() {
    let hint = gas_overbid_from_fees(&vec![1_000], &vec![], -25).unwrap();
    assert_eq!(hint.max_fee_per_gas, 750);
    let floor = gas_overbid_from_fees(&vec![1_000], &vec![], i64::MIN).unwrap();
    assert_eq!(floor.max_fee_per_gas, 0);
}

#[test]
fn overbid_saturates() {
    let hint = gas_overbid_from_fees(&vec![u128::MAX], &vec![], 10).unwrap();
    assert_eq!(hint.max_fee_per_gas, u128::MAX);
}

#[test]
fn nothing_queued_means_no_hint() {
    assert_eq!(gas_overbid_from_fees(&vec![], &vec![], 10), None);
    assert_eq!(gas_overbid_from_fees(&vec![], &vec![None], 10), None);
    assert_eq!(gas_overbid_from_fees(&vec![0], &vec![], 10), None);
}

#[test]
fn gas_priced_transactions_offer_their_price_twice() {
    let hint = gas_overbid_from_fees(&vec![], &vec![Some(FeeFields::GasPrice(200))], 50).unwrap();
    assert_eq!(hint.max_fee_per_gas, 300);
    assert_eq!(hint.max_priority_fee_per_gas, 300);
}

fn parent(gas_used: u64, base_fee: Option<u64>) -> ParentFees {
    ParentFees {
        gas_used,
        gas_limit: 30_000_000,
        base_fee,
        max_change_denominator: 8,
        elasticity_multiplier: 2,
    }
}

#[test]
fn base_fee_follows_gas_use() {
    assert_eq!(
        parent(15_000_000, Some(1_000)).next_block_base_fee(),
        Some(1_000)
    );
    assert_eq!(
        parent(30_000_000, Some(1_000)).next_block_base_fee(),
        Some(1_125)
    );
    assert_eq!(parent(0, Some(1_000)).next_block_base_fee(), Some(875));
    assert_eq!(parent(15_000_001, Some(1)).next_block_base_fee(), Some(2));
    assert_eq!(parent(0, None).next_block_base_fee(), None);
}

#[test]
fn base_fee_range_is_told() {
    assert!(parent(30_000_000, Some(1_000)).in_range());
    assert!(parent(0, None).in_range());
    assert!(!parent(30_000_000, Some(u64::MAX)).in_range());
    assert!(parent(0, Some(u64::MAX)).in_range());
    let mut degenerate = parent(30_000_000, Some(7));
    degenerate.elasticity_multiplier = 0;
    assert!(degenerate.in_range());
    assert_eq!(degenerate.next_block_base_fee(), Some(7));
}

#[test]
fn protocol_transactions_pay_at_least_one() {
    assert_eq!(protocol_gas_price(None), 1);
    assert_eq!(protocol_gas_price(Some(0)), 1);
    assert_eq!(protocol_gas_price(Some(875)), 875);
}
