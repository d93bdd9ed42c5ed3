use shielded_tx::settlement::{BatchSwapOutputData, TradingPair};

fn batch(delta_1: u64, delta_2: u64, lambda_1: u64, lambda_2: u64, success: bool) -> BatchSwapOutputData {
    BatchSwapOutputData {
        delta_1,
        delta_2,
        lambda_1,
        lambda_2,
        height: 1,
        trading_pair: TradingPair { asset_1: [1u8; 32], asset_2: [2u8; 32] },
        success,
    }
}

#[test]
fn pro_rata_success_with_zero_divisor() {
    let data = batch(100, 0, 0, 200, true);
    assert_eq!(data.pro_rata_outputs((10, 0)), (0, 20));
}

#[test]
fn pro_rata_failure_returns_inputs() {
    let data = batch(100, 50, 7, 9, false);
    assert_eq!(data.pro_rata_outputs((10, 5)), (10, 5));
}

#[test]
fn pro_rata_rounds_down() {
    let data = batch(3, 7, 10, 10, true);
    // lambda_2_i = floor(1 * 10 / 3) = 3, lambda_1_i = floor(2 * 10 / 7) = 2
    assert_eq!(data.pro_rata_outputs((1, 2)), (2, 3));
}

#[test]
fn pro_rata_uses_wide_products() {
    let data = batch(u64::MAX, u64::MAX, u64::MAX, u64::MAX, true);
    assert_eq!(data.pro_rata_outputs((u64::MAX, u64::MAX)), (u64::MAX, u64::MAX));
}

#[test]
fn pro_rata_both_divisors_zero() {
    let data = batch(0, 0, 5, 6, true);
    assert_eq!(data.pro_rata_outputs((3, 4)), (0, 0));
}
