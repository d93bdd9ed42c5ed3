//! Pro-rata settlement of batched swaps.

use vstd::prelude::*;

verus! {

/// The length of an encrypted swap.
pub const SWAP_CIPHERTEXT_BYTES: usize = 272;

/// The length of a swap before it is encrypted.
pub const SWAP_LEN_BYTES: usize = 256;

/// An ordered pair of asset identifiers, each the canonical 32-byte encoding
/// of a field element.
#[derive(Clone, Copy, Debug, PartialEq, Eq)]
pub struct TradingPair {
    pub asset_1: [u8; 32],
    pub asset_2: [u8; 32],
}

/// The aggregate outcome of one batch swap for one trading pair at one height.
#[derive(Clone, Copy, Debug, PartialEq, Eq)]
pub struct BatchSwapOutputData {
    /// Total input of the first asset.
    pub delta_1: u64,
    /// Total input of the second asset.
    pub delta_2: u64,
    /// Total output of the first asset.
    pub lambda_1: u64,
    /// Total output of the second asset.
    pub lambda_2: u64,
    /// The height at which the batch was executed.
    pub height: u64,
    /// The pair that was traded.
    pub trading_pair: TradingPair,
    /// Whether the batch swap succeeded.
    pub success: bool,
}

/// The share of a total output `lambda` that is owed to a party who supplied
/// `own` of the total input `delta`: `floor(own * lambda / delta)`, reduced to
/// 64 bits, and 0 when nothing was put in at all.
pub open spec fn pro_rata_share(own: nat, lambda: nat, delta: nat) -> nat {
    if delta == 0 {
        0
    } else {
        ((own * lambda) / delta) % 0x1_0000_0000_0000_0000
    }
}

/// The product of two 64-bit numbers fits in 128 bits.
proof fn lemma_product_fits(a: u64, b: u64)
    ensures
        (a as nat) * (b as nat) <= 0xFFFF_FFFF_FFFF_FFFE_0000_0000_0000_0001,
{
    assert((a as nat) * (b as nat) <= 0xFFFF_FFFF_FFFF_FFFFnat * 0xFFFF_FFFF_FFFF_FFFFnat)
        by (nonlinear_arith)
        requires
            a <= 0xFFFF_FFFF_FFFF_FFFF,
            b <= 0xFFFF_FFFF_FFFF_FFFF,
    ;
}

/// Computes one share, with the product taken in 128 bits so that it cannot
/// overflow.
fn share(own: u64, lambda: u64, delta: u64) -> (r: u64)
    ensures
        r == pro_rata_share(own as nat, lambda as nat, delta as nat),
{
    proof {
        lemma_product_fits(own, lambda);
    }
    let product: u128 = (own as u128) * (lambda as u128);
    if delta == 0 {
        0
    } else {
        let quotient: u128 = product / (delta as u128);
        (quotient % 0x1_0000_0000_0000_0000u128) as u64
    }
}

impl BatchSwapOutputData {
    /// What `pro_rata_outputs` returns for the inputs `(delta_1_i, delta_2_i)`.
    pub open spec fn spec_pro_rata_outputs(self, delta_1_i: u64, delta_2_i: u64) -> (u64, u64) {
        if self.success {
            (
                pro_rata_share(delta_2_i as nat, self.lambda_1 as nat, self.delta_2 as nat) as u64,
                pro_rata_share(delta_1_i as nat, self.lambda_2 as nat, self.delta_1 as nat) as u64,
            )
        } else {
            (delta_1_i, delta_2_i)
        }
    }

    /// Given a party's inputs `(delta_1_i, delta_2_i)`, computes their pro rata
    /// share `(lambda_1_i, lambda_2_i)` of the batch output.
    ///
    /// After a successful batch the share of each asset is a share of the
    /// output of the opposite asset; after a failed one the inputs are handed
    /// back unchanged.
    pub fn pro_rata_outputs(&self, inputs: (u64, u64)) -> (r: (u64, u64))
        ensures
            r == self.spec_pro_rata_outputs(inputs.0, inputs.1),
            self.success ==> r.0 == pro_rata_share(
                inputs.1 as nat,
                self.lambda_1 as nat,
                self.delta_2 as nat,
            ),
            self.success ==> r.1 == pro_rata_share(
                inputs.0 as nat,
                self.lambda_2 as nat,
                self.delta_1 as nat,
            ),
            !self.success ==> r == inputs,
    {
        let (delta_1_i, delta_2_i) = inputs;
        if self.success {
            let lambda_2_i = share(delta_1_i, self.lambda_2, self.delta_1);
            let lambda_1_i = share(delta_2_i, self.lambda_1, self.delta_2);
            (lambda_1_i, lambda_2_i)
        } else {
            (delta_1_i, delta_2_i)
        }
    }
}

/// A party that put in no more than the whole batch gets no more than the
/// whole output, and its share is not cut to 64 bits.
pub proof fn lemma_share_bounded(own: nat, lambda: nat, delta: nat)
    requires
        own <= delta,
        lambda <= u64::MAX,
    ensures
        pro_rata_share(own, lambda, delta) <= lambda,
        delta > 0 ==> pro_rata_share(own, lambda, delta) == (own * lambda) / delta,
{
    if delta > 0 {
        assert((own * lambda) / delta <= lambda) by (nonlinear_arith)
            requires
                own <= delta,
                delta > 0,
        ;
    }
}

/// Two parties that together put in no more than the whole batch together get
/// no more than the whole output: rounding down never creates value.
pub proof fn lemma_shares_conserve(first: nat, second: nat, lambda: nat, delta: nat)
    requires
        first + second <= delta,
        lambda <= u64::MAX,
    ensures
        pro_rata_share(first, lambda, delta) + pro_rata_share(second, lambda, delta) <= lambda,
{
    lemma_share_bounded(first, lambda, delta);
    lemma_share_bounded(second, lambda, delta);
    if delta > 0 {
        let a = (first * lambda) / delta;
        let b = (second * lambda) / delta;
        assert(a * delta <= first * lambda) by (nonlinear_arith)
            requires
                a == (first * lambda) / delta,
                delta > 0,
        ;
        assert(b * delta <= second * lambda) by (nonlinear_arith)
            requires
                b == (second * lambda) / delta,
                delta > 0,
        ;
        assert((a + b) * delta <= lambda * delta) by (nonlinear_arith)
            requires
                a * delta <= first * lambda,
                b * delta <= second * lambda,
                first + second <= delta,
        ;
        assert(a + b <= lambda) by (nonlinear_arith)
            requires
                (a + b) * delta <= lambda * delta,
                delta > 0,
        ;
    }
}

} // verus!
