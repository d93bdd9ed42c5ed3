//! The commands that query the exchange.

use vstd::prelude::*;
use crate::settlement::{BatchSwapOutputData, TradingPair};

verus! {

/// The queries of the exchange.
#[derive(Clone, Copy, Debug, PartialEq, Eq)]
#[allow(inconsistent_fields)]
pub enum DexCmd {
    /// Display information about constant-pair market maker reserves.
    CPMMReserves {
        /// The trading pair to query for reserves.
        trading_pair: TradingPair,
    },
    /// Display information about a specific trading pair and height's batch
    /// swap.
    BatchOutputs {
        /// The height to query for batch outputs.
        height: u64,
        /// The trading pair to query for batch outputs.
        trading_pair: TradingPair,
    },
}

/// What is asked of the node for one query of the exchange.
#[derive(Clone, Copy, Debug, PartialEq, Eq)]
#[allow(inconsistent_fields)]
pub enum DexRequest {
    /// The reserves of a trading pair.
    Reserves { trading_pair: TradingPair },
    /// The outcome of the batch swap of a trading pair at a height.
    BatchSwapOutputData { height: u64, trading_pair: TradingPair },
}

/// How the outcome of a batch swap is shown.
#[derive(Clone, Copy, Debug, PartialEq, Eq, Structural)]
pub struct BatchDisplay {
    /// Whether the batch swap succeeded.
    pub success: bool,
    /// The amount by which the unit of the first asset is chosen: the larger
    /// of its input and its output.
    pub basis_1: u64,
    /// The amount by which the unit of the second asset is chosen.
    pub basis_2: u64,
}

/// The larger of two amounts.
pub open spec fn spec_larger(a: u64, b: u64) -> u64 {
    if a >= b {
        a
    } else {
        b
    }
}

impl DexCmd {
    /// What this command asks of the node.
    pub fn request(&self) -> (request: DexRequest)
        ensures
            request == match *self {
                DexCmd::CPMMReserves { trading_pair } => DexRequest::Reserves { trading_pair },
                DexCmd::BatchOutputs { height, trading_pair } => DexRequest::BatchSwapOutputData {
                    height,
                    trading_pair,
                },
            },
    {
        match self {
            DexCmd::CPMMReserves { trading_pair } => DexRequest::Reserves {
                trading_pair: *trading_pair,
            },
            DexCmd::BatchOutputs { height, trading_pair } => DexRequest::BatchSwapOutputData {
                height: *height,
                trading_pair: *trading_pair,
            },
        }
    }
}

impl BatchSwapOutputData {
    /// Says how this outcome is shown: each asset in the unit that suits the
    /// larger of its input and its output, so that both appear in one unit.
    pub fn display(&self) -> (display: BatchDisplay)
        ensures
            display == (BatchDisplay {
                success: self.success,
                basis_1: spec_larger(self.delta_1, self.lambda_1),
                basis_2: spec_larger(self.delta_2, self.lambda_2),
            }),
    {
        BatchDisplay {
            success: self.success,
            basis_1: if self.delta_1 >= self.lambda_1 {
                self.delta_1
            } else {
                self.lambda_1
            },
            basis_2: if self.delta_2 >= self.lambda_2 {
                self.delta_2
            } else {
                self.lambda_2
            },
        }
    }
}

} // verus!
