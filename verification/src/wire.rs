//! The outcome of a batch swap as it travels between processes, where any part
//! of it may be missing or malformed.

use vstd::prelude::*;
use crate::bytes::le_value;
use crate::error::{Error, Malformed};
use crate::field::{base_is_canonical, base_modulus};
use crate::settlement::{BatchSwapOutputData, TradingPair};

verus! {

/// A trading pair as it travels: two asset identifiers, of any length, either
/// of which may be missing.
#[derive(Clone, Debug, PartialEq, Eq)]
pub struct TradingPairMessage {
    pub asset_1: Option<Vec<u8>>,
    pub asset_2: Option<Vec<u8>>,
}

/// The outcome of a batch swap as it travels.
#[derive(Clone, Debug, PartialEq, Eq)]
pub struct BatchSwapOutputDataMessage {
    pub delta_1: u64,
    pub delta_2: u64,
    pub lambda_1: u64,
    pub lambda_2: u64,
    pub success: bool,
    pub trading_pair: Option<TradingPairMessage>,
    pub height: u64,
}

/// The answer to a query for the outcome of a batch swap.
#[derive(Clone, Debug, PartialEq, Eq)]
pub struct BatchSwapOutputDataResponse {
    pub data: Option<BatchSwapOutputDataMessage>,
}

/// The base field element that `bytes` encode: 32 bytes that spell a number
/// below the modulus of the base field.
pub open spec fn spec_field_element(bytes: Seq<u8>) -> Option<[u8; 32]> {
    if bytes.len() == 32 && le_value(bytes) < base_modulus() {
        Some(crate::bytes::bytes32(bytes))
    } else {
        None
    }
}

/// Reads a base field element.
pub fn field_element(bytes: &Vec<u8>) -> (element: Option<[u8; 32]>)
    ensures
        element == spec_field_element(bytes@),
{
    if bytes.len() != 32 {
        return None;
    }
    let mut element = [0u8; 32];
    let mut i: usize = 0;
    while i < 32
        invariant
            i <= 32,
            bytes@.len() == 32,
            forall|j: int| 0 <= j < i ==> element@[j] == bytes@[j],
        decreases 32 - i,
    {
        element[i] = bytes[i];
        i += 1;
    }
    assert(element@ =~= bytes@);
    proof {
        crate::bytes::lemma_bytes32(element);
    }
    if base_is_canonical(&element) {
        Some(element)
    } else {
        None
    }
}

/// The asset identifier that `bytes` encode, if they are there and encode a
/// base field element.
pub open spec fn spec_asset_id(bytes: Option<Vec<u8>>) -> Option<[u8; 32]> {
    match bytes {
        Some(bytes) => spec_field_element(bytes@),
        None => None,
    }
}

/// Reads an asset identifier.
pub fn asset_id(bytes: &Option<Vec<u8>>) -> (id: Option<[u8; 32]>)
    ensures
        id == spec_asset_id(*bytes),
{
    match bytes {
        Some(bytes) => field_element(bytes),
        None => None,
    }
}

impl TradingPairMessage {
    /// The trading pair that this message holds, if it holds one.
    pub open spec fn spec_trading_pair(self) -> Option<TradingPair> {
        match (spec_asset_id(self.asset_1), spec_asset_id(self.asset_2)) {
            (Some(asset_1), Some(asset_2)) => Some(TradingPair { asset_1, asset_2 }),
            _ => None,
        }
    }

    /// Reads the trading pair.
    pub fn trading_pair(&self) -> (pair: Option<TradingPair>)
        ensures
            pair == self.spec_trading_pair(),
    {
        match (asset_id(&self.asset_1), asset_id(&self.asset_2)) {
            (Some(asset_1), Some(asset_2)) => Some(TradingPair { asset_1, asset_2 }),
            _ => None,
        }
    }
}

impl TradingPair {
    /// Writes the trading pair as a message.
    pub fn to_message(&self) -> (message: TradingPairMessage)
        ensures
            message.asset_1 is Some,
            message.asset_2 is Some,
            message.asset_1.unwrap()@ == self.asset_1@,
            message.asset_2.unwrap()@ == self.asset_2@,
    {
        let mut asset_1: Vec<u8> = Vec::new();
        asset_1.extend_from_slice(self.asset_1.as_slice());
        let mut asset_2: Vec<u8> = Vec::new();
        asset_2.extend_from_slice(self.asset_2.as_slice());
        assert(asset_1@ =~= self.asset_1@);
        assert(asset_2@ =~= self.asset_2@);
        TradingPairMessage { asset_1: Some(asset_1), asset_2: Some(asset_2) }
    }
}

impl BatchSwapOutputDataMessage {
    /// What [`BatchSwapOutputData::try_from`] makes of this message.
    pub open spec fn spec_read(self) -> Result<BatchSwapOutputData, Error> {
        match self.trading_pair {
            None => Err(Error::MalformedInput { what: Malformed::MissingTradingPair }),
            Some(pair) => match pair.spec_trading_pair() {
                None => Err(Error::MalformedInput { what: Malformed::AssetId }),
                Some(trading_pair) => Ok(
                    BatchSwapOutputData {
                        delta_1: self.delta_1,
                        delta_2: self.delta_2,
                        lambda_1: self.lambda_1,
                        lambda_2: self.lambda_2,
                        height: self.height,
                        trading_pair,
                        success: self.success,
                    },
                ),
            },
        }
    }
}

impl BatchSwapOutputDataMessage {
    /// Whether this message holds `data`, with nothing missing.
    pub open spec fn spec_holds(self, data: BatchSwapOutputData) -> bool {
        &&& self.delta_1 == data.delta_1
        &&& self.delta_2 == data.delta_2
        &&& self.lambda_1 == data.lambda_1
        &&& self.lambda_2 == data.lambda_2
        &&& self.success == data.success
        &&& self.height == data.height
        &&& self.trading_pair is Some
        &&& self.trading_pair.unwrap().asset_1 is Some
        &&& self.trading_pair.unwrap().asset_2 is Some
        &&& self.trading_pair.unwrap().asset_1.unwrap()@ == data.trading_pair.asset_1@
        &&& self.trading_pair.unwrap().asset_2.unwrap()@ == data.trading_pair.asset_2@
    }
}

/// What was written can be read back: a message that holds an outcome whose
/// two assets are base field elements is read as that outcome.
pub proof fn lemma_message_round_trip(message: BatchSwapOutputDataMessage, data: BatchSwapOutputData)
    requires
        message.spec_holds(data),
        le_value(data.trading_pair.asset_1@) < base_modulus(),
        le_value(data.trading_pair.asset_2@) < base_modulus(),
    ensures
        message.spec_read() == Ok::<BatchSwapOutputData, Error>(data),
{
    crate::bytes::lemma_bytes32(data.trading_pair.asset_1);
    crate::bytes::lemma_bytes32(data.trading_pair.asset_2);
}

impl BatchSwapOutputData {
    /// Writes the outcome as a message. Nothing is left out of it.
    pub fn to_message(&self) -> (message: BatchSwapOutputDataMessage)
        ensures
            message.spec_holds(*self),
    {
        BatchSwapOutputDataMessage {
            delta_1: self.delta_1,
            delta_2: self.delta_2,
            lambda_1: self.lambda_1,
            lambda_2: self.lambda_2,
            success: self.success,
            trading_pair: Some(self.trading_pair.to_message()),
            height: self.height,
        }
    }

    /// Writes the outcome as the answer to a query.
    pub fn to_response(&self) -> (response: BatchSwapOutputDataResponse)
        ensures
            response.data is Some,
            response.data.unwrap().spec_holds(*self),
    {
        BatchSwapOutputDataResponse { data: Some(self.to_message()) }
    }

    /// Reads the outcome of a batch swap from a message.
    ///
    /// Fails where the message lacks its trading pair, and where an asset of
    /// the pair is missing or is not the encoding of a base field element.
    pub fn try_from(message: BatchSwapOutputDataMessage) -> (r: Result<BatchSwapOutputData, Error>)
        ensures
            r == message.spec_read(),
    {
        match &message.trading_pair {
            None => Err(Error::MalformedInput { what: Malformed::MissingTradingPair }),
            Some(pair) => match pair.trading_pair() {
                None => Err(Error::MalformedInput { what: Malformed::AssetId }),
                Some(trading_pair) => Ok(
                    BatchSwapOutputData {
                        delta_1: message.delta_1,
                        delta_2: message.delta_2,
                        lambda_1: message.lambda_1,
                        lambda_2: message.lambda_2,
                        height: message.height,
                        trading_pair,
                        success: message.success,
                    },
                ),
            },
        }
    }

    /// Reads the outcome of a batch swap from the answer to a query.
    ///
    /// Fails where the answer is empty, and where [`BatchSwapOutputData::try_from`]
    /// fails on what it holds.
    pub fn try_from_response(response: BatchSwapOutputDataResponse) -> (r: Result<
        BatchSwapOutputData,
        Error,
    >)
        ensures
            r == match response.data {
                None => Err::<BatchSwapOutputData, Error>(
                    Error::MalformedInput { what: Malformed::EmptyResponse },
                ),
                Some(message) => message.spec_read(),
            },
    {
        match response.data {
            None => Err(Error::MalformedInput { what: Malformed::EmptyResponse }),
            Some(message) => BatchSwapOutputData::try_from(message),
        }
    }
}

} // verus!
