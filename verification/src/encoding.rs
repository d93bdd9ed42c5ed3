//! Writing values into the byte strings that are hashed.

use vstd::prelude::*;
use crate::bytes::le_bytes;
use crate::note::{Address, Note, Value};
use crate::settlement::{BatchSwapOutputData, TradingPair};

verus! {

/// The 8-byte little-endian encoding of `x`.
pub open spec fn u64_bytes(x: u64) -> Seq<u8> {
    le_bytes(x as nat, 8)
}

/// The encoding of an optional number: a byte that says whether the number is
/// there, and the number, or zero in its place.
pub open spec fn option_bytes(x: Option<u64>) -> Seq<u8> {
    match x {
        Some(value) => seq![1u8] + u64_bytes(value),
        None => seq![0u8] + u64_bytes(0),
    }
}

/// The encoding of a byte string of any length: its length, then its bytes.
pub open spec fn prefixed_bytes(bytes: Seq<u8>) -> Seq<u8> {
    le_bytes(bytes.len(), 8) + bytes
}

/// Appends one byte.
pub fn put_u8(out: &mut Vec<u8>, x: u8)
    ensures
        final(out)@ == old(out)@ + seq![x],
{
    out.push(x);
    assert(out@ =~= old(out)@ + seq![x]);
}

/// Appends the 8-byte little-endian encoding of `x`.
pub fn put_u64(out: &mut Vec<u8>, x: u64)
    ensures
        final(out)@ == old(out)@ + u64_bytes(x),
{
    let mut rest: u64 = x;
    let mut i: usize = 0;
    assert(out@ =~= old(out)@ + Seq::<u8>::empty());
    while i < 8
        invariant
            i <= 8,
            out@.len() == old(out)@.len() + i,
            out@.take(old(out)@.len() as int) == old(out)@,
            u64_bytes(x) =~= out@.skip(old(out)@.len() as int) + le_bytes(
                rest as nat,
                (8 - i) as nat,
            ),
        decreases 8 - i,
    {
        let ghost before = out@;
        out.push((rest % 256) as u8);
        assert(out@.skip(old(out)@.len() as int) =~= before.skip(old(out)@.len() as int) + seq![
            (rest % 256) as u8,
        ]);
        assert(out@.take(old(out)@.len() as int) =~= before.take(old(out)@.len() as int));
        rest = rest / 256;
        i += 1;
    }
    assert(out@ =~= out@.take(old(out)@.len() as int) + out@.skip(old(out)@.len() as int));
}

/// Appends a string of bytes as it is.
pub fn put_bytes(out: &mut Vec<u8>, bytes: &[u8])
    ensures
        final(out)@ == old(out)@ + bytes@,
{
    out.extend_from_slice(bytes);
}

/// Appends the length of a string of bytes, then its bytes.
pub fn put_prefixed(out: &mut Vec<u8>, bytes: &[u8])
    ensures
        final(out)@ == old(out)@ + prefixed_bytes(bytes@),
{
    put_u64(out, bytes.len() as u64);
    put_bytes(out, bytes);
    assert(out@ =~= old(out)@ + prefixed_bytes(bytes@));
}

/// Appends the encoding of an optional number.
pub fn put_option(out: &mut Vec<u8>, x: Option<u64>)
    ensures
        final(out)@ == old(out)@ + option_bytes(x),
{
    match x {
        Some(value) => {
            put_u8(out, 1);
            put_u64(out, value);
        },
        None => {
            put_u8(out, 0);
            put_u64(out, 0);
        },
    }
    assert(out@ =~= old(out)@ + option_bytes(x));
}

impl Value {
    /// The encoding of a value: its amount, then its asset.
    pub open spec fn spec_encode(self) -> Seq<u8> {
        u64_bytes(self.amount) + self.asset_id@
    }

    /// Appends the encoding of this value.
    pub fn encode_into(&self, out: &mut Vec<u8>)
        ensures
            final(out)@ == old(out)@ + self.spec_encode(),
    {
        put_u64(out, self.amount);
        put_bytes(out, self.asset_id.as_slice());
        assert(out@ =~= old(out)@ + self.spec_encode());
    }
}

impl Address {
    /// The encoding of an address: its generator, its transmission key and its
    /// clue key.
    pub open spec fn spec_encode(self) -> Seq<u8> {
        self.diversified_generator@ + self.transmission_key@ + self.clue_key@
    }

    /// Appends the encoding of this address.
    pub fn encode_into(&self, out: &mut Vec<u8>)
        ensures
            final(out)@ == old(out)@ + self.spec_encode(),
    {
        put_bytes(out, self.diversified_generator.as_slice());
        put_bytes(out, self.transmission_key.as_slice());
        put_bytes(out, self.clue_key.as_slice());
        assert(out@ =~= old(out)@ + self.spec_encode());
    }
}

impl Note {
    /// The encoding of a note: its value, its blinding factor and its address.
    pub open spec fn spec_encode(self) -> Seq<u8> {
        self.value.spec_encode() + self.note_blinding@ + self.address.spec_encode()
    }

    /// Appends the encoding of this note.
    pub fn encode_into(&self, out: &mut Vec<u8>)
        ensures
            final(out)@ == old(out)@ + self.spec_encode(),
    {
        self.value.encode_into(out);
        put_bytes(out, self.note_blinding.as_slice());
        self.address.encode_into(out);
        assert(out@ =~= old(out)@ + self.spec_encode());
    }
}

impl TradingPair {
    /// The encoding of a trading pair: its two assets.
    pub open spec fn spec_encode(self) -> Seq<u8> {
        self.asset_1@ + self.asset_2@
    }

    /// Appends the encoding of this trading pair.
    pub fn encode_into(&self, out: &mut Vec<u8>)
        ensures
            final(out)@ == old(out)@ + self.spec_encode(),
    {
        put_bytes(out, self.asset_1.as_slice());
        put_bytes(out, self.asset_2.as_slice());
        assert(out@ =~= old(out)@ + self.spec_encode());
    }
}

impl BatchSwapOutputData {
    /// The encoding of a batch's outcome: its four totals, its height, its
    /// trading pair and whether it succeeded.
    pub open spec fn spec_encode(self) -> Seq<u8> {
        u64_bytes(self.delta_1) + u64_bytes(self.delta_2) + u64_bytes(self.lambda_1) + u64_bytes(
            self.lambda_2,
        ) + u64_bytes(self.height) + self.trading_pair.spec_encode() + seq![
            if self.success {
                1u8
            } else {
                0u8
            },
        ]
    }

    /// Appends the encoding of this outcome.
    pub fn encode_into(&self, out: &mut Vec<u8>)
        ensures
            final(out)@ == old(out)@ + self.spec_encode(),
    {
        put_u64(out, self.delta_1);
        put_u64(out, self.delta_2);
        put_u64(out, self.lambda_1);
        put_u64(out, self.lambda_2);
        put_u64(out, self.height);
        self.trading_pair.encode_into(out);
        put_u8(
            out,
            if self.success {
                1
            } else {
                0
            },
        );
        assert(out@ =~= old(out)@ + self.spec_encode());
    }
}

} // verus!
