//! Fixed-width byte strings and their little-endian readings.

use vstd::prelude::*;

verus! {

/// The number that `bytes` spells in little-endian order.
pub open spec fn le_value(bytes: Seq<u8>) -> nat
    decreases bytes.len(),
{
    if bytes.len() == 0 {
        0
    } else {
        bytes[0] as nat + 256 * le_value(bytes.drop_first())
    }
}

/// The `len` low-order bytes of `x`, least significant first.
pub open spec fn le_bytes(x: nat, len: nat) -> Seq<u8>
    decreases len,
{
    if len == 0 {
        Seq::empty()
    } else {
        seq![(x % 256) as u8] + le_bytes(x / 256, (len - 1) as nat)
    }
}

/// `le_bytes` yields exactly `len` bytes.
pub proof fn lemma_le_bytes_len(x: nat, len: nat)
    ensures
        le_bytes(x, len).len() == len,
    decreases len,
{
    if len > 0 {
        lemma_le_bytes_len(x / 256, (len - 1) as nat);
    }
}

/// A string of zero bytes spells zero.
pub proof fn lemma_le_value_zero(bytes: Seq<u8>)
    requires
        forall|i: int| 0 <= i < bytes.len() ==> bytes[i] == 0,
    ensures
        le_value(bytes) == 0,
    decreases bytes.len(),
{
    if bytes.len() > 0 {
        lemma_le_value_zero(bytes.drop_first());
    }
}

/// 256 to the power `n`.
pub open spec fn pow256(n: nat) -> nat
    decreases n,
{
    if n == 0 {
        1
    } else {
        256 * pow256((n - 1) as nat)
    }
}

/// Reading back what `le_bytes` wrote gives the number again, when it fits.
pub proof fn lemma_le_value_of_le_bytes(x: nat, len: nat)
    requires
        x < pow256(len),
    ensures
        le_value(le_bytes(x, len)) == x,
    decreases len,
{
    if len > 0 {
        let rest = le_bytes(x / 256, (len - 1) as nat);
        assert(x / 256 < pow256((len - 1) as nat)) by (nonlinear_arith)
            requires
                x < 256 * pow256((len - 1) as nat),
        ;
        lemma_le_value_of_le_bytes(x / 256, (len - 1) as nat);
        assert(le_bytes(x, len).drop_first() =~= rest);
        assert(le_bytes(x, len)[0] == (x % 256) as u8);
        assert(x == (x % 256) + 256 * (x / 256)) by (nonlinear_arith);
    }
}

/// Writing the number that a byte string spells gives the string again.
pub proof fn lemma_le_bytes_of_le_value(bytes: Seq<u8>)
    ensures
        le_value(bytes) < pow256(bytes.len()),
        le_bytes(le_value(bytes), bytes.len()) == bytes,
    decreases bytes.len(),
{
    if bytes.len() > 0 {
        let rest = bytes.drop_first();
        lemma_le_bytes_of_le_value(rest);
        let v = le_value(bytes);
        let b = bytes[0] as nat;
        let w = le_value(rest);
        assert(v == b + 256 * w);
        assert(v % 256 == b && v / 256 == w) by (nonlinear_arith)
            requires
                v == b + 256 * w,
                b < 256,
        ;
        assert(le_bytes(v, bytes.len()) =~= bytes);
        assert(v < 256 * pow256(rest.len())) by (nonlinear_arith)
            requires
                v == b + 256 * w,
                b < 256,
                w < pow256(rest.len()),
        ;
    } else {
        assert(le_bytes(0, 0) =~= bytes);
    }
}

/// 256 to the power 32, written out.
pub proof fn lemma_pow256_32()
    ensures
        pow256(32) == 0x1_0000_0000_0000_0000_0000_0000_0000_0000_0000_0000_0000_0000_0000_0000_0000_0000nat,
{
    reveal_with_fuel(pow256, 33);
}

/// A byte string spells what its first `k` bytes spell, plus 256 to the power
/// `k` times what the rest spells.
pub proof fn lemma_le_value_split(bytes: Seq<u8>, k: int)
    requires
        0 <= k <= bytes.len(),
    ensures
        le_value(bytes) == le_value(bytes.take(k)) + pow256(k as nat) * le_value(bytes.skip(k)),
    decreases k,
{
    if k == 0 {
        assert(bytes.skip(0) =~= bytes);
        assert(bytes.take(0) =~= Seq::<u8>::empty());
        assert(pow256(0) * le_value(bytes.skip(0)) == le_value(bytes)) by (nonlinear_arith)
            requires
                pow256(0) == 1,
                le_value(bytes.skip(0)) == le_value(bytes),
        ;
    } else {
        let rest = bytes.drop_first();
        lemma_le_value_split(rest, k - 1);
        assert(bytes.take(k).drop_first() =~= rest.take(k - 1));
        assert(bytes.skip(k) =~= rest.skip(k - 1));
        assert(bytes.take(k)[0] == bytes[0]);
        let low = le_value(rest.take(k - 1));
        let high = le_value(rest.skip(k - 1));
        let p = pow256((k - 1) as nat);
        assert(256 * (low + p * high) == 256 * low + (256 * p) * high) by (nonlinear_arith);
        assert(pow256(k as nat) * le_value(bytes.skip(k)) == (256 * p) * high) by (nonlinear_arith)
            requires
                pow256(k as nat) == 256 * p,
                le_value(bytes.skip(k)) == high,
        ;
    }
}

/// Of two byte strings of one length that agree above byte `k`, the one with
/// the smaller byte `k` spells the smaller number.
pub proof fn lemma_le_value_decided(a: Seq<u8>, b: Seq<u8>, k: int)
    requires
        a.len() == b.len(),
        0 <= k < a.len(),
        a.skip(k + 1) == b.skip(k + 1),
        a[k] < b[k],
    ensures
        le_value(a) < le_value(b),
{
    lemma_le_value_split(a, k);
    lemma_le_value_split(b, k);
    lemma_le_value_split(a.skip(k), 1);
    lemma_le_value_split(b.skip(k), 1);
    lemma_le_bytes_of_le_value(a.take(k));
    lemma_le_bytes_of_le_value(b.take(k));
    assert(a.skip(k).skip(1) =~= a.skip(k + 1));
    assert(b.skip(k).skip(1) =~= b.skip(k + 1));
    assert(a.skip(k).take(1) =~= seq![a[k]]);
    assert(b.skip(k).take(1) =~= seq![b[k]]);
    reveal_with_fuel(le_value, 2);
    reveal_with_fuel(pow256, 2);
    assert(le_value(seq![a[k]]) == a[k] as nat);
    assert(le_value(seq![b[k]]) == b[k] as nat);
    let p = pow256(k as nat);
    let top = le_value(a.skip(k + 1));
    let x = a[k] as nat;
    let y = b[k] as nat;
    let low_a = le_value(a.take(k));
    let low_b = le_value(b.take(k));
    assert(low_a + p * (x + 256 * top) < low_b + p * (y + 256 * top)) by (nonlinear_arith)
        requires
            low_a < p,
            x < y,
    ;
}

/// The 32-byte string whose bytes are `bytes`.
pub open spec fn bytes32(bytes: Seq<u8>) -> [u8; 32] {
    choose|array: [u8; 32]| array@ == bytes
}

/// A 32-byte string is determined by its bytes.
pub proof fn lemma_bytes32(array: [u8; 32])
    ensures
        bytes32(array@) == array,
{
    assert(bytes32(array@) =~= array);
}

/// Whether two 32-byte strings hold the same bytes.
pub fn bytes32_eq(a: &[u8; 32], b: &[u8; 32]) -> (r: bool)
    ensures
        r == (a@ == b@),
        r == (*a == *b),
{
    let mut i: usize = 0;
    while i < 32
        invariant
            i <= 32,
            forall|j: int| 0 <= j < i ==> a@[j] == b@[j],
        decreases 32 - i,
    {
        if a[i] != b[i] {
            return false;
        }
        i += 1;
    }
    assert(*a =~= *b);
    true
}

/// Whether `a` spells a smaller number than `b`.
pub fn bytes32_less(a: &[u8; 32], b: &[u8; 32]) -> (less: bool)
    ensures
        less == (le_value(a@) < le_value(b@)),
{
    let mut i: usize = 32;
    assert(a@.skip(32) =~= b@.skip(32));
    while i > 0
        invariant
            i <= 32,
            a@.skip(i as int) == b@.skip(i as int),
        decreases i,
    {
        i -= 1;
        if a[i] < b[i] {
            proof {
                lemma_le_value_decided(a@, b@, i as int);
            }
            return true;
        }
        if a[i] > b[i] {
            proof {
                lemma_le_value_decided(b@, a@, i as int);
            }
            return false;
        }
        assert(a@.skip(i as int) =~= seq![a@[i as int]] + a@.skip(i as int + 1));
        assert(b@.skip(i as int) =~= seq![b@[i as int]] + b@.skip(i as int + 1));
    }
    assert(a@.skip(0) =~= a@);
    assert(b@.skip(0) =~= b@);
    false
}

/// The 32-byte little-endian encoding of `x`.
pub fn u128_to_bytes32(x: u128) -> (out: [u8; 32])
    ensures
        out@ == le_bytes(x as nat, 32),
{
    let mut out = [0u8; 32];
    let mut rest: u128 = x;
    let mut i: usize = 0;
    while i < 32
        invariant
            i <= 32,
            le_bytes(x as nat, 32) =~= out@.take(i as int) + le_bytes(rest as nat, (32 - i) as nat),
        decreases 32 - i,
    {
        let ghost before = out@;
        out[i] = (rest % 256) as u8;
        assert(out@.take(i as int + 1) =~= before.take(i as int) + seq![(rest % 256) as u8]);
        rest = rest / 256;
        i += 1;
    }
    assert(out@.take(32) =~= out@);
    out
}

} // verus!
