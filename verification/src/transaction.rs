//! Transaction plans, transactions, and the hash that authorizes them.

use vstd::prelude::*;
use crate::action::Action;
use crate::bytes::le_bytes;
use crate::cipher::{chacha20poly1305_encrypt, encrypt, opt_vec};
use crate::encoding::{option_bytes, prefixed_bytes, put_bytes, put_option, put_prefixed, put_u64, put_u8, u64_bytes};
use crate::hash::{blake2b_512_personal, blake2b_personal};
use crate::note::{Address, Value};
use crate::plan::ActionPlan;

verus! {

/// The length to which a memo is padded before it is encrypted.
pub const MEMO_LEN_BYTES: usize = 512;

/// The length of an encrypted memo: the padded memo and its tag.
pub const MEMO_CIPHERTEXT_LEN_BYTES: usize = 528;

/// The plan of a memo: its text, and the key under which it is encrypted.
#[derive(Clone, Debug, PartialEq, Eq)]
pub struct MemoPlan {
    pub plaintext: Vec<u8>,
    pub key: [u8; 32],
}

/// The plan of a detection clue: the address it is for, and the randomness
/// and precision with which it is made.
#[derive(Clone, Copy, Debug, PartialEq, Eq)]
pub struct CluePlan {
    pub address: Address,
    pub rseed: [u8; 32],
    pub precision_bits: u8,
}

/// A detection clue, as the builder hands it on: the clue key it is made
/// under, and the randomness and precision with which it is made.
#[derive(Clone, Copy, Debug, PartialEq, Eq)]
pub struct Clue {
    pub clue_key: [u8; 32],
    pub rseed: [u8; 32],
    pub precision_bits: u8,
}

/// A declarative, unsigned description of a transaction.
#[derive(Clone, Debug, PartialEq, Eq)]
pub struct TransactionPlan {
    /// The planned actions, in any order.
    pub actions: Vec<ActionPlan>,
    pub expiry_height: u64,
    /// The time from which the transaction is valid, if it is bounded.
    pub valid_after: Option<u64>,
    /// The time until which the transaction is valid, if it is bounded.
    pub valid_before: Option<u64>,
    pub chain_id: String,
    pub fee: Value,
    pub clue_plans: Vec<CluePlan>,
    pub memo_plan: Option<MemoPlan>,
}

/// Everything of a transaction that its binding signature signs.
#[derive(Clone, Debug, PartialEq, Eq)]
pub struct TransactionBody {
    /// The actions, in canonical order.
    pub actions: Vec<Action>,
    pub expiry_height: u64,
    pub valid_after: Option<u64>,
    pub valid_before: Option<u64>,
    pub chain_id: String,
    pub fee: Value,
    pub fmd_clues: Vec<Clue>,
    /// The encrypted memo, if the transaction has one.
    pub memo: Option<Vec<u8>>,
}

/// A transaction: its body, the root of the accumulator under which its
/// inclusion proofs were taken, and the signature that binds its value balance.
#[derive(Clone, Debug, PartialEq, Eq)]
pub struct Transaction {
    pub transaction_body: TransactionBody,
    pub anchor: [u8; 32],
    pub binding_sig: [u8; 64],
}

/// The nonce under which memos are encrypted.
pub open spec fn memo_nonce() -> Seq<u8> {
    seq![2u8, 0, 0, 0, 0, 0, 0, 0, 0, 0, 0, 0]
}

/// `text`, padded with zero bytes to the length of a memo.
pub open spec fn padded_memo(text: Seq<u8>) -> Seq<u8> {
    text + Seq::new((MEMO_LEN_BYTES - text.len()) as nat, |i: int| 0u8)
}

impl MemoPlan {
    /// The encrypted memo that this plan describes: `None` where the text is
    /// longer than a memo may be, or where the cipher refuses.
    pub open spec fn spec_memo(self) -> Option<Seq<u8>> {
        if self.plaintext@.len() > MEMO_LEN_BYTES {
            None
        } else {
            chacha20poly1305_encrypt(self.key@, memo_nonce(), padded_memo(self.plaintext@))
        }
    }

    /// Encrypts the memo.
    pub fn memo(&self) -> (ciphertext: Option<Vec<u8>>)
        ensures
            opt_vec(ciphertext) == self.spec_memo(),
    {
        let n = self.plaintext.len();
        if n > MEMO_LEN_BYTES {
            return None;
        }
        let mut padded: Vec<u8> = Vec::new();
        put_bytes(&mut padded, self.plaintext.as_slice());
        assert(padded@ =~= self.plaintext@);
        while padded.len() < MEMO_LEN_BYTES
            invariant
                n == self.plaintext@.len(),
                n <= padded@.len() <= MEMO_LEN_BYTES,
                padded@.take(n as int) == self.plaintext@,
                forall|i: int| n <= i < padded@.len() ==> padded@[i] == 0,
            decreases MEMO_LEN_BYTES - padded@.len(),
        {
            let ghost before = padded@;
            padded.push(0);
            assert(padded@.take(n as int) =~= before.take(n as int));
        }
        assert(padded@ =~= padded_memo(self.plaintext@));
        let nonce: [u8; 12] = [2, 0, 0, 0, 0, 0, 0, 0, 0, 0, 0, 0];
        assert(nonce@ =~= memo_nonce());
        encrypt(&self.key, &nonce, padded.as_slice())
    }
}

impl CluePlan {
    /// The clue that this plan describes.
    pub open spec fn spec_clue(self) -> Clue {
        Clue {
            clue_key: self.address.clue_key,
            rseed: self.rseed,
            precision_bits: self.precision_bits,
        }
    }

    /// Makes the clue that this plan describes.
    pub fn clue(&self) -> (clue: Clue)
        ensures
            clue == self.spec_clue(),
    {
        Clue {
            clue_key: self.address.clue_key,
            rseed: self.rseed,
            precision_bits: self.precision_bits,
        }
    }
}

impl Clue {
    /// The encoding of a clue: its key, its randomness and its precision.
    pub open spec fn spec_encode(self) -> Seq<u8> {
        self.clue_key@ + self.rseed@ + seq![self.precision_bits]
    }

    /// Appends the encoding of this clue.
    pub fn encode_into(&self, out: &mut Vec<u8>)
        ensures
            final(out)@ == old(out)@ + self.spec_encode(),
    {
        put_bytes(out, self.clue_key.as_slice());
        put_bytes(out, self.rseed.as_slice());
        put_u8(out, self.precision_bits);
        assert(out@ =~= old(out)@ + self.spec_encode());
    }
}

/// The personalization of the hash of a transaction body: `PAH:tx_body`.
pub open spec fn body_label() -> Seq<u8> {
    seq![0x50u8, 0x41, 0x48, 0x3a, 0x74, 0x78, 0x5f, 0x62, 0x6f, 0x64, 0x79]
}

/// The personalization of the hash of one action: `PAH:action`.
pub open spec fn action_label() -> Seq<u8> {
    seq![0x50u8, 0x41, 0x48, 0x3a, 0x61, 0x63, 0x74, 0x69, 0x6f, 0x6e]
}

/// The digest of one action, given its encoding.
pub open spec fn action_digest(encoding: Seq<u8>) -> Seq<u8> {
    blake2b_512_personal(action_label(), encoding)
}

/// The digests of the actions with the given encodings, one after the other.
pub open spec fn action_digests(encodings: Seq<Seq<u8>>) -> Seq<u8>
    decreases encodings.len(),
{
    if encodings.len() == 0 {
        Seq::empty()
    } else {
        action_digests(encodings.drop_last()) + action_digest(encodings.last())
    }
}

/// The encodings of the given clues, one after the other.
pub open spec fn clue_bytes(clues: Seq<Clue>) -> Seq<u8>
    decreases clues.len(),
{
    if clues.len() == 0 {
        Seq::empty()
    } else {
        clue_bytes(clues.drop_last()) + clues.last().spec_encode()
    }
}

/// The encoding of an optional memo: a byte that says whether the memo is
/// there, and the memo with its length.
pub open spec fn memo_bytes(memo: Option<Seq<u8>>) -> Seq<u8> {
    match memo {
        Some(ciphertext) => seq![1u8] + prefixed_bytes(ciphertext),
        None => seq![0u8],
    }
}

/// What is hashed of a transaction, apart from its actions and clues.
pub struct Header {
    pub chain_id: Seq<u8>,
    pub expiry_height: u64,
    pub valid_after: Option<u64>,
    pub valid_before: Option<u64>,
    pub fee: Value,
    pub memo: Option<Seq<u8>>,
}

/// The string that is hashed into the authorizing hash: the header, the
/// number of actions and their digests in order, the number of clues and
/// their encodings in order.
pub open spec fn auth_preimage(header: Header, encodings: Seq<Seq<u8>>, clues: Seq<Clue>) -> Seq<
    u8,
> {
    prefixed_bytes(header.chain_id) + u64_bytes(header.expiry_height) + option_bytes(
        header.valid_after,
    ) + option_bytes(header.valid_before) + header.fee.spec_encode() + memo_bytes(header.memo)
        + le_bytes(encodings.len(), 8) + action_digests(encodings) + le_bytes(clues.len(), 8)
        + clue_bytes(clues)
}

/// The authorizing hash of a transaction with the given header, actions and
/// clues.
pub open spec fn spec_auth_hash(header: Header, encodings: Seq<Seq<u8>>, clues: Seq<Clue>) -> Seq<
    u8,
> {
    blake2b_512_personal(body_label(), auth_preimage(header, encodings, clues))
}

/// Hashes one action, given its encoding.
pub fn hash_action(encoding: &[u8]) -> (digest: [u8; 64])
    ensures
        digest@ == action_digest(encoding@),
{
    let label: [u8; 10] = [0x50, 0x41, 0x48, 0x3a, 0x61, 0x63, 0x74, 0x69, 0x6f, 0x6e];
    assert(label@ =~= action_label());
    blake2b_personal(label.as_slice(), encoding)
}

/// Computes the authorizing hash from the parts of a transaction, with the
/// digests of the actions already made.
pub(crate) fn hash_parts(
    chain_id: &String,
    expiry_height: u64,
    valid_after: Option<u64>,
    valid_before: Option<u64>,
    fee: &Value,
    memo: &Option<Vec<u8>>,
    digests: &Vec<u8>,
    Ghost(encodings): Ghost<Seq<Seq<u8>>>,
    action_count: usize,
    clues: &Vec<Clue>,
) -> (hash: [u8; 64])
    requires
        digests@ == action_digests(encodings),
        action_count == encodings.len(),
    ensures
        hash@ == spec_auth_hash(
            Header {
                chain_id: vstd::utf8::encode_utf8(chain_id@),
                expiry_height,
                valid_after,
                valid_before,
                fee: *fee,
                memo: opt_vec(*memo),
            },
            encodings,
            clues@,
        ),
{
    let ghost header = Header {
        chain_id: vstd::utf8::encode_utf8(chain_id@),
        expiry_height,
        valid_after,
        valid_before,
        fee: *fee,
        memo: opt_vec(*memo),
    };
    let mut out: Vec<u8> = Vec::new();
    put_prefixed(&mut out, chain_id.as_str().as_bytes());
    put_u64(&mut out, expiry_height);
    put_option(&mut out, valid_after);
    put_option(&mut out, valid_before);
    fee.encode_into(&mut out);
    match memo {
        Some(ciphertext) => {
            put_u8(&mut out, 1);
            put_prefixed(&mut out, ciphertext.as_slice());
        },
        None => {
            put_u8(&mut out, 0);
        },
    }
    put_u64(&mut out, action_count as u64);
    put_bytes(&mut out, digests.as_slice());
    let n = clues.len();
    put_u64(&mut out, n as u64);
    let ghost fixed = out@;
    assert(fixed =~= prefixed_bytes(header.chain_id) + u64_bytes(header.expiry_height)
        + option_bytes(header.valid_after) + option_bytes(header.valid_before)
        + header.fee.spec_encode() + memo_bytes(header.memo) + le_bytes(encodings.len(), 8)
        + action_digests(encodings) + le_bytes(clues@.len(), 8));
    let mut i: usize = 0;
    while i < n
        invariant
            i <= n,
            n == clues@.len(),
            out@ == fixed + clue_bytes(clues@.take(i as int)),
        decreases n - i,
    {
        clues[i].encode_into(&mut out);
        proof {
            assert(clues@.take(i as int + 1).drop_last() =~= clues@.take(i as int));
            assert(clues@.take(i as int + 1).last() == clues@[i as int]);
            assert(out@ =~= fixed + clue_bytes(clues@.take(i as int + 1)));
        }
        i += 1;
    }
    assert(clues@.take(n as int) =~= clues@);
    assert(out@ =~= auth_preimage(header, encodings, clues@));
    let label: [u8; 11] = [0x50, 0x41, 0x48, 0x3a, 0x74, 0x78, 0x5f, 0x62, 0x6f, 0x64, 0x79];
    assert(label@ =~= body_label());
    blake2b_personal(label.as_slice(), out.as_slice())
}

impl TransactionBody {
    /// The encodings of the actions of this body, in order.
    pub open spec fn spec_encodings(self) -> Seq<Seq<u8>> {
        Seq::new(self.actions@.len(), |i: int| self.actions@[i].spec_encode())
    }

    /// The header of this body.
    pub open spec fn spec_header(self) -> Header {
        Header {
            chain_id: vstd::utf8::encode_utf8(self.chain_id@),
            expiry_height: self.expiry_height,
            valid_after: self.valid_after,
            valid_before: self.valid_before,
            fee: self.fee,
            memo: opt_vec(self.memo),
        }
    }

    /// The authorizing hash of this body.
    pub open spec fn spec_auth_hash(self) -> Seq<u8> {
        spec_auth_hash(self.spec_header(), self.spec_encodings(), self.fmd_clues@)
    }

    /// Computes the authorizing hash of this body: a hash of everything in it,
    /// in order.
    pub fn auth_hash(&self) -> (hash: [u8; 64])
        ensures
            hash@ == self.spec_auth_hash(),
    {
        let n = self.actions.len();
        let mut digests: Vec<u8> = Vec::new();
        let mut i: usize = 0;
        assert(self.spec_encodings().take(0) =~= Seq::<Seq<u8>>::empty());
        while i < n
            invariant
                i <= n,
                n == self.actions@.len(),
                digests@ == action_digests(self.spec_encodings().take(i as int)),
            decreases n - i,
        {
            let encoded = self.actions[i].encode();
            let digest = hash_action(encoded.as_slice());
            put_bytes(&mut digests, digest.as_slice());
            proof {
                let encodings = self.spec_encodings();
                assert(encodings.take(i as int + 1).drop_last() =~= encodings.take(i as int));
                assert(encodings.take(i as int + 1).last() == encodings[i as int]);
            }
            i += 1;
        }
        assert(self.spec_encodings().take(n as int) =~= self.spec_encodings());
        hash_parts(
            &self.chain_id,
            self.expiry_height,
            self.valid_after,
            self.valid_before,
            &self.fee,
            &self.memo,
            &digests,
            Ghost(self.spec_encodings()),
            n,
            &self.fmd_clues,
        )
    }
}

} // verus!
