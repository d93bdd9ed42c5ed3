//! What is needed to understand one transaction without the viewing keys:
//! the keys that decrypt its payloads, and the notes behind its nullifiers and
//! commitments.

use vstd::prelude::*;
use crate::bytes::{bytes32, bytes32_eq, bytes32_less, le_value, lemma_bytes32};
use crate::error::{Error, Malformed};
use crate::note::{Address, Note, Value};
use crate::wire::{field_element, spec_field_element};

verus! {

/// A note as it travels: every field a string of bytes of any length.
#[derive(Clone, Debug, PartialEq, Eq)]
pub struct NoteMessage {
    pub amount: u64,
    pub asset_id: Vec<u8>,
    pub note_blinding: Vec<u8>,
    pub address: Vec<u8>,
}

/// A payload key as it travels, with the commitment of what it decrypts.
#[derive(Clone, Debug, PartialEq, Eq)]
pub struct PayloadKeyWithCommitment {
    pub payload_key: Vec<u8>,
    pub commitment: Option<Vec<u8>>,
}

/// A nullifier as it travels, with the note it belongs to.
#[derive(Clone, Debug, PartialEq, Eq)]
pub struct NullifierWithNote {
    pub nullifier: Option<Vec<u8>>,
    pub note: Option<NoteMessage>,
}

/// The perspective on a transaction as it travels.
#[derive(Clone, Debug, PartialEq, Eq)]
pub struct TransactionPerspectiveMessage {
    pub payload_keys: Vec<PayloadKeyWithCommitment>,
    pub spend_nullifiers: Vec<NullifierWithNote>,
    pub advice_notes: Vec<NoteMessage>,
    pub address_views: Vec<Vec<u8>>,
}

/// This represents the data to understand an individual transaction without
/// disclosing viewing keys.
///
/// Each of the three tables is kept in ascending order of its keys, read as
/// numbers, and holds each key once.
#[derive(Clone, Debug, PartialEq, Eq)]
pub struct TransactionPerspective {
    /// The payload keys of the actions, by the commitment of what each one
    /// decrypts. They decrypt the notes, the swaps and the memo key of the
    /// transaction.
    pub payload_keys: Vec<([u8; 32], [u8; 32])>,
    /// Mapping of nullifiers spent in this transaction to notes.
    pub spend_nullifiers: Vec<([u8; 32], Note)>,
    /// The openings of note commitments referred to in the transaction but
    /// otherwise not included in the transaction, by their commitments.
    pub advice_notes: Vec<([u8; 32], Note)>,
    /// The addresses that matter to the transaction.
    pub address_views: Vec<Address>,
}

/// The table `entries`, which is in ascending order of its keys, with `value`
/// under `key`: in place of what was under that key, or in the place that the
/// key has in the order.
pub open spec fn with_entry<V>(entries: Seq<([u8; 32], V)>, key: [u8; 32], value: V) -> Seq<
    ([u8; 32], V),
>
    decreases entries.len(),
{
    if entries.len() == 0 {
        seq![(key, value)]
    } else if entries.last().0 == key {
        entries.drop_last().push((key, value))
    } else if le_value(entries.last().0@) < le_value(key@) {
        entries.push((key, value))
    } else {
        with_entry(entries.drop_last(), key, value).push(entries.last())
    }
}

/// What is held under `key` in the table `entries`.
pub open spec fn entry_of<V>(entries: Seq<([u8; 32], V)>, key: [u8; 32]) -> Option<V>
    decreases entries.len(),
{
    if entries.len() == 0 {
        None
    } else if entries.last().0 == key {
        Some(entries.last().1)
    } else {
        entry_of(entries.drop_last(), key)
    }
}

/// Whether a table is in strictly ascending order of its keys.
pub open spec fn ascending<V>(entries: Seq<([u8; 32], V)>) -> bool {
    forall|i: int, j: int|
        0 <= i < j < entries.len() ==> le_value((#[trigger] entries[i]).0@) < le_value(
            (#[trigger] entries[j]).0@,
        )
}

/// Putting a value under a key keeps the order of the table, puts the value
/// there, and leaves what is under every other key.
pub proof fn lemma_with_entry<V>(entries: Seq<([u8; 32], V)>, key: [u8; 32], value: V)
    requires
        ascending(entries),
    ensures
        ascending(with_entry(entries, key, value)),
        entry_of(with_entry(entries, key, value), key) == Some(value),
        forall|other: [u8; 32]|
            other != key ==> #[trigger] entry_of(with_entry(entries, key, value), other)
                == entry_of(entries, other),
        forall|i: int|
            0 <= i < with_entry(entries, key, value).len() ==> (#[trigger] with_entry(
                entries,
                key,
                value,
            )[i]).0 == key || exists|j: int|
                0 <= j < entries.len() && entries[j] == with_entry(entries, key, value)[i],
    decreases entries.len(),
{
    let result = with_entry(entries, key, value);
    if entries.len() == 0 {
        assert(result.drop_last() =~= Seq::<([u8; 32], V)>::empty());
        assert(result.last() == (key, value));
        assert forall|other: [u8; 32]| other != key implies #[trigger] entry_of(result, other)
            == entry_of(entries, other) by {
            assert(entry_of(result, other) == entry_of(result.drop_last(), other));
        }
    } else if entries.last().0 == key {
        assert(result.drop_last() =~= entries.drop_last());
        assert(result.last() == (key, value));
        assert forall|other: [u8; 32]| other != key implies #[trigger] entry_of(result, other)
            == entry_of(entries, other) by {
            assert(entry_of(result, other) == entry_of(result.drop_last(), other));
        }
        assert forall|i: int| 0 <= i < result.len() implies (#[trigger] result[i]).0 == key
            || exists|j: int| 0 <= j < entries.len() && entries[j] == result[i] by {
            if i < result.len() - 1 {
                assert(entries[i] == result[i]);
            }
        }
    } else if le_value(entries.last().0@) < le_value(key@) {
        assert(result.drop_last() =~= entries);
        assert(result.last() == (key, value));
        assert forall|other: [u8; 32]| other != key implies #[trigger] entry_of(result, other)
            == entry_of(entries, other) by {
            assert(entry_of(result, other) == entry_of(result.drop_last(), other));
        }
        assert forall|i: int, j: int| 0 <= i < j < result.len() implies le_value(
            (#[trigger] result[i]).0@,
        ) < le_value((#[trigger] result[j]).0@) by {
            if j == result.len() - 1 && i < entries.len() - 1 {
                assert(le_value(entries[i].0@) < le_value(entries[entries.len() - 1].0@));
            }
        }
        assert forall|i: int| 0 <= i < result.len() implies (#[trigger] result[i]).0 == key
            || exists|j: int| 0 <= j < entries.len() && entries[j] == result[i] by {
            if i < entries.len() {
                assert(entries[i] == result[i]);
            }
        }
    } else {
        let shorter = entries.drop_last();
        let inner = with_entry(shorter, key, value);
        assert forall|i: int, j: int| 0 <= i < j < shorter.len() implies le_value(
            (#[trigger] shorter[i]).0@,
        ) < le_value((#[trigger] shorter[j]).0@) by {
            assert(shorter[i] == entries[i]);
            assert(shorter[j] == entries[j]);
        }
        lemma_with_entry(shorter, key, value);
        assert(result.drop_last() =~= inner);
        assert(result.last() == entries.last());
        assert forall|other: [u8; 32]| other != key implies #[trigger] entry_of(result, other)
            == entry_of(entries, other) by {
            if entries.last().0 != other {
                assert(entry_of(inner, other) == entry_of(shorter, other));
            }
        }
        lemma_bytes32(key);
        lemma_bytes32(entries.last().0);
        crate::bytes::lemma_le_bytes_of_le_value(key@);
        crate::bytes::lemma_le_bytes_of_le_value(entries.last().0@);
        assert(le_value(key@) != le_value(entries.last().0@)) by {
            if le_value(key@) == le_value(entries.last().0@) {
                assert(key@ == entries.last().0@);
                assert(key =~= entries.last().0);
            }
        }
        assert forall|i: int, j: int| 0 <= i < j < result.len() implies le_value(
            (#[trigger] result[i]).0@,
        ) < le_value((#[trigger] result[j]).0@) by {
            if j == result.len() - 1 {
                assert(result[i] == inner[i]);
                if inner[i].0 != key {
                    let m = choose|m: int| 0 <= m < shorter.len() && shorter[m] == inner[i];
                    assert(entries[m] == shorter[m]);
                    assert(le_value(entries[m].0@) < le_value(entries[entries.len() - 1].0@));
                }
            } else {
                assert(result[i] == inner[i] && result[j] == inner[j]);
            }
        }
        assert forall|i: int| 0 <= i < result.len() implies (#[trigger] result[i]).0 == key
            || exists|j: int| 0 <= j < entries.len() && entries[j] == result[i] by {
            if i < inner.len() {
                assert(result[i] == inner[i]);
                if inner[i].0 != key {
                    let m = choose|m: int| 0 <= m < shorter.len() && shorter[m] == inner[i];
                    assert(entries[m] == result[i]);
                }
            } else {
                assert(entries[entries.len() - 1] == result[i]);
            }
        }
    }
}

/// Puts `value` under `key` in a table.
pub fn insert<V: Copy>(entries: &mut Vec<([u8; 32], V)>, key: [u8; 32], value: V)
    ensures
        final(entries)@ == with_entry(old(entries)@, key, value),
    decreases old(entries)@.len(),
{
    let n = entries.len();
    if n == 0 {
        entries.push((key, value));
        assert(entries@ =~= seq![(key, value)]);
        return ;
    }
    let last = entries[n - 1];
    assert(last == old(entries)@.last());
    entries.pop();
    assert(entries@ =~= old(entries)@.drop_last());
    if bytes32_eq(&last.0, &key) {
        entries.push((key, value));
    } else if bytes32_less(&last.0, &key) {
        entries.push(last);
        entries.push((key, value));
        assert(entries@ =~= old(entries)@.push((key, value)));
    } else {
        insert(entries, key, value);
        entries.push(last);
    }
}

/// Looks up what is held under `key` in a table.
pub fn lookup<V: Copy>(entries: &Vec<([u8; 32], V)>, key: &[u8; 32]) -> (found: Option<V>)
    ensures
        found == entry_of(entries@, *key),
{
    let mut i = entries.len();
    assert(entries@.take(i as int) =~= entries@);
    while i > 0
        invariant
            i <= entries@.len(),
            entry_of(entries@, *key) == entry_of(entries@.take(i as int), *key),
        decreases i,
    {
        i -= 1;
        assert(entries@.take(i as int + 1).last() == entries@[i as int]);
        assert(entries@.take(i as int + 1).drop_last() =~= entries@.take(i as int));
        if bytes32_eq(&entries[i].0, key) {
            return Some(entries[i].1);
        }
    }
    None
}

/// Copies a string of any length into 32 bytes, if it has 32.
pub fn exactly32(bytes: &Vec<u8>) -> (array: Option<[u8; 32]>)
    ensures
        match array {
            Some(array) => array@ == bytes@,
            None => bytes@.len() != 32,
        },
{
    if bytes.len() != 32 {
        return None;
    }
    let mut array = [0u8; 32];
    let mut i: usize = 0;
    while i < 32
        invariant
            i <= 32,
            bytes@.len() == 32,
            forall|j: int| 0 <= j < i ==> array@[j] == bytes@[j],
        decreases 32 - i,
    {
        array[i] = bytes[i];
        i += 1;
    }
    assert(array@ =~= bytes@);
    Some(array)
}

/// The address that 96 bytes encode: the diversified generator, the
/// transmission key and the clue key, 32 bytes each.
pub open spec fn spec_address(bytes: Seq<u8>) -> Option<Address> {
    if bytes.len() == 96 {
        Some(
            Address {
                diversified_generator: bytes32(bytes.subrange(0, 32)),
                transmission_key: bytes32(bytes.subrange(32, 64)),
                clue_key: bytes32(bytes.subrange(64, 96)),
            },
        )
    } else {
        None
    }
}

/// Reads an address.
pub fn read_address(bytes: &Vec<u8>) -> (address: Option<Address>)
    ensures
        address == spec_address(bytes@),
{
    if bytes.len() != 96 {
        return None;
    }
    let mut parts = [[0u8; 32]; 3];
    let mut part: usize = 0;
    while part < 3
        invariant
            part <= 3,
            bytes@.len() == 96,
            forall|p: int|
                0 <= p < part ==> (#[trigger] parts@[p])@ == bytes@.subrange(32 * p, 32 * p + 32),
        decreases 3 - part,
    {
        let mut array = [0u8; 32];
        let mut i: usize = 0;
        while i < 32
            invariant
                i <= 32,
                part < 3,
                bytes@.len() == 96,
                forall|j: int| 0 <= j < i ==> array@[j] == bytes@[32 * part + j],
            decreases 32 - i,
        {
            array[i] = bytes[32 * part + i];
            i += 1;
        }
        assert(array@ =~= bytes@.subrange(32 * part as int, 32 * part + 32));
        let ghost before = parts@;
        parts[part] = array;
        assert forall|p: int| 0 <= p < part + 1 implies (#[trigger] parts@[p])@ == bytes@.subrange(
            32 * p,
            32 * p + 32,
        ) by {
            if p < part {
                assert(parts@[p] == before[p]);
            }
        }
        part += 1;
    }
    proof {
        lemma_bytes32(parts@[0]);
        lemma_bytes32(parts@[1]);
        lemma_bytes32(parts@[2]);
    }
    Some(
        Address {
            diversified_generator: parts[0],
            transmission_key: parts[1],
            clue_key: parts[2],
        },
    )
}

impl Address {
    /// Writes the address as 96 bytes.
    pub fn to_bytes(&self) -> (bytes: Vec<u8>)
        ensures
            bytes@ == self.spec_encode(),
    {
        let mut bytes: Vec<u8> = Vec::new();
        self.encode_into(&mut bytes);
        assert(bytes@ =~= self.spec_encode());
        bytes
    }
}

impl NoteMessage {
    /// The note that this message holds, if its asset and its blinding factor
    /// are base field elements and its address has 96 bytes.
    pub open spec fn spec_note(self) -> Option<Note> {
        match (
            spec_field_element(self.asset_id@),
            spec_field_element(self.note_blinding@),
            spec_address(self.address@),
        ) {
            (Some(asset_id), Some(note_blinding), Some(address)) => Some(
                Note { value: Value { amount: self.amount, asset_id }, note_blinding, address },
            ),
            _ => None,
        }
    }

    /// Reads the note.
    pub fn note(&self) -> (note: Option<Note>)
        ensures
            note == self.spec_note(),
    {
        match (
            field_element(&self.asset_id),
            field_element(&self.note_blinding),
            read_address(&self.address),
        ) {
            (Some(asset_id), Some(note_blinding), Some(address)) => Some(
                Note { value: Value { amount: self.amount, asset_id }, note_blinding, address },
            ),
            _ => None,
        }
    }
}

impl NoteMessage {
    /// Whether this message holds `note`, with nothing missing.
    pub open spec fn spec_holds(self, note: Note) -> bool {
        &&& self.amount == note.value.amount
        &&& self.asset_id@ == note.value.asset_id@
        &&& self.note_blinding@ == note.note_blinding@
        &&& self.address@ == note.address.spec_encode()
    }
}

impl Note {
    /// Writes the note as a message.
    pub fn to_message(&self) -> (message: NoteMessage)
        ensures
            message.spec_holds(*self),
    {
        let mut asset_id: Vec<u8> = Vec::new();
        asset_id.extend_from_slice(self.value.asset_id.as_slice());
        let mut note_blinding: Vec<u8> = Vec::new();
        note_blinding.extend_from_slice(self.note_blinding.as_slice());
        assert(asset_id@ =~= self.value.asset_id@);
        assert(note_blinding@ =~= self.note_blinding@);
        NoteMessage {
            amount: self.value.amount,
            asset_id,
            note_blinding,
            address: self.address.to_bytes(),
        }
    }
}

/// What becomes of the table `entries` when one more payload key is read: a
/// key without a commitment is passed over, a commitment or a key that does
/// not decode is an error, and otherwise the key is put under its commitment.
pub open spec fn read_payload_key(
    entries: Seq<([u8; 32], [u8; 32])>,
    message: PayloadKeyWithCommitment,
) -> Result<Seq<([u8; 32], [u8; 32])>, Error> {
    match message.commitment {
        None => Ok(entries),
        Some(commitment) => match spec_field_element(commitment@) {
            None => Err(Error::MalformedInput { what: Malformed::Commitment }),
            Some(commitment) => if message.payload_key@.len() == 32 {
                Ok(with_entry(entries, commitment, bytes32(message.payload_key@)))
            } else {
                Err(Error::MalformedInput { what: Malformed::PayloadKey })
            },
        },
    }
}

/// The table of payload keys that `messages` hold, or the first error.
pub open spec fn read_payload_keys(messages: Seq<PayloadKeyWithCommitment>) -> Result<
    Seq<([u8; 32], [u8; 32])>,
    Error,
>
    decreases messages.len(),
{
    if messages.len() == 0 {
        Ok(Seq::empty())
    } else {
        match read_payload_keys(messages.drop_last()) {
            Err(e) => Err(e),
            Ok(entries) => read_payload_key(entries, messages.last()),
        }
    }
}

/// What becomes of the table `entries` when one more nullifier is read: a
/// nullifier that is missing or does not decode is an error, and so is a note
/// that is missing or does not decode; otherwise the note is put under the
/// nullifier.
pub open spec fn read_nullifier(entries: Seq<([u8; 32], Note)>, message: NullifierWithNote) -> Result<
    Seq<([u8; 32], Note)>,
    Error,
> {
    match message.nullifier {
        None => Err(Error::MalformedInput { what: Malformed::Nullifier }),
        Some(nullifier) => match spec_field_element(nullifier@) {
            None => Err(Error::MalformedInput { what: Malformed::Nullifier }),
            Some(nullifier) => match message.note {
                None => Err(Error::MalformedInput { what: Malformed::Note }),
                Some(note) => match note.spec_note() {
                    None => Err(Error::MalformedInput { what: Malformed::Note }),
                    Some(note) => Ok(with_entry(entries, nullifier, note)),
                },
            },
        },
    }
}

/// The table of spent notes that `messages` hold, or the first error.
pub open spec fn read_nullifiers(messages: Seq<NullifierWithNote>) -> Result<
    Seq<([u8; 32], Note)>,
    Error,
>
    decreases messages.len(),
{
    if messages.len() == 0 {
        Ok(Seq::empty())
    } else {
        match read_nullifiers(messages.drop_last()) {
            Err(e) => Err(e),
            Ok(entries) => read_nullifier(entries, messages.last()),
        }
    }
}

/// The table of notes that `messages` hold, each under its commitment, or the
/// first error.
pub open spec fn read_advice_notes(messages: Seq<NoteMessage>) -> Result<
    Seq<([u8; 32], Note)>,
    Error,
>
    decreases messages.len(),
{
    if messages.len() == 0 {
        Ok(Seq::empty())
    } else {
        match read_advice_notes(messages.drop_last()) {
            Err(e) => Err(e),
            Ok(entries) => match messages.last().spec_note() {
                None => Err(Error::MalformedInput { what: Malformed::Note }),
                Some(note) => Ok(with_entry(entries, bytes32(note.spec_commit()), note)),
            },
        }
    }
}

/// The addresses that `messages` hold, in order, or the first error.
pub open spec fn read_addresses(messages: Seq<Vec<u8>>) -> Result<Seq<Address>, Error>
    decreases messages.len(),
{
    if messages.len() == 0 {
        Ok(Seq::empty())
    } else {
        match read_addresses(messages.drop_last()) {
            Err(e) => Err(e),
            Ok(addresses) => match spec_address(messages.last()@) {
                None => Err(Error::MalformedInput { what: Malformed::Address }),
                Some(address) => Ok(addresses.push(address)),
            },
        }
    }
}

/// Once a payload key fails to decode, the list as a whole fails with that
/// error.
pub proof fn lemma_payload_keys_fail(messages: Seq<PayloadKeyWithCommitment>, len: int)
    requires
        0 <= len <= messages.len(),
        read_payload_keys(messages.take(len)) is Err,
    ensures
        read_payload_keys(messages) == read_payload_keys(messages.take(len)),
    decreases messages.len() - len,
{
    if len == messages.len() {
        assert(messages.take(len) =~= messages);
    } else {
        assert(messages.take(len + 1).drop_last() =~= messages.take(len));
        lemma_payload_keys_fail(messages, len + 1);
    }
}

/// Once a nullifier fails to decode, the list as a whole fails with that
/// error.
pub proof fn lemma_nullifiers_fail(messages: Seq<NullifierWithNote>, len: int)
    requires
        0 <= len <= messages.len(),
        read_nullifiers(messages.take(len)) is Err,
    ensures
        read_nullifiers(messages) == read_nullifiers(messages.take(len)),
    decreases messages.len() - len,
{
    if len == messages.len() {
        assert(messages.take(len) =~= messages);
    } else {
        assert(messages.take(len + 1).drop_last() =~= messages.take(len));
        lemma_nullifiers_fail(messages, len + 1);
    }
}

/// Once a note fails to decode, the list as a whole fails with that error.
pub proof fn lemma_advice_notes_fail(messages: Seq<NoteMessage>, len: int)
    requires
        0 <= len <= messages.len(),
        read_advice_notes(messages.take(len)) is Err,
    ensures
        read_advice_notes(messages) == read_advice_notes(messages.take(len)),
    decreases messages.len() - len,
{
    if len == messages.len() {
        assert(messages.take(len) =~= messages);
    } else {
        assert(messages.take(len + 1).drop_last() =~= messages.take(len));
        lemma_advice_notes_fail(messages, len + 1);
    }
}

/// Once an address fails to decode, the list as a whole fails with that
/// error.
pub proof fn lemma_addresses_fail(messages: Seq<Vec<u8>>, len: int)
    requires
        0 <= len <= messages.len(),
        read_addresses(messages.take(len)) is Err,
    ensures
        read_addresses(messages) == read_addresses(messages.take(len)),
    decreases messages.len() - len,
{
    if len == messages.len() {
        assert(messages.take(len) =~= messages);
    } else {
        assert(messages.take(len + 1).drop_last() =~= messages.take(len));
        lemma_addresses_fail(messages, len + 1);
    }
}

/// Reads the table of payload keys.
pub fn payload_keys(messages: &Vec<PayloadKeyWithCommitment>) -> (r: Result<
    Vec<([u8; 32], [u8; 32])>,
    Error,
>)
    ensures
        match read_payload_keys(messages@) {
            Ok(entries) => r is Ok && r.unwrap()@ == entries,
            Err(e) => r == Err::<Vec<([u8; 32], [u8; 32])>, Error>(e),
        },
{
    let mut entries: Vec<([u8; 32], [u8; 32])> = Vec::new();
    let n = messages.len();
    let mut i: usize = 0;
    assert(messages@.take(0) =~= Seq::<PayloadKeyWithCommitment>::empty());
    while i < n
        invariant
            i <= n,
            n == messages@.len(),
            read_payload_keys(messages@.take(i as int)) == Ok::<
                Seq<([u8; 32], [u8; 32])>,
                Error,
            >(entries@),
        decreases n - i,
    {
        proof {
            assert(messages@.take(i as int + 1).drop_last() =~= messages@.take(i as int));
            assert(messages@.take(i as int + 1).last() == messages@[i as int]);
        }
        let message = &messages[i];
        match &message.commitment {
            None => {},
            Some(commitment) => match field_element(commitment) {
                None => {
                    proof {
                        lemma_payload_keys_fail(messages@, i as int + 1);
                    }
                    return Err(Error::MalformedInput { what: Malformed::Commitment });
                },
                Some(commitment) => match exactly32(&message.payload_key) {
                    None => {
                        proof {
                            lemma_payload_keys_fail(messages@, i as int + 1);
                        }
                        return Err(Error::MalformedInput { what: Malformed::PayloadKey });
                    },
                    Some(key) => {
                        proof {
                            lemma_bytes32(key);
                        }
                        insert(&mut entries, commitment, key);
                    },
                },
            },
        }
        i += 1;
    }
    assert(messages@.take(n as int) =~= messages@);
    Ok(entries)
}

/// Reads the table of spent notes.
pub fn spend_nullifiers(messages: &Vec<NullifierWithNote>) -> (r: Result<
    Vec<([u8; 32], Note)>,
    Error,
>)
    ensures
        match read_nullifiers(messages@) {
            Ok(entries) => r is Ok && r.unwrap()@ == entries,
            Err(e) => r == Err::<Vec<([u8; 32], Note)>, Error>(e),
        },
{
    let mut entries: Vec<([u8; 32], Note)> = Vec::new();
    let n = messages.len();
    let mut i: usize = 0;
    assert(messages@.take(0) =~= Seq::<NullifierWithNote>::empty());
    while i < n
        invariant
            i <= n,
            n == messages@.len(),
            read_nullifiers(messages@.take(i as int)) == Ok::<Seq<([u8; 32], Note)>, Error>(
                entries@,
            ),
        decreases n - i,
    {
        proof {
            assert(messages@.take(i as int + 1).drop_last() =~= messages@.take(i as int));
            assert(messages@.take(i as int + 1).last() == messages@[i as int]);
        }
        let message = &messages[i];
        let nullifier = match &message.nullifier {
            Some(nullifier) => field_element(nullifier),
            None => None,
        };
        let note = match &message.note {
            Some(note) => note.note(),
            None => None,
        };
        match (nullifier, note) {
            (Some(nullifier), Some(note)) => {
                insert(&mut entries, nullifier, note);
            },
            (None, _) => {
                proof {
                    lemma_nullifiers_fail(messages@, i as int + 1);
                }
                return Err(Error::MalformedInput { what: Malformed::Nullifier });
            },
            (Some(_), None) => {
                proof {
                    lemma_nullifiers_fail(messages@, i as int + 1);
                }
                return Err(Error::MalformedInput { what: Malformed::Note });
            },
        }
        i += 1;
    }
    assert(messages@.take(n as int) =~= messages@);
    Ok(entries)
}

/// Reads the table of advice notes, and puts each note under its commitment.
pub fn advice_notes(messages: &Vec<NoteMessage>) -> (r: Result<Vec<([u8; 32], Note)>, Error>)
    ensures
        match read_advice_notes(messages@) {
            Ok(entries) => r is Ok && r.unwrap()@ == entries,
            Err(e) => r == Err::<Vec<([u8; 32], Note)>, Error>(e),
        },
{
    let mut entries: Vec<([u8; 32], Note)> = Vec::new();
    let n = messages.len();
    let mut i: usize = 0;
    assert(messages@.take(0) =~= Seq::<NoteMessage>::empty());
    while i < n
        invariant
            i <= n,
            n == messages@.len(),
            read_advice_notes(messages@.take(i as int)) == Ok::<Seq<([u8; 32], Note)>, Error>(
                entries@,
            ),
        decreases n - i,
    {
        proof {
            assert(messages@.take(i as int + 1).drop_last() =~= messages@.take(i as int));
            assert(messages@.take(i as int + 1).last() == messages@[i as int]);
        }
        match messages[i].note() {
            None => {
                proof {
                    lemma_advice_notes_fail(messages@, i as int + 1);
                }
                return Err(Error::MalformedInput { what: Malformed::Note });
            },
            Some(note) => {
                let commitment = note.commit();
                proof {
                    lemma_bytes32(commitment);
                }
                insert(&mut entries, commitment, note);
            },
        }
        i += 1;
    }
    assert(messages@.take(n as int) =~= messages@);
    Ok(entries)
}

/// Reads the addresses.
pub fn address_views(messages: &Vec<Vec<u8>>) -> (r: Result<Vec<Address>, Error>)
    ensures
        match read_addresses(messages@) {
            Ok(addresses) => r is Ok && r.unwrap()@ == addresses,
            Err(e) => r == Err::<Vec<Address>, Error>(e),
        },
{
    let mut addresses: Vec<Address> = Vec::new();
    let n = messages.len();
    let mut i: usize = 0;
    assert(messages@.take(0) =~= Seq::<Vec<u8>>::empty());
    while i < n
        invariant
            i <= n,
            n == messages@.len(),
            read_addresses(messages@.take(i as int)) == Ok::<Seq<Address>, Error>(addresses@),
        decreases n - i,
    {
        proof {
            assert(messages@.take(i as int + 1).drop_last() =~= messages@.take(i as int));
            assert(messages@.take(i as int + 1).last() == messages@[i as int]);
        }
        match read_address(&messages[i]) {
            None => {
                proof {
                    lemma_addresses_fail(messages@, i as int + 1);
                }
                return Err(Error::MalformedInput { what: Malformed::Address });
            },
            Some(address) => {
                addresses.push(address);
            },
        }
        i += 1;
    }
    assert(messages@.take(n as int) =~= messages@);
    Ok(addresses)
}

impl TransactionPerspectiveMessage {
    /// Why this message does not hold a perspective, if it does not: the
    /// first error among its payload keys, then among its nullifiers, its
    /// notes and its addresses.
    pub open spec fn spec_failure(self) -> Option<Error> {
        match read_payload_keys(self.payload_keys@) {
            Err(e) => Some(e),
            Ok(_) => match read_nullifiers(self.spend_nullifiers@) {
                Err(e) => Some(e),
                Ok(_) => match read_advice_notes(self.advice_notes@) {
                    Err(e) => Some(e),
                    Ok(_) => match read_addresses(self.address_views@) {
                        Err(e) => Some(e),
                        Ok(_) => None,
                    },
                },
            },
        }
    }
}

impl TransactionPerspective {
    /// Whether this perspective holds what `message` holds.
    pub open spec fn spec_read_from(self, message: TransactionPerspectiveMessage) -> bool {
        &&& read_payload_keys(message.payload_keys@) == Ok::<
            Seq<([u8; 32], [u8; 32])>,
            Error,
        >(self.payload_keys@)
        &&& read_nullifiers(message.spend_nullifiers@) == Ok::<Seq<([u8; 32], Note)>, Error>(
            self.spend_nullifiers@,
        )
        &&& read_advice_notes(message.advice_notes@) == Ok::<Seq<([u8; 32], Note)>, Error>(
            self.advice_notes@,
        )
        &&& read_addresses(message.address_views@) == Ok::<Seq<Address>, Error>(
            self.address_views@,
        )
    }

    /// Reads a perspective from a message.
    ///
    /// Every table is filled entry by entry, so that of two entries under one
    /// key the later one stays. A payload key without a commitment is passed
    /// over. Anything else that is missing or does not decode fails the
    /// reading as a whole.
    pub fn try_from(message: TransactionPerspectiveMessage) -> (r: Result<
        TransactionPerspective,
        Error,
    >)
        ensures
            match message.spec_failure() {
                Some(e) => r == Err::<TransactionPerspective, Error>(e),
                None => r is Ok && r.unwrap().spec_read_from(message),
            },
    {
        let payload_keys = match payload_keys(&message.payload_keys) {
            Ok(entries) => entries,
            Err(e) => {
                return Err(e);
            },
        };
        let spend_nullifiers = match spend_nullifiers(&message.spend_nullifiers) {
            Ok(entries) => entries,
            Err(e) => {
                return Err(e);
            },
        };
        let advice_notes = match advice_notes(&message.advice_notes) {
            Ok(entries) => entries,
            Err(e) => {
                return Err(e);
            },
        };
        let address_views = match address_views(&message.address_views) {
            Ok(addresses) => addresses,
            Err(e) => {
                return Err(e);
            },
        };
        Ok(TransactionPerspective { payload_keys, spend_nullifiers, advice_notes, address_views })
    }

    /// Whether `message` holds what this perspective holds: every entry of
    /// every table, in the order of the table.
    pub open spec fn spec_written_as(self, message: TransactionPerspectiveMessage) -> bool {
        &&& message.payload_keys@.len() == self.payload_keys@.len()
        &&& forall|i: int|
            0 <= i < self.payload_keys@.len() ==> {
                &&& (#[trigger] message.payload_keys@[i]).commitment is Some
                &&& message.payload_keys@[i].commitment.unwrap()@ == self.payload_keys@[i].0@
                &&& message.payload_keys@[i].payload_key@ == self.payload_keys@[i].1@
            }
        &&& message.spend_nullifiers@.len() == self.spend_nullifiers@.len()
        &&& forall|i: int|
            0 <= i < self.spend_nullifiers@.len() ==> {
                &&& (#[trigger] message.spend_nullifiers@[i]).nullifier is Some
                &&& message.spend_nullifiers@[i].nullifier.unwrap()@
                    == self.spend_nullifiers@[i].0@
                &&& message.spend_nullifiers@[i].note is Some
                &&& message.spend_nullifiers@[i].note.unwrap().spec_holds(
                    self.spend_nullifiers@[i].1,
                )
            }
        &&& message.advice_notes@.len() == self.advice_notes@.len()
        &&& forall|i: int|
            0 <= i < self.advice_notes@.len() ==> (#[trigger] message.advice_notes@[i]).spec_holds(
                self.advice_notes@[i].1,
            )
        &&& message.address_views@.len() == self.address_views@.len()
        &&& forall|i: int|
            0 <= i < self.address_views@.len() ==> (#[trigger] message.address_views@[i])@
                == self.address_views@[i].spec_encode()
    }

    /// Writes the perspective as a message.
    pub fn to_message(&self) -> (message: TransactionPerspectiveMessage)
        ensures
            self.spec_written_as(message),
    {
        let mut payload_keys: Vec<PayloadKeyWithCommitment> = Vec::new();
        let mut spend_nullifiers: Vec<NullifierWithNote> = Vec::new();
        let mut advice_notes: Vec<NoteMessage> = Vec::new();
        let mut address_views: Vec<Vec<u8>> = Vec::new();

        let mut i: usize = 0;
        while i < self.payload_keys.len()
            invariant
                i <= self.payload_keys@.len(),
                payload_keys@.len() == i,
                forall|m: int|
                    0 <= m < i ==> {
                        &&& (#[trigger] payload_keys@[m]).commitment is Some
                        &&& payload_keys@[m].commitment.unwrap()@ == self.payload_keys@[m].0@
                        &&& payload_keys@[m].payload_key@ == self.payload_keys@[m].1@
                    },
            decreases self.payload_keys@.len() - i,
        {
            let (commitment, payload_key) = self.payload_keys[i];
            payload_keys.push(
                PayloadKeyWithCommitment {
                    payload_key: copy32(&payload_key),
                    commitment: Some(copy32(&commitment)),
                },
            );
            i += 1;
        }
        let mut j: usize = 0;
        while j < self.spend_nullifiers.len()
            invariant
                j <= self.spend_nullifiers@.len(),
                spend_nullifiers@.len() == j,
                forall|m: int|
                    0 <= m < j ==> {
                        &&& (#[trigger] spend_nullifiers@[m]).nullifier is Some
                        &&& spend_nullifiers@[m].nullifier.unwrap()@
                            == self.spend_nullifiers@[m].0@
                        &&& spend_nullifiers@[m].note is Some
                        &&& spend_nullifiers@[m].note.unwrap().spec_holds(
                            self.spend_nullifiers@[m].1,
                        )
                    },
            decreases self.spend_nullifiers@.len() - j,
        {
            let (nullifier, note) = self.spend_nullifiers[j];
            spend_nullifiers.push(
                NullifierWithNote {
                    nullifier: Some(copy32(&nullifier)),
                    note: Some(note.to_message()),
                },
            );
            j += 1;
        }
        let mut k: usize = 0;
        while k < self.advice_notes.len()
            invariant
                k <= self.advice_notes@.len(),
                advice_notes@.len() == k,
                forall|m: int|
                    0 <= m < k ==> (#[trigger] advice_notes@[m]).spec_holds(
                        self.advice_notes@[m].1,
                    ),
            decreases self.advice_notes@.len() - k,
        {
            advice_notes.push(self.advice_notes[k].1.to_message());
            k += 1;
        }
        let mut a: usize = 0;
        while a < self.address_views.len()
            invariant
                a <= self.address_views@.len(),
                address_views@.len() == a,
                forall|m: int|
                    0 <= m < a ==> (#[trigger] address_views@[m])@
                        == self.address_views@[m].spec_encode(),
            decreases self.address_views@.len() - a,
        {
            address_views.push(self.address_views[a].to_bytes());
            a += 1;
        }
        TransactionPerspectiveMessage { payload_keys, spend_nullifiers, advice_notes, address_views }
    }
}

/// A copy of 32 bytes as a string of any length.
fn copy32(array: &[u8; 32]) -> (bytes: Vec<u8>)
    ensures
        bytes@ == array@,
{
    let mut bytes: Vec<u8> = Vec::new();
    bytes.extend_from_slice(array.as_slice());
    assert(bytes@ =~= array@);
    bytes
}

} // verus!
