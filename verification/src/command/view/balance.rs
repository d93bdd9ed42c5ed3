//! The command that shows the balances of an account.

use vstd::prelude::*;
use crate::bytes::{bytes32_eq, bytes32_less, le_value};
use crate::note::Value;

verus! {

/// View your account balances.
#[derive(Clone, Copy, Debug, PartialEq, Eq, Structural)]
pub struct BalanceCmd {
    /// If set, breaks down balances by address.
    pub by_address: bool,
    /// If set, prints the value of each note individually.
    pub by_note: bool,
}

impl BalanceCmd {
    /// Whether the command runs without a synchronized view of the chain: it
    /// never does, since balances are read off the scanned chain state.
    pub open spec fn spec_offline(self) -> bool {
        false
    }

    /// Whether the command runs without a synchronized view of the chain.
    pub fn offline(&self) -> (offline: bool)
        ensures
            offline == self.spec_offline(),
    {
        false
    }
}

/// One line of the table of balances: the address it belongs to, where the
/// table is broken down by address; the value; and the epoch until which the
/// value is unbonding, where it is quarantined.
#[derive(Clone, Copy, Debug, PartialEq, Eq)]
pub struct Row {
    pub index: Option<u128>,
    pub value: Value,
    pub quarantined: Option<u64>,
}

/// A quarantined note: its amount, and the epoch until which it is unbonding.
#[derive(Clone, Copy, Debug, PartialEq, Eq, Structural)]
pub struct QuarantinedRecord {
    pub amount: u64,
    pub unbonding_epoch: u64,
}

/// The spendable notes of one asset at one address, by their amounts.
#[derive(Clone, Debug, PartialEq, Eq)]
pub struct NoteGroup {
    pub index: u128,
    pub asset_id: [u8; 32],
    pub amounts: Vec<u64>,
}

/// The quarantined notes of one asset at one address.
#[derive(Clone, Debug, PartialEq, Eq)]
pub struct QuarantinedGroup {
    pub index: u128,
    pub asset_id: [u8; 32],
    pub records: Vec<QuarantinedRecord>,
}

/// How the address of a row is shown.
#[derive(Clone, Copy, Debug, PartialEq, Eq, Structural)]
pub enum IndexText {
    /// By its number.
    Number(u64),
    /// As an ephemeral address: one whose index is past the numbered ones.
    Ephemeral,
}

/// The largest index of a numbered address.
pub const MAX_NUMBERED_INDEX: u128 = 0xFFFF_FFFF_FFFF_FFFF;

/// The row of one spendable note.
pub open spec fn note_row(group: NoteGroup, i: int) -> Row {
    Row {
        index: Some(group.index),
        value: Value { amount: group.amounts@[i], asset_id: group.asset_id },
        quarantined: None,
    }
}

/// The row of one quarantined note.
pub open spec fn quarantined_row(group: QuarantinedGroup, i: int) -> Row {
    Row {
        index: Some(group.index),
        value: Value { amount: group.records@[i].amount, asset_id: group.asset_id },
        quarantined: Some(group.records@[i].unbonding_epoch),
    }
}

/// One row for every note of every group, in order.
pub open spec fn note_rows(groups: Seq<NoteGroup>) -> Seq<Row>
    decreases groups.len(),
{
    if groups.len() == 0 {
        Seq::empty()
    } else {
        note_rows(groups.drop_last()) + Seq::new(
            groups.last().amounts@.len(),
            |i: int| note_row(groups.last(), i),
        )
    }
}

/// One row for every quarantined note of every group, in order.
pub open spec fn quarantined_rows(groups: Seq<QuarantinedGroup>) -> Seq<Row>
    decreases groups.len(),
{
    if groups.len() == 0 {
        Seq::empty()
    } else {
        quarantined_rows(groups.drop_last()) + Seq::new(
            groups.last().records@.len(),
            |i: int| quarantined_row(groups.last(), i),
        )
    }
}

/// Makes one row for every note: first the spendable notes, group by group,
/// then the quarantined ones. Each row shows the address of its note.
pub fn collect_notes(notes: &Vec<NoteGroup>, quarantined_notes: &Vec<QuarantinedGroup>) -> (rows:
    Vec<Row>)
    ensures
        rows@ == note_rows(notes@) + quarantined_rows(quarantined_notes@),
{
    let mut rows: Vec<Row> = Vec::new();
    let n = notes.len();
    let mut g: usize = 0;
    assert(notes@.take(0) =~= Seq::<NoteGroup>::empty());
    while g < n
        invariant
            g <= n,
            n == notes@.len(),
            rows@ == note_rows(notes@.take(g as int)),
        decreases n - g,
    {
        let group = &notes[g];
        let ghost before = rows@;
        let count = group.amounts.len();
        let mut i: usize = 0;
        while i < count
            invariant
                i <= count,
                count == group.amounts@.len(),
                rows@ == before + Seq::new(i as nat, |k: int| note_row(*group, k)),
            decreases count - i,
        {
            rows.push(
                Row {
                    index: Some(group.index),
                    value: Value { amount: group.amounts[i], asset_id: group.asset_id },
                    quarantined: None,
                },
            );
            assert(rows@ =~= before + Seq::new((i + 1) as nat, |k: int| note_row(*group, k)));
            i += 1;
        }
        proof {
            assert(notes@.take(g as int + 1).drop_last() =~= notes@.take(g as int));
            assert(notes@.take(g as int + 1).last() == *group);
        }
        g += 1;
    }
    assert(notes@.take(n as int) =~= notes@);
    let ghost spendable = rows@;
    let m = quarantined_notes.len();
    let mut q: usize = 0;
    assert(quarantined_notes@.take(0) =~= Seq::<QuarantinedGroup>::empty());
    assert(rows@ =~= spendable + quarantined_rows(quarantined_notes@.take(0)));
    while q < m
        invariant
            q <= m,
            m == quarantined_notes@.len(),
            rows@ == spendable + quarantined_rows(quarantined_notes@.take(q as int)),
        decreases m - q,
    {
        let group = &quarantined_notes[q];
        let ghost before = rows@;
        let count = group.records.len();
        let mut i: usize = 0;
        while i < count
            invariant
                i <= count,
                count == group.records@.len(),
                rows@ == before + Seq::new(i as nat, |k: int| quarantined_row(*group, k)),
            decreases count - i,
        {
            rows.push(
                Row {
                    index: Some(group.index),
                    value: Value { amount: group.records[i].amount, asset_id: group.asset_id },
                    quarantined: Some(group.records[i].unbonding_epoch),
                },
            );
            assert(rows@ =~= before + Seq::new(
                (i + 1) as nat,
                |k: int| quarantined_row(*group, k),
            ));
            i += 1;
        }
        proof {
            assert(quarantined_notes@.take(q as int + 1).drop_last() =~= quarantined_notes@.take(
                q as int,
            ));
            assert(quarantined_notes@.take(q as int + 1).last() == *group);
            assert(rows@ =~= spendable + quarantined_rows(quarantined_notes@.take(q as int + 1)));
        }
        q += 1;
    }
    assert(quarantined_notes@.take(m as int) =~= quarantined_notes@);
    rows
}

/// Whether a row belongs to an ephemeral address.
pub open spec fn spec_is_ephemeral(row: Row) -> bool {
    row.index matches Some(index) && index > MAX_NUMBERED_INDEX
}

/// Whether a row belongs to an ephemeral address.
pub fn is_ephemeral(row: &Row) -> (ephemeral: bool)
    ensures
        ephemeral == spec_is_ephemeral(*row),
{
    match row.index {
        Some(index) => index > MAX_NUMBERED_INDEX,
        None => false,
    }
}

/// Says how the address of a row is shown: by its number where that is below
/// the largest numbered index, and as ephemeral otherwise.
pub fn index_text(index: u128) -> (text: IndexText)
    ensures
        text == if index < MAX_NUMBERED_INDEX {
            IndexText::Number(index as u64)
        } else {
            IndexText::Ephemeral
        },
{
    if index < MAX_NUMBERED_INDEX {
        IndexText::Number(index as u64)
    } else {
        IndexText::Ephemeral
    }
}

/// The rows among `rows` that belong to ephemeral addresses, or those that do
/// not, in order.
pub open spec fn select_rows(rows: Seq<Row>, ephemeral: bool) -> Seq<Row>
    decreases rows.len(),
{
    if rows.len() == 0 {
        Seq::empty()
    } else {
        let before = select_rows(rows.drop_last(), ephemeral);
        if spec_is_ephemeral(rows.last()) == ephemeral {
            before.push(rows.last())
        } else {
            before
        }
    }
}

/// The sum of the amounts of the rows of `asset`.
pub open spec fn asset_total(rows: Seq<Row>, asset: [u8; 32]) -> nat
    decreases rows.len(),
{
    if rows.len() == 0 {
        0
    } else {
        asset_total(rows.drop_last(), asset) + if rows.last().value.asset_id == asset {
            rows.last().value.amount as nat
        } else {
            0
        }
    }
}

/// The first row of `asset`.
pub open spec fn first_of(rows: Seq<Row>, asset: [u8; 32]) -> Option<Row>
    decreases rows.len(),
{
    if rows.len() == 0 {
        None
    } else if rows[0].value.asset_id == asset {
        Some(rows[0])
    } else {
        first_of(rows.drop_first(), asset)
    }
}

/// The assets in `sorted`, which are in ascending order, with `asset` put in
/// its place where it is not among them yet.
pub open spec fn with_asset(sorted: Seq<[u8; 32]>, asset: [u8; 32]) -> Seq<[u8; 32]>
    decreases sorted.len(),
{
    if sorted.len() == 0 {
        seq![asset]
    } else if sorted.last() == asset {
        sorted
    } else if le_value(sorted.last()@) < le_value(asset@) {
        sorted.push(asset)
    } else {
        with_asset(sorted.drop_last(), asset).push(sorted.last())
    }
}

/// The assets of `rows`, each once, in ascending order of the numbers that
/// their identifiers spell.
pub open spec fn sorted_assets(rows: Seq<Row>) -> Seq<[u8; 32]>
    decreases rows.len(),
{
    if rows.len() == 0 {
        Seq::empty()
    } else {
        with_asset(sorted_assets(rows.drop_last()), rows.last().value.asset_id)
    }
}

/// One row for each of `assets`: the first row of the asset among `rows`,
/// with the sum of the amounts of all rows of the asset in place of its own.
pub open spec fn merged(rows: Seq<Row>, assets: Seq<[u8; 32]>) -> Seq<Row> {
    Seq::new(
        assets.len(),
        |i: int|
            Row {
                index: first_of(rows, assets[i]).unwrap().index,
                value: Value {
                    amount: asset_total(rows, assets[i]) as u64,
                    asset_id: assets[i],
                },
                quarantined: first_of(rows, assets[i]).unwrap().quarantined,
            },
    )
}

/// What becomes of the rows of ephemeral addresses: they stay as they are
/// where every note is shown by itself, or where there is at most one of
/// them. Otherwise they are combined asset by asset, in ascending order of the
/// assets, and the rows of the asset that comes last are left out.
pub open spec fn spec_combined(ephemeral: Seq<Row>, by_note: bool) -> Seq<Row> {
    if by_note || ephemeral.len() <= 1 {
        ephemeral
    } else {
        merged(ephemeral, sorted_assets(ephemeral).drop_last())
    }
}

/// Whether the amounts of the rows of every asset can be added up.
pub open spec fn totals_fit(rows: Seq<Row>) -> bool {
    forall|asset: [u8; 32]| #[trigger] asset_total(rows, asset) <= u64::MAX
}

/// Puts `asset` in its place among `sorted`.
fn insert_asset(sorted: &mut Vec<[u8; 32]>, asset: [u8; 32])
    ensures
        final(sorted)@ == with_asset(old(sorted)@, asset),
    decreases old(sorted)@.len(),
{
    let n = sorted.len();
    if n == 0 {
        sorted.push(asset);
        assert(sorted@ =~= seq![asset]);
        return ;
    }
    let last = sorted[n - 1];
    assert(last == old(sorted)@.last());
    if bytes32_eq(&last, &asset) {
        return ;
    }
    if bytes32_less(&last, &asset) {
        sorted.push(asset);
        return ;
    }
    sorted.pop();
    assert(sorted@ =~= old(sorted)@.drop_last());
    insert_asset(sorted, asset);
    sorted.push(last);
}

/// The total of the first rows is no more than the total of all rows.
pub proof fn lemma_asset_total_grows(rows: Seq<Row>, k: int, asset: [u8; 32])
    requires
        0 <= k <= rows.len(),
    ensures
        asset_total(rows.take(k), asset) <= asset_total(rows, asset),
    decreases rows.len() - k,
{
    if k == rows.len() {
        assert(rows.take(k) =~= rows);
    } else {
        assert(rows.take(k + 1).drop_last() =~= rows.take(k));
        lemma_asset_total_grows(rows, k + 1, asset);
    }
}

/// Adds up the amounts of the rows of `asset`, and finds the first of them.
fn total_of(rows: &Vec<Row>, asset: &[u8; 32]) -> (r: (u64, Option<Row>))
    requires
        asset_total(rows@, *asset) <= u64::MAX,
    ensures
        r.0 == asset_total(rows@, *asset),
        r.1 == first_of(rows@, *asset),
{
    let n = rows.len();
    let mut total: u64 = 0;
    let mut first: Option<Row> = None;
    let mut i: usize = 0;
    assert(rows@.take(0) =~= Seq::<Row>::empty());
    while i < n
        invariant
            i <= n,
            n == rows@.len(),
            asset_total(rows@, *asset) <= u64::MAX,
            total == asset_total(rows@.take(i as int), *asset),
            first == first_of(rows@.take(i as int), *asset),
        decreases n - i,
    {
        proof {
            assert(rows@.take(i as int + 1).drop_last() =~= rows@.take(i as int));
            assert(rows@.take(i as int + 1).last() == rows@[i as int]);
            lemma_asset_total_grows(rows@, i as int + 1, *asset);
            lemma_first_of_push(rows@.take(i as int), rows@[i as int], *asset);
            assert(rows@.take(i as int + 1) =~= rows@.take(i as int).push(rows@[i as int]));
        }
        if bytes32_eq(&rows[i].value.asset_id, asset) {
            total = total + rows[i].value.amount;
            if first.is_none() {
                first = Some(rows[i]);
            }
        }
        i += 1;
    }
    assert(rows@.take(n as int) =~= rows@);
    (total, first)
}

/// Looking for the first row of an asset in a list with one more row at its
/// end.
pub proof fn lemma_first_of_push(rows: Seq<Row>, added: Row, asset: [u8; 32])
    ensures
        first_of(rows.push(added), asset) == match first_of(rows, asset) {
            Some(row) => Some(row),
            None => if added.value.asset_id == asset {
                Some(added)
            } else {
                None
            },
        },
    decreases rows.len(),
{
    if rows.len() == 0 {
        assert(rows.push(added).drop_first() =~= rows);
    } else {
        assert(rows.push(added).drop_first() =~= rows.drop_first().push(added));
        if rows[0].value.asset_id != asset {
            lemma_first_of_push(rows.drop_first(), added, asset);
        }
    }
}

/// Every asset that is put among sorted assets is the asset of a row that was
/// seen.
pub proof fn lemma_with_asset_members(sorted: Seq<[u8; 32]>, asset: [u8; 32])
    ensures
        with_asset(sorted, asset).len() >= 1,
        forall|i: int|
            0 <= i < with_asset(sorted, asset).len() ==> (#[trigger] with_asset(sorted, asset)[i])
                == asset || sorted.contains(with_asset(sorted, asset)[i]),
    decreases sorted.len(),
{
    if sorted.len() > 0 && sorted.last() != asset && !(le_value(sorted.last()@) < le_value(
        asset@,
    )) {
        lemma_with_asset_members(sorted.drop_last(), asset);
        let shorter = with_asset(sorted.drop_last(), asset);
        assert forall|i: int| 0 <= i < with_asset(sorted, asset).len() implies (
        #[trigger] with_asset(sorted, asset)[i]) == asset || sorted.contains(
            with_asset(sorted, asset)[i],
        ) by {
            if i < shorter.len() {
                if shorter[i] != asset {
                    let m = choose|m: int|
                        0 <= m < sorted.drop_last().len() && sorted.drop_last()[m] == shorter[i];
                    assert(sorted[m] == shorter[i]);
                }
            } else {
                assert(sorted[sorted.len() - 1] == sorted.last());
            }
        }
    } else if sorted.len() > 0 {
        assert forall|i: int| 0 <= i < with_asset(sorted, asset).len() implies (
        #[trigger] with_asset(sorted, asset)[i]) == asset || sorted.contains(
            with_asset(sorted, asset)[i],
        ) by {
            if i < sorted.len() {
                assert(sorted[i] == with_asset(sorted, asset)[i]);
            }
        }
    }
}

/// Every one of the sorted assets of some rows is the asset of one of the
/// rows.
pub proof fn lemma_sorted_assets_members(rows: Seq<Row>)
    ensures
        rows.len() > 0 ==> sorted_assets(rows).len() >= 1,
        forall|i: int|
            0 <= i < sorted_assets(rows).len() ==> first_of(
                rows,
                #[trigger] sorted_assets(rows)[i],
            ) is Some,
    decreases rows.len(),
{
    if rows.len() > 0 {
        let before = sorted_assets(rows.drop_last());
        let asset = rows.last().value.asset_id;
        lemma_sorted_assets_members(rows.drop_last());
        lemma_with_asset_members(before, asset);
        assert(rows =~= rows.drop_last().push(rows.last()));
        assert forall|i: int| 0 <= i < sorted_assets(rows).len() implies first_of(
            rows,
            #[trigger] sorted_assets(rows)[i],
        ) is Some by {
            let a = sorted_assets(rows)[i];
            lemma_first_of_push(rows.drop_last(), rows.last(), a);
            if a != asset {
                let m = choose|m: int| 0 <= m < before.len() && before[m] == a;
                assert(first_of(rows.drop_last(), before[m]) is Some);
            }
        }
    }
}

/// Separates the rows of ephemeral addresses from the others, and combines
/// the ephemeral ones asset by asset unless every note is shown by itself.
///
/// Returns the rows of numbered addresses and of no address, as they are, and
/// the rows of ephemeral addresses as [`spec_combined`] says.
pub fn combine_ephemeral(rows: Vec<Row>, by_note: bool) -> (r: (Vec<Row>, Vec<Row>))
    requires
        !by_note && select_rows(rows@, true).len() > 1 ==> totals_fit(select_rows(rows@, true)),
    ensures
        r.0@ == select_rows(rows@, false),
        r.1@ == spec_combined(select_rows(rows@, true), by_note),
{
    // Get all ephemeral rows.
    let mut ephemeral_notes: Vec<Row> = Vec::new();
    let mut indexed_rows: Vec<Row> = Vec::new();
    let n = rows.len();
    let mut i: usize = 0;
    assert(rows@.take(0) =~= Seq::<Row>::empty());
    while i < n
        invariant
            i <= n,
            n == rows@.len(),
            ephemeral_notes@ == select_rows(rows@.take(i as int), true),
            indexed_rows@ == select_rows(rows@.take(i as int), false),
        decreases n - i,
    {
        proof {
            assert(rows@.take(i as int + 1).drop_last() =~= rows@.take(i as int));
            assert(rows@.take(i as int + 1).last() == rows@[i as int]);
        }
        if is_ephemeral(&rows[i]) {
            ephemeral_notes.push(rows[i]);
        } else {
            indexed_rows.push(rows[i]);
        }
        i += 1;
    }
    assert(rows@.take(n as int) =~= rows@);
    // Combine by asset.
    if by_note || ephemeral_notes.len() <= 1 {
        return (indexed_rows, ephemeral_notes);
    }
    let count = ephemeral_notes.len();
    let mut assets: Vec<[u8; 32]> = Vec::new();
    let mut j: usize = 0;
    assert(ephemeral_notes@.take(0) =~= Seq::<Row>::empty());
    while j < count
        invariant
            j <= count,
            count == ephemeral_notes@.len(),
            assets@ == sorted_assets(ephemeral_notes@.take(j as int)),
        decreases count - j,
    {
        proof {
            assert(ephemeral_notes@.take(j as int + 1).drop_last() =~= ephemeral_notes@.take(
                j as int,
            ));
            assert(ephemeral_notes@.take(j as int + 1).last() == ephemeral_notes@[j as int]);
        }
        insert_asset(&mut assets, ephemeral_notes[j].value.asset_id);
        j += 1;
    }
    assert(ephemeral_notes@.take(count as int) =~= ephemeral_notes@);
    proof {
        lemma_sorted_assets_members(ephemeral_notes@);
    }
    let kept = assets.len() - 1;
    let mut new_ephemeral_notes: Vec<Row> = Vec::new();
    let mut a: usize = 0;
    while a < kept
        invariant
            a <= kept,
            kept + 1 == assets@.len(),
            assets@ == sorted_assets(ephemeral_notes@),
            totals_fit(ephemeral_notes@),
            forall|m: int|
                0 <= m < assets@.len() ==> first_of(ephemeral_notes@, #[trigger] assets@[m])
                    is Some,
            new_ephemeral_notes@.len() == a,
            forall|m: int|
                0 <= m < a ==> new_ephemeral_notes@[m] == merged(
                    ephemeral_notes@,
                    assets@.drop_last(),
                )[m],
        decreases kept - a,
    {
        let asset = assets[a];
        assert(asset_total(ephemeral_notes@, asset) <= u64::MAX);
        let (total, first) = total_of(&ephemeral_notes, &asset);
        assert(first_of(ephemeral_notes@, assets@[a as int]) is Some);
        let first = first.unwrap();
        new_ephemeral_notes.push(
            Row {
                index: first.index,
                value: Value { amount: total, asset_id: asset },
                quarantined: first.quarantined,
            },
        );
        assert(assets@.drop_last()[a as int] == asset);
        a += 1;
    }
    assert(new_ephemeral_notes@ =~= merged(ephemeral_notes@, assets@.drop_last()));
    (indexed_rows, new_ephemeral_notes)
}

/// An asset that no row has adds up to nothing.
pub proof fn lemma_absent_asset_total(rows: Seq<Row>, asset: [u8; 32])
    requires
        forall|i: int| 0 <= i < rows.len() ==> (#[trigger] rows[i]).value.asset_id != asset,
    ensures
        asset_total(rows, asset) == 0,
    decreases rows.len(),
{
    if rows.len() > 0 {
        assert forall|i: int| 0 <= i < rows.drop_last().len() implies (
        #[trigger] rows.drop_last()[i]).value.asset_id != asset by {
            assert(rows.drop_last()[i] == rows[i]);
        }
        lemma_absent_asset_total(rows.drop_last(), asset);
        assert(rows.last() == rows[rows.len() - 1]);
    }
}

/// Whether the amounts of the rows of every asset can be added up.
pub fn check_totals(rows: &Vec<Row>) -> (fit: bool)
    ensures
        fit == totals_fit(rows@),
{
    let n = rows.len();
    let mut i: usize = 0;
    while i < n
        invariant
            i <= n,
            n == rows@.len(),
            forall|m: int|
                0 <= m < i ==> asset_total(rows@, (#[trigger] rows@[m]).value.asset_id)
                    <= u64::MAX,
        decreases n - i,
    {
        let asset = rows[i].value.asset_id;
        let mut total: u128 = 0;
        let mut j: usize = 0;
        assert(rows@.take(0) =~= Seq::<Row>::empty());
        while j < n
            invariant
                j <= n,
                n == rows@.len(),
                total == asset_total(rows@.take(j as int), asset),
                total <= j * 0xFFFF_FFFF_FFFF_FFFF,
            decreases n - j,
        {
            proof {
                assert(rows@.take(j as int + 1).drop_last() =~= rows@.take(j as int));
                assert(rows@.take(j as int + 1).last() == rows@[j as int]);
                assert((j + 1) * 0xFFFF_FFFF_FFFF_FFFF <= 0xFFFF_FFFF_FFFF_FFFF
                    * 0xFFFF_FFFF_FFFF_FFFF) by (nonlinear_arith)
                    requires
                        j < 0xFFFF_FFFF_FFFF_FFFF,
                ;
            }
            if bytes32_eq(&rows[j].value.asset_id, &asset) {
                total = total + rows[j].value.amount as u128;
            }
            j += 1;
        }
        assert(rows@.take(n as int) =~= rows@);
        if total > 0xFFFF_FFFF_FFFF_FFFF {
            return false;
        }
        i += 1;
    }
    proof {
        assert forall|asset: [u8; 32]| #[trigger] asset_total(rows@, asset) <= u64::MAX by {
            if exists|m: int| 0 <= m < rows@.len() && rows@[m].value.asset_id == asset {
                let m = choose|m: int| 0 <= m < rows@.len() && rows@[m].value.asset_id == asset;
                assert(asset_total(rows@, rows@[m].value.asset_id) <= u64::MAX);
            } else {
                lemma_absent_asset_total(rows@, asset);
            }
        }
    }
    true
}

/// Separates and combines the rows as [`combine_ephemeral`] does, where the
/// amounts can be added up, and gives nothing where they cannot.
pub fn checked_combine_ephemeral(rows: Vec<Row>, by_note: bool) -> (r: Option<(Vec<Row>, Vec<Row>)>)
    ensures
        match r {
            Some(parts) => {
                &&& parts.0@ == select_rows(rows@, false)
                &&& parts.1@ == spec_combined(select_rows(rows@, true), by_note)
            },
            None => !by_note && !totals_fit(select_rows(rows@, true)),
        },
{
    if by_note {
        return Some(combine_ephemeral(rows, by_note));
    }
    let mut ephemeral: Vec<Row> = Vec::new();
    let n = rows.len();
    let mut i: usize = 0;
    assert(rows@.take(0) =~= Seq::<Row>::empty());
    while i < n
        invariant
            i <= n,
            n == rows@.len(),
            ephemeral@ == select_rows(rows@.take(i as int), true),
        decreases n - i,
    {
        proof {
            assert(rows@.take(i as int + 1).drop_last() =~= rows@.take(i as int));
            assert(rows@.take(i as int + 1).last() == rows@[i as int]);
        }
        if is_ephemeral(&rows[i]) {
            ephemeral.push(rows[i]);
        }
        i += 1;
    }
    assert(rows@.take(n as int) =~= rows@);
    if check_totals(&ephemeral) {
        Some(combine_ephemeral(rows, by_note))
    } else {
        None
    }
}

/// The sum of `amounts`.
pub open spec fn total(amounts: Seq<u64>) -> nat
    decreases amounts.len(),
{
    if amounts.len() == 0 {
        0
    } else {
        total(amounts.drop_last()) + amounts.last() as nat
    }
}

/// The amounts of `records`, in order.
pub open spec fn record_amounts(records: Seq<QuarantinedRecord>) -> Seq<u64> {
    Seq::new(records.len(), |i: int| records[i].amount)
}

/// The sums in `sums`, which are in ascending order of their epochs, with
/// `amount` added to the sum of `epoch`, or put in its place as a sum of its
/// own where `epoch` has none yet.
pub open spec fn with_epoch(sums: Seq<(u64, u64)>, epoch: u64, amount: u64) -> Seq<(u64, u64)>
    decreases sums.len(),
{
    if sums.len() == 0 {
        seq![(epoch, amount)]
    } else if sums.last().0 == epoch {
        sums.drop_last().push((epoch, (sums.last().1 + amount) as u64))
    } else if sums.last().0 < epoch {
        sums.push((epoch, amount))
    } else {
        with_epoch(sums.drop_last(), epoch, amount).push(sums.last())
    }
}

/// The sums of the amounts of `records` by unbonding epoch, in ascending order
/// of the epochs.
pub open spec fn epoch_sums(records: Seq<QuarantinedRecord>) -> Seq<(u64, u64)>
    decreases records.len(),
{
    if records.len() == 0 {
        Seq::empty()
    } else {
        with_epoch(
            epoch_sums(records.drop_last()),
            records.last().unbonding_epoch,
            records.last().amount,
        )
    }
}

/// What the sums in `sums` add up to.
pub open spec fn sum_of(sums: Seq<(u64, u64)>) -> nat
    decreases sums.len(),
{
    if sums.len() == 0 {
        0
    } else {
        sum_of(sums.drop_last()) + sums.last().1 as nat
    }
}

/// Adding an amount to the sums makes them add up to that much more, as long
/// as the whole fits.
pub proof fn lemma_with_epoch_sum(sums: Seq<(u64, u64)>, epoch: u64, amount: u64)
    requires
        sum_of(sums) + amount <= u64::MAX,
    ensures
        sum_of(with_epoch(sums, epoch, amount)) == sum_of(sums) + amount,
    decreases sums.len(),
{
    if sums.len() == 0 {
        let single = seq![(epoch, amount)];
        assert(single.drop_last() =~= Seq::<(u64, u64)>::empty());
        assert(single.last() == (epoch, amount));
        assert(sum_of(single) == sum_of(single.drop_last()) + amount);
    } else if sums.last().0 == epoch {
        let updated = sums.drop_last().push((epoch, (sums.last().1 + amount) as u64));
        assert(updated.drop_last() =~= sums.drop_last());
        assert(updated.last().1 == sums.last().1 + amount);
    } else if sums.last().0 < epoch {
        assert(sums.push((epoch, amount)).drop_last() =~= sums);
        assert(sums.push((epoch, amount)).last() == (epoch, amount));
    } else {
        lemma_with_epoch_sum(sums.drop_last(), epoch, amount);
        let shorter = with_epoch(sums.drop_last(), epoch, amount);
        assert(shorter.push(sums.last()).drop_last() =~= shorter);
        assert(shorter.push(sums.last()).last() == sums.last());
    }
}

/// Adds `amount` to the sum of `epoch` among `sums`.
fn add_to_epoch(sums: &mut Vec<(u64, u64)>, epoch: u64, amount: u64)
    requires
        sum_of(old(sums)@) + amount <= u64::MAX,
    ensures
        final(sums)@ == with_epoch(old(sums)@, epoch, amount),
    decreases old(sums)@.len(),
{
    let n = sums.len();
    if n == 0 {
        sums.push((epoch, amount));
        assert(sums@ =~= seq![(epoch, amount)]);
        return ;
    }
    let last = sums[n - 1];
    assert(last == old(sums)@.last());
    sums.pop();
    assert(sums@ =~= old(sums)@.drop_last());
    if last.0 == epoch {
        sums.push((epoch, last.1 + amount));
    } else if last.0 < epoch {
        sums.push(last);
        sums.push((epoch, amount));
        assert(sums@ =~= old(sums)@.push((epoch, amount)));
    } else {
        add_to_epoch(sums, epoch, amount);
        sums.push(last);
    }
}

/// The sums of a list of records add up to the total of the records.
pub proof fn lemma_epoch_sums_total(records: Seq<QuarantinedRecord>)
    requires
        total(record_amounts(records)) <= u64::MAX,
    ensures
        sum_of(epoch_sums(records)) == total(record_amounts(records)),
    decreases records.len(),
{
    if records.len() > 0 {
        assert(record_amounts(records).drop_last() =~= record_amounts(records.drop_last()));
        lemma_epoch_sums_total(records.drop_last());
        lemma_with_epoch_sum(
            epoch_sums(records.drop_last()),
            records.last().unbonding_epoch,
            records.last().amount,
        );
    }
}

/// Adds up the amounts of `records` by unbonding epoch, in ascending order of
/// the epochs.
pub fn sums_by_unbonding_epoch(records: &Vec<QuarantinedRecord>) -> (sums: Vec<(u64, u64)>)
    requires
        total(record_amounts(records@)) <= u64::MAX,
    ensures
        sums@ == epoch_sums(records@),
{
    let mut sums: Vec<(u64, u64)> = Vec::new();
    let n = records.len();
    let mut i: usize = 0;
    assert(records@.take(0) =~= Seq::<QuarantinedRecord>::empty());
    while i < n
        invariant
            i <= n,
            n == records@.len(),
            total(record_amounts(records@)) <= u64::MAX,
            sums@ == epoch_sums(records@.take(i as int)),
        decreases n - i,
    {
        proof {
            let next = records@.take(i as int + 1);
            assert(next.drop_last() =~= records@.take(i as int));
            assert(next.last() == records@[i as int]);
            lemma_total_grows(record_amounts(records@), i as int + 1);
            assert(record_amounts(records@).take(i as int + 1) =~= record_amounts(next));
            assert(record_amounts(next).drop_last() =~= record_amounts(records@.take(i as int)));
            lemma_total_grows(record_amounts(records@), i as int);
            assert(record_amounts(records@).take(i as int) =~= record_amounts(
                records@.take(i as int),
            ));
            lemma_epoch_sums_total(records@.take(i as int));
        }
        add_to_epoch(&mut sums, records[i].unbonding_epoch, records[i].amount);
        i += 1;
    }
    assert(records@.take(n as int) =~= records@);
    sums
}

/// The total of the first amounts is no more than the total of all.
pub proof fn lemma_total_grows(amounts: Seq<u64>, k: int)
    requires
        0 <= k <= amounts.len(),
    ensures
        total(amounts.take(k)) <= total(amounts),
    decreases amounts.len() - k,
{
    if k == amounts.len() {
        assert(amounts.take(k) =~= amounts);
    } else {
        assert(amounts.take(k + 1).drop_last() =~= amounts.take(k));
        lemma_total_grows(amounts, k + 1);
    }
}

/// Adds up `amounts`.
pub fn sum_amounts(amounts: &Vec<u64>) -> (sum: u64)
    requires
        total(amounts@) <= u64::MAX,
    ensures
        sum == total(amounts@),
{
    let n = amounts.len();
    let mut sum: u64 = 0;
    let mut i: usize = 0;
    assert(amounts@.take(0) =~= Seq::<u64>::empty());
    while i < n
        invariant
            i <= n,
            n == amounts@.len(),
            total(amounts@) <= u64::MAX,
            sum == total(amounts@.take(i as int)),
        decreases n - i,
    {
        proof {
            assert(amounts@.take(i as int + 1).drop_last() =~= amounts@.take(i as int));
            assert(amounts@.take(i as int + 1).last() == amounts@[i as int]);
            lemma_total_grows(amounts@, i as int + 1);
        }
        sum = sum + amounts[i];
        i += 1;
    }
    assert(amounts@.take(n as int) =~= amounts@);
    sum
}

/// Adds up `amounts`, where the sum fits.
pub fn checked_sum_amounts(amounts: &Vec<u64>) -> (sum: Option<u64>)
    ensures
        match sum {
            Some(sum) => sum == total(amounts@),
            None => total(amounts@) > u64::MAX,
        },
{
    let n = amounts.len();
    let mut sum: u64 = 0;
    let mut i: usize = 0;
    assert(amounts@.take(0) =~= Seq::<u64>::empty());
    while i < n
        invariant
            i <= n,
            n == amounts@.len(),
            sum == total(amounts@.take(i as int)),
        decreases n - i,
    {
        proof {
            assert(amounts@.take(i as int + 1).drop_last() =~= amounts@.take(i as int));
            assert(amounts@.take(i as int + 1).last() == amounts@[i as int]);
            lemma_total_grows(amounts@, i as int + 1);
        }
        if amounts[i] > u64::MAX - sum {
            return None;
        }
        sum = sum + amounts[i];
        i += 1;
    }
    assert(amounts@.take(n as int) =~= amounts@);
    Some(sum)
}

/// The address that a summed row shows: that of its group where the table is
/// broken down by address, and none otherwise.
pub open spec fn shown_index(index: u128, by_address: bool) -> Option<u128> {
    if by_address {
        Some(index)
    } else {
        None
    }
}

/// One row for every group of spendable notes, with the sum of its amounts.
pub open spec fn summed_note_rows(groups: Seq<NoteGroup>, by_address: bool) -> Seq<Row> {
    Seq::new(
        groups.len(),
        |g: int|
            Row {
                index: shown_index(groups[g].index, by_address),
                value: Value {
                    amount: total(groups[g].amounts@) as u64,
                    asset_id: groups[g].asset_id,
                },
                quarantined: None,
            },
    )
}

/// The rows of one group of quarantined notes: one for every unbonding epoch,
/// in ascending order, with the sum of the amounts that unbond in it.
pub open spec fn summed_group_rows(group: QuarantinedGroup, by_address: bool) -> Seq<Row> {
    Seq::new(
        epoch_sums(group.records@).len(),
        |k: int|
            Row {
                index: shown_index(group.index, by_address),
                value: Value {
                    amount: epoch_sums(group.records@)[k].1,
                    asset_id: group.asset_id,
                },
                quarantined: Some(epoch_sums(group.records@)[k].0),
            },
    )
}

/// The rows of every group of quarantined notes, group after group.
pub open spec fn summed_quarantined_rows(groups: Seq<QuarantinedGroup>, by_address: bool) -> Seq<
    Row,
>
    decreases groups.len(),
{
    if groups.len() == 0 {
        Seq::empty()
    } else {
        summed_quarantined_rows(groups.drop_last(), by_address) + summed_group_rows(
            groups.last(),
            by_address,
        )
    }
}

/// Whether the amounts of every group can be added up.
pub open spec fn groups_fit(notes: Seq<NoteGroup>, quarantined_notes: Seq<QuarantinedGroup>) -> bool {
    &&& forall|g: int| 0 <= g < notes.len() ==> total((#[trigger] notes[g]).amounts@) <= u64::MAX
    &&& forall|g: int|
        0 <= g < quarantined_notes.len() ==> total(
            record_amounts((#[trigger] quarantined_notes[g]).records@),
        ) <= u64::MAX
}

/// Makes one row for every group of spendable notes, with the sum of the
/// group, and then one row for every unbonding epoch of every group of
/// quarantined notes, with the sum of what unbonds in that epoch. The rows
/// show the address of their group where the table is broken down by address.
pub fn sum_notes(
    notes: &Vec<NoteGroup>,
    quarantined_notes: &Vec<QuarantinedGroup>,
    by_address: bool,
) -> (rows: Vec<Row>)
    requires
        groups_fit(notes@, quarantined_notes@),
    ensures
        rows@ == summed_note_rows(notes@, by_address) + summed_quarantined_rows(
            quarantined_notes@,
            by_address,
        ),
{
    let mut rows: Vec<Row> = Vec::new();
    let n = notes.len();
    let mut g: usize = 0;
    while g < n
        invariant
            g <= n,
            n == notes@.len(),
            groups_fit(notes@, quarantined_notes@),
            rows@.len() == g,
            forall|m: int| 0 <= m < g ==> rows@[m] == summed_note_rows(notes@, by_address)[m],
        decreases n - g,
    {
        let group = &notes[g];
        assert(total(notes@[g as int].amounts@) <= u64::MAX);
        let sum = sum_amounts(&group.amounts);
        rows.push(
            Row {
                index: if by_address {
                    Some(group.index)
                } else {
                    None
                },
                value: Value { amount: sum, asset_id: group.asset_id },
                quarantined: None,
            },
        );
        g += 1;
    }
    assert(rows@ =~= summed_note_rows(notes@, by_address));
    let ghost spendable = rows@;
    let m = quarantined_notes.len();
    let mut q: usize = 0;
    assert(quarantined_notes@.take(0) =~= Seq::<QuarantinedGroup>::empty());
    assert(rows@ =~= spendable + summed_quarantined_rows(quarantined_notes@.take(0), by_address));
    while q < m
        invariant
            q <= m,
            m == quarantined_notes@.len(),
            groups_fit(notes@, quarantined_notes@),
            rows@ == spendable + summed_quarantined_rows(
                quarantined_notes@.take(q as int),
                by_address,
            ),
        decreases m - q,
    {
        let group = &quarantined_notes[q];
        assert(total(record_amounts(quarantined_notes@[q as int].records@)) <= u64::MAX);
        let sums = sums_by_unbonding_epoch(&group.records);
        let ghost before = rows@;
        let count = sums.len();
        let mut k: usize = 0;
        while k < count
            invariant
                k <= count,
                count == sums@.len(),
                sums@ == epoch_sums(group.records@),
                rows@.len() == before.len() + k,
                rows@.take(before.len() as int) == before,
                forall|j: int|
                    0 <= j < k ==> rows@[before.len() + j] == summed_group_rows(
                        *group,
                        by_address,
                    )[j],
            decreases count - k,
        {
            let ghost so_far = rows@;
            rows.push(
                Row {
                    index: if by_address {
                        Some(group.index)
                    } else {
                        None
                    },
                    value: Value { amount: sums[k].1, asset_id: group.asset_id },
                    quarantined: Some(sums[k].0),
                },
            );
            assert(rows@.take(before.len() as int) =~= so_far.take(before.len() as int));
            k += 1;
        }
        proof {
            assert(rows@ =~= before + summed_group_rows(*group, by_address));
            assert(quarantined_notes@.take(q as int + 1).drop_last() =~= quarantined_notes@.take(
                q as int,
            ));
            assert(quarantined_notes@.take(q as int + 1).last() == *group);
            assert(rows@ =~= spendable + summed_quarantined_rows(
                quarantined_notes@.take(q as int + 1),
                by_address,
            ));
        }
        q += 1;
    }
    assert(quarantined_notes@.take(m as int) =~= quarantined_notes@);
    rows
}

/// Whether the amounts of every group can be added up.
pub fn check_groups(notes: &Vec<NoteGroup>, quarantined_notes: &Vec<QuarantinedGroup>) -> (fit:
    bool)
    ensures
        fit == groups_fit(notes@, quarantined_notes@),
{
    let n = notes.len();
    let mut g: usize = 0;
    while g < n
        invariant
            g <= n,
            n == notes@.len(),
            forall|m: int| 0 <= m < g ==> total((#[trigger] notes@[m]).amounts@) <= u64::MAX,
        decreases n - g,
    {
        if checked_sum_amounts(&notes[g].amounts).is_none() {
            return false;
        }
        g += 1;
    }
    let m = quarantined_notes.len();
    let mut q: usize = 0;
    while q < m
        invariant
            q <= m,
            m == quarantined_notes@.len(),
            forall|j: int| 0 <= j < n ==> total((#[trigger] notes@[j]).amounts@) <= u64::MAX,
            n == notes@.len(),
            forall|j: int|
                0 <= j < q ==> total(record_amounts((#[trigger] quarantined_notes@[j]).records@))
                    <= u64::MAX,
        decreases m - q,
    {
        let records = &quarantined_notes[q].records;
        let count = records.len();
        let mut sum: u64 = 0;
        let mut i: usize = 0;
        assert(record_amounts(records@).take(0) =~= Seq::<u64>::empty());
        while i < count
            invariant
                i <= count,
                count == records@.len(),
                q < quarantined_notes@.len(),
                *records == quarantined_notes@[q as int].records,
                sum == total(record_amounts(records@).take(i as int)),
            decreases count - i,
        {
            proof {
                let amounts = record_amounts(records@);
                assert(amounts.take(i as int + 1).drop_last() =~= amounts.take(i as int));
                assert(amounts.take(i as int + 1).last() == records@[i as int].amount);
                lemma_total_grows(amounts, i as int + 1);
            }
            if records[i].amount > u64::MAX - sum {
                assert(total(record_amounts(quarantined_notes@[q as int].records@)) > u64::MAX);
                return false;
            }
            sum = sum + records[i].amount;
            i += 1;
        }
        assert(record_amounts(records@).take(count as int) =~= record_amounts(records@));
        q += 1;
    }
    true
}

impl BalanceCmd {
    /// The rows of the table of balances, before the ephemeral addresses are
    /// combined: one row for every note where every note is shown by itself,
    /// and sums by group otherwise.
    pub open spec fn spec_rows(
        self,
        notes: Seq<NoteGroup>,
        quarantined_notes: Seq<QuarantinedGroup>,
    ) -> Seq<Row> {
        if self.by_note {
            note_rows(notes) + quarantined_rows(quarantined_notes)
        } else {
            summed_note_rows(notes, self.by_address) + summed_quarantined_rows(
                quarantined_notes,
                self.by_address,
            )
        }
    }

    /// Makes the rows of the table of balances from the notes, which are
    /// grouped as the table is: by address and asset where it is broken down
    /// by address, and by asset otherwise.
    pub fn rows(&self, notes: &Vec<NoteGroup>, quarantined_notes: &Vec<QuarantinedGroup>) -> (rows:
        Vec<Row>)
        requires
            !self.by_note ==> groups_fit(notes@, quarantined_notes@),
        ensures
            rows@ == self.spec_rows(notes@, quarantined_notes@),
    {
        if self.by_note {
            // When using --by-note, just reflect the data as found.
            collect_notes(notes, quarantined_notes)
        } else {
            sum_notes(notes, quarantined_notes, self.by_address)
        }
    }

    /// Makes the rows of the table of balances as [`BalanceCmd::rows`] does,
    /// where the amounts can be added up, and gives nothing where they cannot.
    pub fn checked_rows(&self, notes: &Vec<NoteGroup>, quarantined_notes: &Vec<QuarantinedGroup>) -> (rows:
        Option<Vec<Row>>)
        ensures
            match rows {
                Some(rows) => rows@ == self.spec_rows(notes@, quarantined_notes@),
                None => !self.by_note && !groups_fit(notes@, quarantined_notes@),
            },
    {
        if self.by_note || check_groups(notes, quarantined_notes) {
            Some(self.rows(notes, quarantined_notes))
        } else {
            None
        }
    }
}

} // verus!
