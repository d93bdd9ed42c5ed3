use shielded_tx::command::query::dex::{BatchDisplay, DexCmd, DexRequest};
use shielded_tx::command::view::balance::{
    check_groups, check_totals, checked_combine_ephemeral, checked_sum_amounts, collect_notes,
    combine_ephemeral, index_text, is_ephemeral, sum_amounts, sum_notes, sums_by_unbonding_epoch,
    BalanceCmd, IndexText, NoteGroup, QuarantinedGroup, QuarantinedRecord, Row,
};
use shielded_tx::note::Value;
use shielded_tx::settlement::{BatchSwapOutputData, TradingPair};

fn asset(n: u64) -> [u8; 32] {
    decaf377::Fq::from(n).to_bytes()
}

fn row(index: Option<u128>, amount: u64, asset_id: [u8; 32], quarantined: Option<u64>) -> Row {
    Row { index, value: Value { amount, asset_id }, quarantined }
}

fn ephemeral(n: u128) -> Option<u128> {
    Some(u64::MAX as u128 + 1 + n)
}

fn notes() -> Vec<NoteGroup> {
    vec![
        NoteGroup { index: 0, asset_id: asset(1), amounts: vec![5, 6] },
        NoteGroup { index: 0, asset_id: asset(2), amounts: vec![] },
        NoteGroup { index: 1, asset_id: asset(1), amounts: vec![7] },
    ]
}

fn quarantined() -> Vec<QuarantinedGroup> {
    vec![QuarantinedGroup {
        index: 1,
        asset_id: asset(3),
        records: vec![
            QuarantinedRecord { amount: 10, unbonding_epoch: 9 },
            QuarantinedRecord { amount: 20, unbonding_epoch: 4 },
            QuarantinedRecord { amount: 30, unbonding_epoch: 9 },
            QuarantinedRecord { amount: 40, unbonding_epoch: 6 },
        ],
    }]
}

#[test]
fn by_note_every_note_has_a_row_of_its_own() {
    let rows = collect_notes(&notes(), &quarantined());
    assert_eq!(
        rows,
        vec![
            row(Some(0), 5, asset(1), None),
            row(Some(0), 6, asset(1), None),
            row(Some(1), 7, asset(1), None),
            row(Some(1), 10, asset(3), Some(9)),
            row(Some(1), 20, asset(3), Some(4)),
            row(Some(1), 30, asset(3), Some(9)),
            row(Some(1), 40, asset(3), Some(6)),
        ]
    );
    let cmd = BalanceCmd { by_address: false, by_note: true };
    assert_eq!(cmd.rows(&notes(), &quarantined()), rows);
    assert_eq!(cmd.checked_rows(&notes(), &quarantined()), Some(rows));
}

#[test]
fn sums_are_made_by_group_and_by_unbonding_epoch() {
    let expected = |index: Option<u128>| {
        vec![
            row(index, 11, asset(1), None),
            row(index.map(|_| 0), 0, asset(2), None),
            row(index.map(|_| 1), 7, asset(1), None),
            row(index.map(|_| 1), 20, asset(3), Some(4)),
            row(index.map(|_| 1), 40, asset(3), Some(6)),
            row(index.map(|_| 1), 40, asset(3), Some(9)),
        ]
    };
    assert_eq!(sum_notes(&notes(), &quarantined(), true), expected(Some(0)));
    assert_eq!(sum_notes(&notes(), &quarantined(), false), expected(None));
    let cmd = BalanceCmd { by_address: true, by_note: false };
    assert_eq!(cmd.rows(&notes(), &quarantined()), expected(Some(0)));
    assert_eq!(
        sums_by_unbonding_epoch(&quarantined()[0].records),
        vec![(4, 20), (6, 40), (9, 40)]
    );
    assert_eq!(sums_by_unbonding_epoch(&vec![]), vec![]);
    assert_eq!(sum_amounts(&vec![1, 2, 3]), 6);
    assert_eq!(sum_amounts(&vec![]), 0);
}

#[test]
fn sums_that_do_not_fit_are_refused() {
    assert_eq!(checked_sum_amounts(&vec![u64::MAX, 0]), Some(u64::MAX));
    assert_eq!(checked_sum_amounts(&vec![u64::MAX, 1]), None);
    let big = vec![NoteGroup { index: 0, asset_id: asset(1), amounts: vec![u64::MAX, 1] }];
    assert!(!check_groups(&big, &vec![]));
    assert!(check_groups(&notes(), &quarantined()));
    let big_quarantined = vec![QuarantinedGroup {
        index: 0,
        asset_id: asset(1),
        records: vec![
            QuarantinedRecord { amount: u64::MAX, unbonding_epoch: 1 },
            QuarantinedRecord { amount: 1, unbonding_epoch: 2 },
        ],
    }];
    assert!(!check_groups(&vec![], &big_quarantined));
    let summed = BalanceCmd { by_address: true, by_note: false };
    assert_eq!(summed.checked_rows(&big, &vec![]), None);
    let each = BalanceCmd { by_address: true, by_note: true };
    assert_eq!(each.checked_rows(&big, &vec![]).map(|rows| rows.len()), Some(2));
}

#[test]
fn ephemeral_rows_are_separated_from_the_others() {
    let rows = vec![
        row(Some(3), 1, asset(1), None),
        row(ephemeral(0), 2, asset(1), None),
        row(None, 3, asset(2), None),
        row(Some(u64::MAX as u128), 4, asset(2), None),
    ];
    let (indexed, combined) = combine_ephemeral(rows.clone(), false);
    assert_eq!(indexed, vec![rows[0], rows[2], rows[3]]);
    assert_eq!(combined, vec![rows[1]]);
    assert!(is_ephemeral(&rows[1]));
    assert!(!is_ephemeral(&rows[0]));
    assert!(!is_ephemeral(&rows[2]));
    assert!(!is_ephemeral(&rows[3]));
    assert_eq!(combine_ephemeral(vec![], false), (vec![], vec![]));
}

#[test]
fn ephemeral_rows_stay_as_they_are_by_note() {
    let rows = vec![
        row(ephemeral(0), 2, asset(2), None),
        row(ephemeral(1), 3, asset(1), None),
        row(ephemeral(2), 4, asset(2), None),
    ];
    assert_eq!(combine_ephemeral(rows.clone(), true), (vec![], rows.clone()));
    assert_eq!(checked_combine_ephemeral(rows.clone(), true), Some((vec![], rows)));
}

#[test]
fn ephemeral_rows_are_combined_by_asset_and_the_last_asset_is_left_out() {
    let rows = vec![
        row(ephemeral(0), 2, asset(7), Some(1)),
        row(ephemeral(1), 3, asset(5), None),
        row(Some(1), 100, asset(5), None),
        row(ephemeral(2), 4, asset(7), None),
        row(ephemeral(3), 5, asset(9), None),
        row(ephemeral(4), 6, asset(5), Some(2)),
    ];
    let (indexed, combined) = combine_ephemeral(rows.clone(), false);
    assert_eq!(indexed, vec![rows[2]]);
    assert_eq!(
        combined,
        vec![row(ephemeral(1), 9, asset(5), None), row(ephemeral(0), 6, asset(7), Some(1))]
    );
    // Two rows of one asset: the one asset is the last, so nothing is left.
    let same = vec![row(ephemeral(0), 2, asset(7), None), row(ephemeral(1), 3, asset(7), None)];
    assert_eq!(combine_ephemeral(same, false), (vec![], vec![]));
}

#[test]
fn assets_are_ordered_by_the_numbers_they_spell() {
    // 256 is [0, 1, 0, ...] and 255 is [255, 0, ...]: by bytes 256 would come
    // first, by number 255 does.
    let rows = vec![
        row(ephemeral(0), 1, asset(256), None),
        row(ephemeral(1), 2, asset(255), None),
        row(ephemeral(2), 3, asset(257), None),
    ];
    let (_, combined) = combine_ephemeral(rows, false);
    assert_eq!(
        combined,
        vec![row(ephemeral(1), 2, asset(255), None), row(ephemeral(0), 1, asset(256), None)]
    );
}

#[test]
fn ephemeral_totals_that_do_not_fit_are_refused() {
    let rows = vec![
        row(ephemeral(0), u64::MAX, asset(7), None),
        row(ephemeral(1), 1, asset(7), None),
        row(Some(1), u64::MAX, asset(7), None),
    ];
    assert!(!check_totals(&rows));
    assert!(!check_totals(&rows[1..].to_vec()));
    assert!(check_totals(&rows[..1].to_vec()));
    assert!(check_totals(&vec![]));
    assert_eq!(checked_combine_ephemeral(rows.clone(), false), None);
    assert!(checked_combine_ephemeral(rows[1..].to_vec(), false).is_some());
    assert!(checked_combine_ephemeral(rows, true).is_some());
}

#[test]
fn addresses_are_shown_by_number_or_as_ephemeral() {
    assert_eq!(index_text(0), IndexText::Number(0));
    assert_eq!(index_text(41), IndexText::Number(41));
    assert_eq!(index_text(u64::MAX as u128 - 1), IndexText::Number(u64::MAX - 1));
    assert_eq!(index_text(u64::MAX as u128), IndexText::Ephemeral);
    assert_eq!(index_text(u128::MAX), IndexText::Ephemeral);
}

#[test]
fn batch_outputs_are_shown_in_the_unit_of_the_larger_amount() {
    let pair = TradingPair { asset_1: asset(1), asset_2: asset(2) };
    let data = BatchSwapOutputData {
        delta_1: 10,
        delta_2: 500,
        lambda_1: 20,
        lambda_2: 5,
        height: 1,
        trading_pair: pair,
        success: false,
    };
    assert_eq!(data.display(), BatchDisplay { success: false, basis_1: 20, basis_2: 500 });
    assert_eq!(
        DexCmd::CPMMReserves { trading_pair: pair }.request(),
        DexRequest::Reserves { trading_pair: pair }
    );
    assert_eq!(
        DexCmd::BatchOutputs { height: 9, trading_pair: pair }.request(),
        DexRequest::BatchSwapOutputData { height: 9, trading_pair: pair }
    );
}
