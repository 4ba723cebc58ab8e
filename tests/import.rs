use sdbh::domain::HistoryRow;
use sdbh::fingerprint::row_hash;
use sdbh::import::{coerce_text, decode_source_row, plan_row, value_to_i64, CellValue, ImportTally, RowPlan, SourceRow};

fn source(epoch: CellValue) -> SourceRow {
    SourceRow {
        hist_id: CellValue::Integer(10),
        cmd: "echo good".to_string(),
        epoch,
        ppid: CellValue::Integer(10),
        pwd: "/tmp".to_string(),
        salt: CellValue::Integer(99),
    }
}

#[test]
fn coerce_text_reads_damaged_numbers() {
    assert_eq!(coerce_text("  970* 1571608128 ssh ubnt@192.168.2.1 "), Some(970));
    assert_eq!(coerce_text("abc 1571608128 ssh"), Some(1571608128));
    assert_eq!(coerce_text("bad"), None);
    assert_eq!(coerce_text("   "), None);
    assert_eq!(coerce_text("-42"), Some(-42));
    assert_eq!(coerce_text("12** 5"), Some(5));
    assert_eq!(coerce_text("x y 3"), None);
    assert_eq!(coerce_text("\u{3000}77\t"), Some(77));
}

#[test]
fn value_to_i64_by_kind() {
    assert_eq!(value_to_i64(&CellValue::Null), None);
    assert_eq!(value_to_i64(&CellValue::Integer(-7)), Some(-7));
    assert_eq!(value_to_i64(&CellValue::Real(Some(3))), Some(3));
    assert_eq!(value_to_i64(&CellValue::Real(None)), None);
    assert_eq!(value_to_i64(&CellValue::Text("12".to_string())), Some(12));
    assert_eq!(value_to_i64(&CellValue::Blob), None);
}

#[test]
fn corrupted_epoch_is_skipped_and_valid_row_inserted() {
    let bad = source(CellValue::Text("bad".to_string()));
    let good = source(CellValue::Integer(1_700_000_000));
    assert!(decode_source_row(&bad).is_none());
    let mut tally = ImportTally::new();
    let mut known: Vec<String> = vec![];
    for src in [bad, good] {
        let plan = plan_row(&src);
        let present = match &plan {
            RowPlan::Merge { fingerprint, .. } => known.contains(fingerprint),
            RowPlan::Corrupted => false,
        };
        if tally.record(&plan, present) {
            if let RowPlan::Merge { fingerprint, .. } = plan {
                known.push(fingerprint);
            }
        }
    }
    assert_eq!(tally, ImportTally { considered: 2, inserted: 1, skipped_corrupted: 1 });
}

#[test]
fn importing_twice_inserts_nothing_the_second_time() {
    let rows = vec![
        source(CellValue::Integer(1)),
        source(CellValue::Integer(2)),
        source(CellValue::Text("3".to_string())),
    ];
    let mut known: Vec<String> = vec![];
    let mut run = |known: &mut Vec<String>| {
        let mut tally = ImportTally::new();
        for src in &rows {
            let plan = plan_row(src);
            let present = match &plan {
                RowPlan::Merge { fingerprint, .. } => known.contains(fingerprint),
                RowPlan::Corrupted => false,
            };
            if tally.record(&plan, present) {
                if let RowPlan::Merge { fingerprint, .. } = plan {
                    known.push(fingerprint);
                }
            }
        }
        tally
    };
    assert_eq!(run(&mut known), ImportTally { considered: 3, inserted: 3, skipped_corrupted: 0 });
    assert_eq!(run(&mut known), ImportTally { considered: 3, inserted: 0, skipped_corrupted: 0 });
}

#[test]
fn plan_row_fingerprints_the_decoded_row() {
    let src = source(CellValue::Text(" 1700000000* junk".to_string()));
    let row = HistoryRow {
        hist_id: Some(10),
        cmd: "echo good".to_string(),
        epoch: 1_700_000_000,
        ppid: 10,
        pwd: "/tmp".to_string(),
        salt: 99,
    };
    match plan_row(&src) {
        RowPlan::Merge { row: r, fingerprint } => {
            assert_eq!(r, row);
            assert_eq!(fingerprint, row_hash(&row));
        }
        RowPlan::Corrupted => panic!("row should decode"),
    }
}
