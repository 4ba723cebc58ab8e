//! Decoding of rows read from another history database, and the per-row
//! bookkeeping of a merge into this one.
use vstd::prelude::*;
use crate::domain::HistoryRow;
use crate::fingerprint::{fingerprint_spec, row_hash};
use crate::text::{
    chars_of, first_token, parse_i64, parse_i64_spec, second_token, skip_whitespace, skip_word,
};

verus! {

/// A cell of a source table, as the storage engine hands it over.
#[derive(Debug, Clone)]
pub enum CellValue {
    Null,
    Integer(i64),
    /// A real number: its integer value when its fractional part is zero.
    Real(Option<i64>),
    Text(String),
    Blob,
}

/// A token without one trailing `*`.
pub open spec fn strip_star(t: Seq<char>) -> Seq<char> {
    if t.len() > 0 && t.last() == '*' {
        t.drop_last()
    } else {
        t
    }
}

pub open spec fn parse_token_spec(t: Seq<char>) -> Option<i64> {
    parse_i64_spec(strip_star(t))
}

/// Integer read from damaged text: the first whitespace-separated token, or
/// failing that the second, each allowed one trailing `*`.
pub open spec fn coerce_text_spec(s: Seq<char>) -> Option<i64> {
    match parse_token_spec(first_token(s)) {
        Some(v) => Some(v),
        None => parse_token_spec(second_token(s)),
    }
}

/// The integer a cell stands for, if any.
pub open spec fn cell_int(v: CellValue) -> Option<i64> {
    match v {
        CellValue::Null => None,
        CellValue::Integer(i) => Some(i),
        CellValue::Real(w) => w,
        CellValue::Text(t) => coerce_text_spec(t@),
        CellValue::Blob => None,
    }
}

fn parse_token(v: &[char], from: usize, to: usize) -> (r: Option<i64>)
    requires
        from <= to <= v@.len(),
    ensures
        r == parse_token_spec(v@.subrange(from as int, to as int)),
{
    let end = if from < to && v[to - 1] == '*' {
        to - 1
    } else {
        to
    };
    assert(v@.subrange(from as int, end as int) =~= strip_star(v@.subrange(from as int, to as int)));
    parse_i64(&v[from..end])
}

/// Reads an integer out of text that may be damaged.
pub fn coerce_text(s: &str) -> (r: Option<i64>)
    ensures
        r == coerce_text_spec(s@),
{
    let v = chars_of(s);
    let vs = v.as_slice();
    let a = skip_whitespace(vs, 0);
    let b = skip_word(vs, a);
    assert(v@.skip(0) =~= v@);
    assert(first_token(s@) =~= v@.subrange(a as int, b as int));
    let first = parse_token(vs, a, b);
    if first.is_some() {
        return first;
    }
    assert(crate::text::after_first_token(s@) =~= v@.skip(b as int));
    let c = skip_whitespace(vs, b);
    let d = skip_word(vs, c);
    assert(second_token(s@) =~= v@.subrange(c as int, d as int));
    parse_token(vs, c, d)
}

/// The integer that a cell of a source table stands for: integers as they
/// are, reals only when whole, text through `coerce_text`, nothing else.
pub fn value_to_i64(v: &CellValue) -> (r: Option<i64>)
    ensures
        r == cell_int(*v),
{
    match v {
        CellValue::Null => None,
        CellValue::Integer(i) => Some(*i),
        CellValue::Real(w) => *w,
        CellValue::Text(t) => coerce_text(t.as_str()),
        CellValue::Blob => None,
    }
}


/// A row of a source table, before its numeric cells are decoded.
#[derive(Debug, Clone)]
pub struct SourceRow {
    pub hist_id: CellValue,
    pub cmd: String,
    pub epoch: CellValue,
    pub ppid: CellValue,
    pub pwd: String,
    pub salt: CellValue,
}

/// The history row a source row stands for; `None` when its `epoch`, `ppid`
/// or `salt` cannot be read as an integer (an unreadable `hist_id` is taken
/// as absent).
pub open spec fn decode_spec(src: SourceRow) -> Option<HistoryRow> {
    match (cell_int(src.epoch), cell_int(src.ppid), cell_int(src.salt)) {
        (Some(e), Some(p), Some(s)) => Some(
            HistoryRow {
                hist_id: cell_int(src.hist_id),
                cmd: src.cmd,
                epoch: e,
                ppid: p,
                pwd: src.pwd,
                salt: s,
            },
        ),
        _ => None,
    }
}

/// Decodes a source row; `None` marks it as corrupted.
pub fn decode_source_row(src: &SourceRow) -> (r: Option<HistoryRow>)
    ensures
        r == decode_spec(*src),
{
    let epoch = match value_to_i64(&src.epoch) {
        Some(v) => v,
        None => return None,
    };
    let ppid = match value_to_i64(&src.ppid) {
        Some(v) => v,
        None => return None,
    };
    let salt = match value_to_i64(&src.salt) {
        Some(v) => v,
        None => return None,
    };
    Some(
        HistoryRow {
            hist_id: value_to_i64(&src.hist_id),
            cmd: src.cmd.clone(),
            epoch,
            ppid,
            pwd: src.pwd.clone(),
            salt,
        },
    )
}

/// What a merge does with one source row.
#[derive(Debug, Clone)]
pub enum RowPlan {
    /// A numeric cell could not be read: the row is skipped and counted.
    Corrupted,
    /// The row is merged unless its fingerprint is already recorded.
    Merge { row: HistoryRow, fingerprint: String },
}

/// Decodes a source row and computes the fingerprint under which it merges.
pub fn plan_row(src: &SourceRow) -> (r: RowPlan)
    ensures
        match decode_spec(*src) {
            None => r is Corrupted,
            Some(row) => r == (RowPlan::Merge { row, fingerprint: r->fingerprint })
                && r->fingerprint@ == fingerprint_spec(row),
        },
{
    match decode_source_row(src) {
        None => RowPlan::Corrupted,
        Some(row) => {
            let fingerprint = row_hash(&row);
            RowPlan::Merge { row, fingerprint }
        },
    }
}

/// Counters of a merge: rows read, rows inserted, rows skipped as corrupted.
#[derive(Debug, Clone, Copy, PartialEq, Eq)]
pub struct ImportTally {
    pub considered: u64,
    pub inserted: u64,
    pub skipped_corrupted: u64,
}

/// One step of a merge over (counters, recorded fingerprints).
pub open spec fn merge_step(
    t: (nat, nat, nat),
    known: Set<Seq<char>>,
    src: SourceRow,
) -> ((nat, nat, nat), Set<Seq<char>>) {
    match decode_spec(src) {
        None => ((t.0 + 1, t.1, t.2 + 1), known),
        Some(row) => if known.contains(fingerprint_spec(row)) {
            ((t.0 + 1, t.1, t.2), known)
        } else {
            ((t.0 + 1, t.1 + 1, t.2), known.insert(fingerprint_spec(row)))
        },
    }
}

/// A whole merge of `rows`, in order, into a store whose fingerprints are `known`.
pub open spec fn merge_all(rows: Seq<SourceRow>, known: Set<Seq<char>>) -> (
    (nat, nat, nat),
    Set<Seq<char>>,
)
    decreases rows.len(),
{
    if rows.len() == 0 {
        ((0, 0, 0), known)
    } else {
        let prev = merge_all(rows.drop_last(), known);
        merge_step(prev.0, prev.1, rows.last())
    }
}

impl ImportTally {
    pub open spec fn counts(self) -> (nat, nat, nat) {
        (self.considered as nat, self.inserted as nat, self.skipped_corrupted as nat)
    }

    /// Every inserted or skipped row was also counted as read.
    pub open spec fn wf(self) -> bool {
        self.inserted + self.skipped_corrupted <= self.considered
    }

    pub fn new() -> (r: ImportTally)
        ensures
            r.counts() == (0nat, 0nat, 0nat),
            r.wf(),
    {
        ImportTally { considered: 0, inserted: 0, skipped_corrupted: 0 }
    }

    /// Records the outcome for one source row, given whether its fingerprint
    /// is already in the store; returns whether the row is to be inserted.
    pub fn record(&mut self, plan: &RowPlan, already_present: bool) -> (insert: bool)
        requires
            old(self).wf(),
            old(self).considered < u64::MAX,
        ensures
            final(self).wf(),
            insert == (plan is Merge && !already_present),
            final(self).considered == old(self).considered + 1,
            final(self).inserted == old(self).inserted + (if insert { 1int } else { 0int }),
            final(self).skipped_corrupted == old(self).skipped_corrupted + (if plan is Corrupted {
                1int
            } else {
                0int
            }),
    {
        self.considered = self.considered + 1;
        match plan {
            RowPlan::Corrupted => {
                self.skipped_corrupted = self.skipped_corrupted + 1;
                false
            },
            RowPlan::Merge { .. } => {
                if already_present {
                    false
                } else {
                    self.inserted = self.inserted + 1;
                    true
                }
            },
        }
    }
}

/// `record` follows `merge_step`: with `present` telling whether the
/// fingerprint of `src` is in `known`, the counters move as one merge step does.
pub proof fn lemma_record_is_merge_step(
    before: ImportTally,
    after: ImportTally,
    known: Set<Seq<char>>,
    src: SourceRow,
    plan: RowPlan,
)
    requires
        match decode_spec(src) {
            None => plan is Corrupted,
            Some(row) => plan is Merge && plan->fingerprint@ == fingerprint_spec(row),
        },
        after.considered == before.considered + 1,
        after.inserted == before.inserted + (if (plan is Merge && !known.contains(
            plan->fingerprint@,
        )) {
            1int
        } else {
            0int
        }),
        after.skipped_corrupted == before.skipped_corrupted + (if plan is Corrupted {
            1int
        } else {
            0int
        }),
    ensures
        after.counts() == merge_step(before.counts(), known, src).0,
{
}

/// Every source row that decodes has its fingerprint recorded.
pub open spec fn all_recorded(rows: Seq<SourceRow>, known: Set<Seq<char>>) -> bool {
    forall|k: int|
        0 <= k < rows.len() ==> (#[trigger] decode_spec(rows[k]) matches Some(row) ==> known.contains(
            fingerprint_spec(row),
        ))
}

#[verifier::rlimit(30)]
proof fn lemma_merge_counts_rows(rows: Seq<SourceRow>, known: Set<Seq<char>>)
    ensures
        merge_all(rows, known).0.0 == rows.len(),
        known.subset_of(merge_all(rows, known).1),
        all_recorded(rows, merge_all(rows, known).1),
    decreases rows.len(),
{
    if rows.len() > 0 {
        let init = rows.drop_last();
        lemma_merge_counts_rows(init, known);
        let prev = merge_all(init, known);
        let next = merge_all(rows, known);
        assert(prev.1.subset_of(next.1));
        assert forall|k: int| 0 <= k < rows.len() implies (#[trigger] decode_spec(rows[k]) matches Some(
            row,
        ) ==> next.1.contains(fingerprint_spec(row))) by {
            if k < rows.len() - 1 {
                assert(rows[k] == init[k]);
            }
        }
    }
}

proof fn lemma_merge_nothing_new(rows: Seq<SourceRow>, known: Set<Seq<char>>)
    requires
        all_recorded(rows, known),
    ensures
        merge_all(rows, known).0.1 == 0,
        merge_all(rows, known).1 == known,
    decreases rows.len(),
{
    if rows.len() > 0 {
        let init = rows.drop_last();
        assert forall|k: int| 0 <= k < init.len() implies (#[trigger] decode_spec(init[k]) matches Some(
            row,
        ) ==> known.contains(fingerprint_spec(row))) by {
            assert(init[k] == rows[k]);
        }
        lemma_merge_nothing_new(init, known);
        assert(decode_spec(rows[rows.len() - 1]) matches Some(row) ==> known.contains(
            fingerprint_spec(row),
        ));
    }
}

/// Importing a source twice: both runs read every row, and the second
/// inserts nothing and leaves the recorded fingerprints as they were.
pub proof fn lemma_import_idempotent(rows: Seq<SourceRow>, known: Set<Seq<char>>)
    ensures
        merge_all(rows, known).0.0 == rows.len(),
        merge_all(rows, merge_all(rows, known).1).0.0 == rows.len(),
        merge_all(rows, merge_all(rows, known).1).0.1 == 0,
        merge_all(rows, merge_all(rows, known).1).1 == merge_all(rows, known).1,
{
    let first = merge_all(rows, known);
    lemma_merge_counts_rows(rows, known);
    lemma_merge_counts_rows(rows, first.1);
    lemma_merge_nothing_new(rows, first.1);
}

/// Source rows that all decode, with pairwise distinct fingerprints none of
/// which the store holds yet.
pub open spec fn all_fresh(rows: Seq<SourceRow>, known: Set<Seq<char>>) -> bool {
    &&& forall|k: int| 0 <= k < rows.len() ==> (#[trigger] decode_spec(rows[k])) is Some
    &&& forall|k: int|
        0 <= k < rows.len() ==> !known.contains(fingerprint_spec(#[trigger] decode_spec(rows[k])->0))
    &&& forall|j: int, k: int|
        0 <= j < k < rows.len() ==> fingerprint_spec(#[trigger] decode_spec(rows[j])->0)
            != fingerprint_spec(#[trigger] decode_spec(rows[k])->0)
}

/// Importing `n` valid, distinct rows into a store that holds none of them
/// reads and inserts all `n`, and skips none.
#[verifier::rlimit(30)]
pub proof fn lemma_import_fresh_inserts_all(rows: Seq<SourceRow>, known: Set<Seq<char>>)
    requires
        all_fresh(rows, known),
    ensures
        merge_all(rows, known).0 == (rows.len(), rows.len(), 0nat),
        forall|k: int|
            0 <= k < rows.len() ==> merge_all(rows, known).1.contains(
                fingerprint_spec(#[trigger] decode_spec(rows[k])->0),
            ),
        forall|f: Seq<char>|
            #[trigger] merge_all(rows, known).1.contains(f) ==> known.contains(f) || exists|k: int|
                0 <= k < rows.len() && f == fingerprint_spec(#[trigger] decode_spec(rows[k])->0),
    decreases rows.len(),
{
    if rows.len() > 0 {
        let init = rows.drop_last();
        assert forall|k: int| 0 <= k < init.len() implies (#[trigger] decode_spec(init[k])) is Some by {
            assert(init[k] == rows[k]);
        }
        assert forall|k: int| 0 <= k < init.len() implies !known.contains(
            fingerprint_spec(#[trigger] decode_spec(init[k])->0),
        ) by {
            assert(init[k] == rows[k]);
        }
        assert forall|j: int, k: int| 0 <= j < k < init.len() implies fingerprint_spec(
            #[trigger] decode_spec(init[j])->0,
        ) != fingerprint_spec(#[trigger] decode_spec(init[k])->0) by {
            assert(init[j] == rows[j]);
            assert(init[k] == rows[k]);
        }
        lemma_import_fresh_inserts_all(init, known);
        let prev = merge_all(init, known);
        let last = rows.len() - 1;
        let fp = fingerprint_spec(decode_spec(rows[last])->0);
        assert(decode_spec(rows[last]) is Some);
        if prev.1.contains(fp) {
            assert(!known.contains(fp));
            let k = choose|k: int|
                0 <= k < init.len() && fp == fingerprint_spec(#[trigger] decode_spec(init[k])->0);
            assert(init[k] == rows[k]);
            assert(false);
        }
        let next = merge_all(rows, known);
        assert forall|k: int| 0 <= k < rows.len() implies next.1.contains(
            fingerprint_spec(#[trigger] decode_spec(rows[k])->0),
        ) by {
            if k < last {
                assert(init[k] == rows[k]);
            }
        }
        assert forall|f: Seq<char>| #[trigger] next.1.contains(f) implies known.contains(f) || exists|
            k: int,
        | 0 <= k < rows.len() && f == fingerprint_spec(#[trigger] decode_spec(rows[k])->0) by {
            if f != fp && !known.contains(f) {
                assert(prev.1.contains(f));
                let k = choose|k: int|
                    0 <= k < init.len() && f == fingerprint_spec(#[trigger] decode_spec(init[k])->0);
                assert(init[k] == rows[k]);
            }
        }
    }
}

/// A row whose `epoch`, `ppid` or `salt` cannot be read is counted as
/// corrupted and read, and neither inserted nor recorded.
pub proof fn lemma_corrupted_row_skipped(t: (nat, nat, nat), known: Set<Seq<char>>, src: SourceRow)
    requires
        cell_int(src.epoch) is None || cell_int(src.ppid) is None || cell_int(src.salt) is None,
    ensures
        merge_step(t, known, src) == ((t.0 + 1, t.1, t.2 + 1), known),
{
}

/// The fingerprint set of a store after inserting `row`.
pub open spec fn store_insert(known: Set<Seq<char>>, row: HistoryRow) -> Set<Seq<char>> {
    known.insert(fingerprint_spec(row))
}

/// Inserting the same row twice records one fingerprint, and a later import
/// of a source row holding the same field values inserts nothing.
pub proof fn lemma_insert_twice_then_import(known: Set<Seq<char>>, row: HistoryRow, src: SourceRow)
    requires
        decode_spec(src) is Some,
        crate::fingerprint::fields_differing(decode_spec(src)->0, row) == 0,
    ensures
        store_insert(store_insert(known, row), row) == store_insert(known, row),
        store_insert(known, row).contains(fingerprint_spec(row)),
        merge_all(seq![src], store_insert(store_insert(known, row), row)).0 == (1nat, 0nat, 0nat),
{
    crate::fingerprint::lemma_fingerprint_determinism(decode_spec(src)->0, row);
    assert(store_insert(store_insert(known, row), row) =~= store_insert(known, row));
    let k2 = store_insert(store_insert(known, row), row);
    assert(seq![src].drop_last() =~= Seq::<SourceRow>::empty());
    assert(merge_all(Seq::<SourceRow>::empty(), k2) == ((0nat, 0nat, 0nat), k2));
    assert(seq![src].last() == src);
    assert(fingerprint_spec(decode_spec(src)->0) == fingerprint_spec(row));
}

} // verus!
