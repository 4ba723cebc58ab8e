//! Content fingerprints of history rows: the SHA-256 digest, in lowercase
//! hexadecimal, of the row's fields joined by newlines.
use vstd::prelude::*;
use vstd::utf8::encode_utf8;
use sha2::Digest;
use crate::domain::HistoryRow;
use crate::text::{
    int_decimal, lemma_int_decimal_injective, lemma_middle_differs, lemma_nat_digits,
    push_char, push_i64,
};

verus! {

/// The SHA-256 digest of a byte string.
pub uninterp spec fn sha256_digest(data: Seq<u8>) -> Seq<u8>;

/// Relies on `sha2::Sha256::digest`: the 32-byte SHA-256 digest of `data`.
#[verifier::external_body]
fn sha256(data: &[u8]) -> (r: Vec<u8>)
    ensures
        r@ == sha256_digest(data@),
        r@.len() == 32,
{
    sha2::Sha256::digest(data).to_vec()
}

pub open spec fn hex_digit(d: nat) -> char {
    seq!['0', '1', '2', '3', '4', '5', '6', '7', '8', '9', 'a', 'b', 'c', 'd', 'e', 'f'][d as int]
}

/// Lowercase hexadecimal, two digits per byte, high nibble first.
pub open spec fn hex_spec(b: Seq<u8>) -> Seq<char>
    decreases b.len(),
{
    if b.len() == 0 {
        seq![]
    } else {
        hex_spec(b.drop_last()) + seq![hex_digit((b.last() / 16) as nat), hex_digit((b.last() % 16) as nat)]
    }
}

/// The decimal of an optional integer, or nothing when absent.
pub open spec fn opt_decimal(h: Option<i64>) -> Seq<char> {
    match h {
        Some(v) => int_decimal(v as int),
        None => seq![],
    }
}

/// The text a row's fingerprint is computed over.
pub open spec fn fingerprint_preimage(row: HistoryRow) -> Seq<char> {
    int_decimal(row.epoch as int) + seq!['\n'] + int_decimal(row.ppid as int) + seq!['\n']
        + int_decimal(row.salt as int) + seq!['\n'] + opt_decimal(row.hist_id) + seq!['\n']
        + row.pwd@ + seq!['\n'] + row.cmd@
}

/// A row's fingerprint.
pub open spec fn fingerprint_spec(row: HistoryRow) -> Seq<char> {
    hex_spec(sha256_digest(encode_utf8(fingerprint_preimage(row))))
}

fn hex_char(d: u8) -> (c: char)
    requires
        d < 16,
    ensures
        c == hex_digit(d as nat),
{
    if d == 0 { '0' } else if d == 1 { '1' } else if d == 2 { '2' } else if d == 3 { '3' }
    else if d == 4 { '4' } else if d == 5 { '5' } else if d == 6 { '6' } else if d == 7 { '7' }
    else if d == 8 { '8' } else if d == 9 { '9' } else if d == 10 { 'a' } else if d == 11 { 'b' }
    else if d == 12 { 'c' } else if d == 13 { 'd' } else if d == 14 { 'e' } else { 'f' }
}

/// Renders bytes as lowercase hexadecimal.
pub fn to_hex(b: &[u8]) -> (r: String)
    ensures
        r@ == hex_spec(b@),
{
    let mut out = String::new();
    let mut i: usize = 0;
    while i < b.len()
        invariant
            i <= b@.len(),
            out@ == hex_spec(b@.take(i as int)),
        decreases b@.len() - i,
    {
        let x = b[i];
        push_char(&mut out, hex_char(x / 16));
        push_char(&mut out, hex_char(x % 16));
        assert(b@.take(i + 1).drop_last() =~= b@.take(i as int));
        assert(out@ =~= hex_spec(b@.take(i + 1)));
        i = i + 1;
    }
    assert(b@.take(i as int) =~= b@);
    out
}

/// The text a row's fingerprint is computed over.
pub fn fingerprint_input(row: &HistoryRow) -> (r: String)
    ensures
        r@ == fingerprint_preimage(*row),
{
    let mut s = String::new();
    push_i64(&mut s, row.epoch);
    push_char(&mut s, '\n');
    push_i64(&mut s, row.ppid);
    push_char(&mut s, '\n');
    push_i64(&mut s, row.salt);
    push_char(&mut s, '\n');
    match row.hist_id {
        Some(h) => push_i64(&mut s, h),
        None => {},
    }
    push_char(&mut s, '\n');
    s.append(row.pwd.as_str());
    push_char(&mut s, '\n');
    s.append(row.cmd.as_str());
    assert(s@ =~= fingerprint_preimage(*row));
    s
}

/// The fingerprint of a row: lowercase hex SHA-256 of its fields, joined by
/// newlines in the order epoch, ppid, salt, hist_id (empty when absent),
/// pwd, cmd.
pub fn row_hash(row: &HistoryRow) -> (r: String)
    ensures
        r@ == fingerprint_spec(*row),
        r@.len() == 64,
{
    let input = fingerprint_input(row);
    let digest = sha256(input.as_str().as_bytes());
    let r = to_hex(digest.as_slice());
    proof {
        lemma_hex_len(digest@);
    }
    r
}

proof fn lemma_hex_len(b: Seq<u8>)
    ensures
        hex_spec(b).len() == 2 * b.len(),
    decreases b.len(),
{
    if b.len() > 0 {
        lemma_hex_len(b.drop_last());
    }
}


/// Number of fields in which two rows differ.
pub open spec fn fields_differing(a: HistoryRow, b: HistoryRow) -> nat {
    (if a.epoch != b.epoch { 1nat } else { 0nat }) + (if a.ppid != b.ppid { 1nat } else { 0nat })
        + (if a.salt != b.salt { 1nat } else { 0nat }) + (if a.hist_id != b.hist_id { 1nat } else { 0nat })
        + (if a.pwd@ != b.pwd@ { 1nat } else { 0nat }) + (if a.cmd@ != b.cmd@ { 1nat } else { 0nat })
}

proof fn lemma_opt_decimal_injective(x: Option<i64>, y: Option<i64>)
    requires
        opt_decimal(x) == opt_decimal(y),
    ensures
        x == y,
{
    match (x, y) {
        (Some(u), Some(v)) => lemma_int_decimal_injective(u as int, v as int),
        (Some(u), None) => {
            if u < 0 {
            } else {
                lemma_nat_digits(u as nat);
            }
        },
        (None, Some(v)) => {
            if v < 0 {
            } else {
                lemma_nat_digits(v as nat);
            }
        },
        (None, None) => {},
    }
}

#[verifier::rlimit(40)]
proof fn lemma_split_epoch(a: HistoryRow, b: HistoryRow)
    requires
        a.epoch != b.epoch,
        a.ppid == b.ppid && a.salt == b.salt && a.hist_id == b.hist_id,
        a.pwd@ == b.pwd@ && a.cmd@ == b.cmd@,
    ensures
        fingerprint_preimage(a) != fingerprint_preimage(b),
{
    let nl = seq!['\n'];
    let s = nl + int_decimal(a.ppid as int) + nl + int_decimal(a.salt as int) + nl + opt_decimal(a.hist_id)
        + nl + a.pwd@ + nl + a.cmd@;
    let da = int_decimal(a.epoch as int);
    let db = int_decimal(b.epoch as int);
    assert(fingerprint_preimage(a) =~= Seq::<char>::empty() + da + s);
    assert(fingerprint_preimage(b) =~= Seq::<char>::empty() + db + s);
    if da == db {
        lemma_int_decimal_injective(a.epoch as int, b.epoch as int);
    }
    lemma_middle_differs(Seq::<char>::empty(), da, db, s);
}

#[verifier::rlimit(40)]
proof fn lemma_split_ppid(a: HistoryRow, b: HistoryRow)
    requires
        a.ppid != b.ppid,
        a.epoch == b.epoch && a.salt == b.salt && a.hist_id == b.hist_id,
        a.pwd@ == b.pwd@ && a.cmd@ == b.cmd@,
    ensures
        fingerprint_preimage(a) != fingerprint_preimage(b),
{
    let nl = seq!['\n'];
    let p = int_decimal(a.epoch as int) + nl;
    let s = nl + int_decimal(a.salt as int) + nl + opt_decimal(a.hist_id) + nl + a.pwd@ + nl + a.cmd@;
    let da = int_decimal(a.ppid as int);
    let db = int_decimal(b.ppid as int);
    assert(fingerprint_preimage(a) =~= p + da + s);
    assert(fingerprint_preimage(b) =~= p + db + s);
    if da == db {
        lemma_int_decimal_injective(a.ppid as int, b.ppid as int);
    }
    lemma_middle_differs(p, da, db, s);
}

#[verifier::rlimit(40)]
proof fn lemma_split_salt(a: HistoryRow, b: HistoryRow)
    requires
        a.salt != b.salt,
        a.epoch == b.epoch && a.ppid == b.ppid && a.hist_id == b.hist_id,
        a.pwd@ == b.pwd@ && a.cmd@ == b.cmd@,
    ensures
        fingerprint_preimage(a) != fingerprint_preimage(b),
{
    let nl = seq!['\n'];
    let p = int_decimal(a.epoch as int) + nl + int_decimal(a.ppid as int) + nl;
    let s = nl + opt_decimal(a.hist_id) + nl + a.pwd@ + nl + a.cmd@;
    let da = int_decimal(a.salt as int);
    let db = int_decimal(b.salt as int);
    assert(fingerprint_preimage(a) =~= p + da + s);
    assert(fingerprint_preimage(b) =~= p + db + s);
    if da == db {
        lemma_int_decimal_injective(a.salt as int, b.salt as int);
    }
    lemma_middle_differs(p, da, db, s);
}

#[verifier::rlimit(40)]
proof fn lemma_split_hist_id(a: HistoryRow, b: HistoryRow)
    requires
        a.hist_id != b.hist_id,
        a.epoch == b.epoch && a.ppid == b.ppid && a.salt == b.salt,
        a.pwd@ == b.pwd@ && a.cmd@ == b.cmd@,
    ensures
        fingerprint_preimage(a) != fingerprint_preimage(b),
{
    let nl = seq!['\n'];
    let p = int_decimal(a.epoch as int) + nl + int_decimal(a.ppid as int) + nl + int_decimal(a.salt as int)
        + nl;
    let s = nl + a.pwd@ + nl + a.cmd@;
    let da = opt_decimal(a.hist_id);
    let db = opt_decimal(b.hist_id);
    assert(fingerprint_preimage(a) =~= p + da + s);
    assert(fingerprint_preimage(b) =~= p + db + s);
    if da == db {
        lemma_opt_decimal_injective(a.hist_id, b.hist_id);
    }
    lemma_middle_differs(p, da, db, s);
}

#[verifier::rlimit(40)]
proof fn lemma_split_pwd(a: HistoryRow, b: HistoryRow)
    requires
        a.pwd@ != b.pwd@,
        a.epoch == b.epoch && a.ppid == b.ppid && a.salt == b.salt,
        a.hist_id == b.hist_id && a.cmd@ == b.cmd@,
    ensures
        fingerprint_preimage(a) != fingerprint_preimage(b),
{
    let nl = seq!['\n'];
    let p = int_decimal(a.epoch as int) + nl + int_decimal(a.ppid as int) + nl + int_decimal(a.salt as int)
        + nl + opt_decimal(a.hist_id) + nl;
    let s = nl + a.cmd@;
    assert(fingerprint_preimage(a) =~= p + a.pwd@ + s);
    assert(fingerprint_preimage(b) =~= p + b.pwd@ + s);
    lemma_middle_differs(p, a.pwd@, b.pwd@, s);
}

#[verifier::rlimit(40)]
proof fn lemma_split_cmd(a: HistoryRow, b: HistoryRow)
    requires
        a.cmd@ != b.cmd@,
        a.epoch == b.epoch && a.ppid == b.ppid && a.salt == b.salt,
        a.hist_id == b.hist_id && a.pwd@ == b.pwd@,
    ensures
        fingerprint_preimage(a) != fingerprint_preimage(b),
{
    let nl = seq!['\n'];
    let p = int_decimal(a.epoch as int) + nl + int_decimal(a.ppid as int) + nl + int_decimal(a.salt as int)
        + nl + opt_decimal(a.hist_id) + nl + a.pwd@ + nl;
    let e = Seq::<char>::empty();
    assert(fingerprint_preimage(a) =~= p + a.cmd@ + e);
    assert(fingerprint_preimage(b) =~= p + b.cmd@ + e);
    lemma_middle_differs(p, a.cmd@, b.cmd@, e);
}

/// Fingerprints are deterministic: rows with the same field values have the
/// same fingerprint. Rows that differ in exactly one field, `hist_id` present
/// against absent included, are hashed over different inputs.
pub proof fn lemma_fingerprint_determinism(a: HistoryRow, b: HistoryRow)
    ensures
        fields_differing(a, b) == 0 ==> fingerprint_spec(a) == fingerprint_spec(b),
        fields_differing(a, b) == 1 ==> fingerprint_preimage(a) != fingerprint_preimage(b),
{
    if fields_differing(a, b) == 0 {
        assert(fingerprint_preimage(a) =~= fingerprint_preimage(b));
    }
    if fields_differing(a, b) == 1 {
        if a.epoch != b.epoch {
            lemma_split_epoch(a, b);
        } else if a.ppid != b.ppid {
            lemma_split_ppid(a, b);
        } else if a.salt != b.salt {
            lemma_split_salt(a, b);
        } else if a.hist_id != b.hist_id {
            lemma_split_hist_id(a, b);
        } else if a.pwd@ != b.pwd@ {
            lemma_split_pwd(a, b);
        } else {
            lemma_split_cmd(a, b);
        }
    }
}

} // verus!
