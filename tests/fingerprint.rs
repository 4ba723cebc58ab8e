use sdbh::domain::HistoryRow;
use sdbh::fingerprint::{fingerprint_input, row_hash, to_hex};

fn row() -> HistoryRow {
    HistoryRow {
        hist_id: None,
        cmd: "echo hi".to_string(),
        epoch: 1_700_000_000,
        ppid: 123,
        pwd: "/tmp".to_string(),
        salt: 42,
    }
}

#[test]
fn fingerprint_is_sha256_of_newline_joined_fields() {
    assert_eq!(fingerprint_input(&row()), "1700000000\n123\n42\n\n/tmp\necho hi");
    assert_eq!(row_hash(&row()), "eec875a5b5f5ebecfbb149ce7aebad733457b0e532ec6f6ece626ce6bc3d8f82");
    let mut with_id = row();
    with_id.hist_id = Some(7);
    assert_eq!(row_hash(&with_id), "879534085513793a26cf184f9a5497df8dac94ab6c95586e9f8736e7ba2f0691");
}

#[test]
fn fingerprint_negative_and_empty_fields() {
    let r = HistoryRow { hist_id: None, cmd: String::new(), epoch: -5, ppid: 0, pwd: String::new(), salt: -1 };
    assert_eq!(fingerprint_input(&r), "-5\n0\n-1\n\n\n");
    assert_eq!(row_hash(&r), "5ddbc16a9cbff12bec7e451b3f12f06222611eddf4e5184084cc15a1c2fd592a");
}

#[test]
fn fingerprint_determinism_and_single_field_changes() {
    assert_eq!(row_hash(&row()), row_hash(&row().clone()));
    let base = row_hash(&row());
    let mut changed = vec![];
    let mut r = row();
    r.epoch += 1;
    changed.push(r);
    let mut r = row();
    r.ppid += 1;
    changed.push(r);
    let mut r = row();
    r.salt += 1;
    changed.push(r);
    let mut r = row();
    r.hist_id = Some(0);
    changed.push(r);
    let mut r = row();
    r.pwd.push('/');
    changed.push(r);
    let mut r = row();
    r.cmd.push(' ');
    changed.push(r);
    for r in &changed {
        assert_ne!(row_hash(r), base);
    }
}

#[test]
fn hex_is_lowercase_two_digits_per_byte() {
    assert_eq!(to_hex(&[0x00, 0x0f, 0xab, 0xff]), "000fabff");
    assert_eq!(to_hex(&[]), "");
}
