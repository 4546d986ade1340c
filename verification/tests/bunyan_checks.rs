//! Tests of the structured log-record checks.

use sled_storage::bunyan::BunyanLogRecord;
use sled_storage::bunyan::BunyanLogRecordSpec;
use sled_storage::bunyan::verify_bunyan_records;
use sled_storage::bunyan::verify_bunyan_records_sequential;

// 2020-03-24T00:00:00Z and 2020-03-25T00:00:00Z, in seconds since the epoch.
const T1: i64 = 1585008000;
const T2: i64 = 1585094400;

fn make_dummy_record() -> BunyanLogRecord {
    BunyanLogRecord {
        time: T1,
        name: b"n1".to_vec(),
        hostname: b"h1".to_vec(),
        pid: 1,
        msg: b"msg1".to_vec(),
        v: 0,
    }
}

#[test]
fn test_bunyan_easy_cases() {
    let r1 = make_dummy_record();
    let r2 = BunyanLogRecord {
        time: T1,
        name: b"n1".to_vec(),
        hostname: b"h2".to_vec(),
        pid: 1,
        msg: b"msg2".to_vec(),
        v: 1,
    };

    // Nothing to check.
    let records = vec![make_dummy_record()];
    assert!(verify_bunyan_records(
        &records,
        &BunyanLogRecordSpec { name: None, hostname: None, pid: None, v: None }
    ));

    // Check name, no problem.
    assert!(verify_bunyan_records(
        &records,
        &BunyanLogRecordSpec { name: Some(b"n1".to_vec()), hostname: None, pid: None, v: None }
    ));

    // Check hostname, no problem.
    assert!(verify_bunyan_records(
        &records,
        &BunyanLogRecordSpec { name: None, hostname: Some(b"h1".to_vec()), pid: None, v: None }
    ));

    // Check pid, no problem.
    assert!(verify_bunyan_records(
        &records,
        &BunyanLogRecordSpec { name: None, hostname: None, pid: Some(1), v: None }
    ));

    // Check v, no problem.
    assert!(verify_bunyan_records(
        &records,
        &BunyanLogRecordSpec { name: None, hostname: None, pid: None, v: Some(0) }
    ));

    // Check all, no problem.
    assert!(verify_bunyan_records(
        &records,
        &BunyanLogRecordSpec {
            name: Some(b"n1".to_vec()),
            hostname: Some(b"h1".to_vec()),
            pid: Some(1),
            v: Some(0),
        }
    ));

    // Check multiple records, no problem.
    let records = vec![r1, r2];
    assert!(verify_bunyan_records(
        &records,
        &BunyanLogRecordSpec { name: Some(b"n1".to_vec()), hostname: None, pid: Some(1), v: None }
    ));
}

#[test]
fn bunyan_field_mismatches_are_reported() {
    let records = vec![make_dummy_record()];
    assert!(!verify_bunyan_records(
        &records,
        &BunyanLogRecordSpec { name: Some(b"n2".to_vec()), hostname: None, pid: None, v: None }
    ));
    assert!(!verify_bunyan_records(
        &records,
        &BunyanLogRecordSpec { name: None, hostname: Some(b"h2".to_vec()), pid: None, v: None }
    ));
    assert!(!verify_bunyan_records(
        &records,
        &BunyanLogRecordSpec { name: None, hostname: None, pid: Some(2), v: None }
    ));
    assert!(!verify_bunyan_records(
        &records,
        &BunyanLogRecordSpec { name: None, hostname: None, pid: None, v: Some(1) }
    ));
}

fn seq_record(time: i64) -> BunyanLogRecord {
    BunyanLogRecord {
        time,
        name: b"dummy_name".to_vec(),
        hostname: b"dummy_hostname".to_vec(),
        pid: 123,
        msg: b"dummy_msg".to_vec(),
        v: 0,
    }
}

#[test]
fn test_bunyan_seq_easy_cases() {
    let v0: Vec<BunyanLogRecord> = vec![];
    let v1 = vec![seq_record(T1)];
    let v2 = vec![seq_record(T1), seq_record(T2)];

    assert!(verify_bunyan_records_sequential(&v0, None, None));
    assert!(verify_bunyan_records_sequential(&v0, Some(T1), None));
    assert!(verify_bunyan_records_sequential(&v0, None, Some(T1)));
    assert!(verify_bunyan_records_sequential(&v0, Some(T1), Some(T2)));
    assert!(verify_bunyan_records_sequential(&v1, None, None));
    assert!(verify_bunyan_records_sequential(&v1, Some(T1), None));
    assert!(verify_bunyan_records_sequential(&v1, None, Some(T2)));
    assert!(verify_bunyan_records_sequential(&v1, Some(T1), Some(T2)));
    assert!(verify_bunyan_records_sequential(&v2, None, None));
    assert!(verify_bunyan_records_sequential(&v2, Some(T1), None));
    assert!(verify_bunyan_records_sequential(&v2, None, Some(T2)));
    assert!(verify_bunyan_records_sequential(&v2, Some(T1), Some(T2)));
}

#[test]
fn bunyan_seq_violations_are_reported() {
    // Bounds alone violate the constraint.
    let v0: Vec<BunyanLogRecord> = vec![];
    assert!(!verify_bunyan_records_sequential(&v0, Some(T2), Some(T1)));
    // A record before the lower bound.
    let v1 = vec![seq_record(T1)];
    assert!(!verify_bunyan_records_sequential(&v1, Some(T2), None));
    // A record after the upper bound.
    let v2 = vec![seq_record(T2)];
    assert!(!verify_bunyan_records_sequential(&v2, None, Some(T1)));
    // Records out of order.
    let v3 = vec![seq_record(T2), seq_record(T1)];
    assert!(!verify_bunyan_records_sequential(&v3, None, None));
}
