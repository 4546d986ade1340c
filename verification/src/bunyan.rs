//! Checks over structured (Bunyan-format) log records.
//!
//! A record carries a timestamp, the logger's name, the host, the process
//! id, the message, and a format version. Tooling that reads logs back
//! checks the records against an expectation in which every field is
//! optional, and checks that records are chronologically sequential within
//! optional bounds. Timestamps are held as seconds since the epoch, which is
//! the precision the chronology checks compare at.

use vstd::prelude::*;
use crate::bytes::bytes_eq;

verus! {

/// One log record.
pub struct BunyanLogRecord {
    /// Seconds since the epoch.
    pub time: i64,
    pub name: Vec<u8>,
    pub hostname: Vec<u8>,
    pub pid: u32,
    pub msg: Vec<u8>,
    pub v: usize,
}

pub struct RecordModel {
    pub time: i64,
    pub name: Seq<u8>,
    pub hostname: Seq<u8>,
    pub pid: u32,
    pub msg: Seq<u8>,
    pub v: usize,
}

impl View for BunyanLogRecord {
    type V = RecordModel;

    open spec fn view(&self) -> RecordModel {
        RecordModel {
            time: self.time,
            name: self.name@,
            hostname: self.hostname@,
            pid: self.pid,
            msg: self.msg@,
            v: self.v,
        }
    }
}

/// Like a record, but with every field optional: what a check expects.
pub struct BunyanLogRecordSpec {
    pub name: Option<Vec<u8>>,
    pub hostname: Option<Vec<u8>>,
    pub pid: Option<u32>,
    pub v: Option<usize>,
}

pub struct RecordSpecModel {
    pub name: Option<Seq<u8>>,
    pub hostname: Option<Seq<u8>>,
    pub pid: Option<u32>,
    pub v: Option<usize>,
}

impl View for BunyanLogRecordSpec {
    type V = RecordSpecModel;

    open spec fn view(&self) -> RecordSpecModel {
        RecordSpecModel {
            name: match self.name {
                Some(ref n) => Some(n@),
                None => None,
            },
            hostname: match self.hostname {
                Some(ref h) => Some(h@),
                None => None,
            },
            pid: self.pid,
            v: self.v,
        }
    }
}

/// The record agrees with the expectation on every field the expectation
/// fixes.
pub open spec fn record_matches(r: RecordModel, expected: RecordSpecModel) -> bool {
    &&& (expected.name matches Some(n) ==> r.name == n)
    &&& (expected.hostname matches Some(h) ==> r.hostname == h)
    &&& (expected.pid matches Some(p) ==> r.pid == p)
    &&& (expected.v matches Some(v) ==> r.v == v)
}

/// The records are in chronological order, none earlier than `before` and
/// none later than `after` where those bounds are given; with no records at
/// all, the bounds themselves must be in order.
pub open spec fn records_sequential(
    rs: Seq<RecordModel>,
    before: Option<i64>,
    after: Option<i64>,
) -> bool {
    &&& forall|i: int| 0 <= i && i + 1 < rs.len() ==> #[trigger] rs[i].time <= rs[i + 1].time
    &&& (before matches Some(b) ==> (rs.len() == 0 || b <= rs[0].time))
    &&& match after {
        Some(a) => if rs.len() > 0 {
            rs[rs.len() - 1].time <= a
        } else {
            match before {
                Some(b) => b <= a,
                None => true,
            }
        },
        None => true,
    }
}

/// Do the key fields of every record match the expectation? Fields the
/// expectation leaves open are not checked.
pub fn verify_bunyan_records(records: &Vec<BunyanLogRecord>, expected: &BunyanLogRecordSpec) -> (r:
    bool)
    ensures
        r == forall|i: int|
            0 <= i < records@.len() ==> record_matches(#[trigger] records@[i]@, expected@),
{
    let mut i: usize = 0;
    while i < records.len()
        invariant
            i <= records.len(),
            forall|j: int| 0 <= j < i ==> record_matches(#[trigger] records@[j]@, expected@),
        decreases records.len() - i,
    {
        let record = &records[i];
        match &expected.name {
            Some(n) => {
                if !bytes_eq(n.as_slice(), record.name.as_slice()) {
                    assert(!record_matches(records@[i as int]@, expected@));
                    return false;
                }
            },
            None => {},
        }
        match &expected.hostname {
            Some(h) => {
                if !bytes_eq(h.as_slice(), record.hostname.as_slice()) {
                    assert(!record_matches(records@[i as int]@, expected@));
                    return false;
                }
            },
            None => {},
        }
        match expected.pid {
            Some(p) => {
                if p != record.pid {
                    assert(!record_matches(records@[i as int]@, expected@));
                    return false;
                }
            },
            None => {},
        }
        match expected.v {
            Some(v) => {
                if v != record.v {
                    assert(!record_matches(records@[i as int]@, expected@));
                    return false;
                }
            },
            None => {},
        }
        assert(record_matches(records@[i as int]@, expected@));
        i += 1;
    }
    true
}

/// Are the records chronologically sequential, after `before` and no later
/// than `after` where those bounds are given?
pub fn verify_bunyan_records_sequential(
    records: &Vec<BunyanLogRecord>,
    time_before: Option<i64>,
    time_after: Option<i64>,
) -> (r: bool)
    ensures
        r == records_sequential(
            records@.map_values(|x: BunyanLogRecord| x@),
            time_before,
            time_after,
        ),
{
    let ghost rs = records@.map_values(|x: BunyanLogRecord| x@);
    let n = records.len();
    match time_before {
        Some(b) => {
            if n > 0 && records[0].time < b {
                assert(rs[0].time < b);
                return false;
            }
        },
        None => {},
    }
    if n > 1 {
        let mut i: usize = 0;
        while i < n - 1
            invariant
                n == records.len(),
                n > 1,
                rs == records@.map_values(|x: BunyanLogRecord| x@),
                i <= n - 1,
                forall|j: int| 0 <= j && j + 1 <= i ==> #[trigger] rs[j].time <= rs[j + 1].time,
            decreases n - i,
        {
            if records[i].time > records[i + 1].time {
                assert(rs[i as int].time > rs[i as int + 1].time);
                return false;
            }
            i += 1;
        }
    }
    match time_after {
        Some(a) => {
            if n > 0 {
                if records[n - 1].time > a {
                    assert(rs[n - 1].time > a);
                    return false;
                }
            } else {
                match time_before {
                    Some(b) => {
                        if b > a {
                            return false;
                        }
                    },
                    None => {},
                }
            }
        },
        None => {},
    }
    true
}

} // verus!
