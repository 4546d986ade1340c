//! The persisted dataset configuration.
//!
//! After a dataset is materialized, its descriptor is written to disk so the
//! zone can be rebuilt after a reboot. The file is a small, human-diffable
//! text of `key = "value"` lines holding the service kind, the data
//! directory, and the listen address; this module is its codec, and proves
//! that reading a written configuration back yields the descriptor it was
//! written from.

use vstd::prelude::*;
use crate::bytes::copy_bytes;
use crate::bytes::append_bytes;
use crate::bytes::bytes_eq;
use crate::bytes::starts_with;
use crate::bytes::is_prefix_of;
use crate::dataset::DatasetKind;
use crate::dataset::PartitionInfo;
use crate::dataset::field_byte_ok;
use crate::dataset::field_text_ok;
use crate::dataset::spec_service_name;
use crate::dataset::txt_cockroachdb;
use crate::dataset::txt_crucible;
use crate::dataset::txt_clickhouse;
use crate::net::NetAddress;
use crate::net::find_byte;
use crate::net::find_byte_in;
use crate::net::lemma_find_byte_concat;
use crate::net::lemma_addr_roundtrip;
use crate::net::lemma_format_addr_bytes;
use crate::net::spec_format_addr;
use crate::net::spec_parse_addr;
use crate::net::parse_addr;
use crate::net::write_addr;

verus! {

/// The opening of the service-kind line.
pub open spec fn txt_key_kind() -> Seq<u8> {
    seq![107u8, 105, 110, 100, 32, 61, 32, 34]
}

fn vec_key_kind() -> (r: Vec<u8>)
    ensures
        r@ == txt_key_kind(),
{
    let a: [u8; 8] = [107u8, 105, 110, 100, 32, 61, 32, 34];
    let r = copy_bytes(a.as_slice());
    assert(r@ =~= txt_key_kind());
    r
}
/// The opening of the data-directory line.
pub open spec fn txt_key_dir() -> Seq<u8> {
    seq![100u8, 97, 116, 97, 95, 100, 105, 114, 101, 99, 116, 111, 114, 121, 32, 61, 32, 34]
}

fn vec_key_dir() -> (r: Vec<u8>)
    ensures
        r@ == txt_key_dir(),
{
    let a: [u8; 18] = [100u8, 97, 116, 97, 95, 100, 105, 114, 101, 99, 116, 111, 114, 121, 32, 61, 32, 34];
    let r = copy_bytes(a.as_slice());
    assert(r@ =~= txt_key_dir());
    r
}
/// The opening of the listen-address line.
pub open spec fn txt_key_addr() -> Seq<u8> {
    seq![97u8, 100, 100, 114, 101, 115, 115, 32, 61, 32, 34]
}

fn vec_key_addr() -> (r: Vec<u8>)
    ensures
        r@ == txt_key_addr(),
{
    let a: [u8; 11] = [97u8, 100, 100, 114, 101, 115, 115, 32, 61, 32, 34];
    let r = copy_bytes(a.as_slice());
    assert(r@ =~= txt_key_addr());
    r
}

/// One `key = "value"` line: the key text (which ends in the opening
/// quote), the value, a closing quote, and a line break.
pub open spec fn spec_encode_field(key: Seq<u8>, v: Seq<u8>) -> Seq<u8> {
    key + v + seq![34u8, 10u8]
}

/// The whole persisted configuration for a descriptor with the given kind,
/// data directory and address.
pub open spec fn spec_encode_config(kind: DatasetKind, dir: Seq<u8>, addr: NetAddress) -> Seq<
    u8,
> {
    spec_encode_field(txt_key_kind(), spec_service_name(kind)) + spec_encode_field(
        txt_key_dir(),
        dir,
    ) + spec_encode_field(txt_key_addr(), spec_format_addr(addr))
}

/// Reads one `key = "value"` line off the front of `s`: the value and
/// whatever follows the line.
pub open spec fn spec_parse_field(s: Seq<u8>, key: Seq<u8>) -> Option<(Seq<u8>, Seq<u8>)> {
    if is_prefix_of(key, s) {
        let t = s.subrange(key.len() as int, s.len() as int);
        match find_byte(t, 34) {
            Some(i) => {
                let v = t.subrange(0, i);
                let rest = t.subrange(i + 1, t.len() as int);
                if rest.len() >= 1 && rest[0] == 10 {
                    Some((v, rest.subrange(1, rest.len() as int)))
                } else {
                    None
                }
            },
            None => None,
        }
    } else {
        None
    }
}

/// The service kind a dataset name denotes.
pub open spec fn spec_kind_of_name(s: Seq<u8>) -> Option<DatasetKind> {
    if s == txt_cockroachdb() {
        Some(DatasetKind::CockroachDb)
    } else if s == txt_crucible() {
        Some(DatasetKind::Crucible)
    } else if s == txt_clickhouse() {
        Some(DatasetKind::Clickhouse)
    } else {
        None
    }
}

/// What a persisted configuration denotes: the kind, data directory and
/// address of the descriptor it records, if the text is well-formed.
pub open spec fn spec_parse_config(s: Seq<u8>) -> Option<(DatasetKind, Seq<u8>, NetAddress)> {
    match spec_parse_field(s, txt_key_kind()) {
        Some((kv, r1)) => match spec_kind_of_name(kv) {
            Some(kind) => match spec_parse_field(r1, txt_key_dir()) {
                Some((dv, r2)) => if field_text_ok(dv) {
                    match spec_parse_field(r2, txt_key_addr()) {
                        Some((av, r3)) => if r3.len() == 0 {
                            match spec_parse_addr(av) {
                                Some(addr) => Some((kind, dv, addr)),
                                None => None,
                            }
                        } else {
                            None
                        },
                        None => None,
                    }
                } else {
                    None
                },
                None => None,
            },
            None => None,
        },
        None => None,
    }
}

/// Writes one `key = "value"` line onto `out`.
fn write_field(key: &[u8], v: &[u8], out: &mut Vec<u8>)
    ensures
        final(out)@ == old(out)@ + spec_encode_field(key@, v@),
{
    append_bytes(out, key);
    append_bytes(out, v);
    out.push(34);
    out.push(10);
    assert(final(out)@ =~= old(out)@ + spec_encode_field(key@, v@));
}

/// Renders the persisted configuration of `info`.
pub fn encode_config(info: &PartitionInfo) -> (r: Vec<u8>)
    ensures
        r@ == spec_encode_config(info.kind, info.data_directory@, info.address),
{
    let mut out: Vec<u8> = Vec::new();
    let kname = info.kind.service_name();
    let key_kind = vec_key_kind();
    write_field(key_kind.as_slice(), kname.as_slice(), &mut out);
    let key_dir = vec_key_dir();
    write_field(key_dir.as_slice(), info.data_directory.as_slice(), &mut out);
    let mut av: Vec<u8> = Vec::new();
    write_addr(&info.address, &mut av);
    let key_addr = vec_key_addr();
    write_field(key_addr.as_slice(), av.as_slice(), &mut out);
    assert(out@ =~= spec_encode_config(info.kind, info.data_directory@, info.address));
    out
}

/// Reads one `key = "value"` line off the front of `s`.
fn parse_field<'a>(s: &'a [u8], key: &[u8]) -> (r: Option<(Vec<u8>, &'a [u8])>)
    ensures
        match r {
            Some(p) => spec_parse_field(s@, key@) == Some((p.0@, p.1@)),
            None => spec_parse_field(s@, key@) is None,
        },
{
    if !starts_with(s, key) {
        return None;
    }
    let t = &s[key.len()..s.len()];
    assert(t@ == s@.subrange(key@.len() as int, s@.len() as int));
    match find_byte_in(t, 34) {
        Some(i) => {
            let v = copy_bytes(&t[0..i]);
            let n = t.len();
            let rest0 = &t[i + 1..n];
            if rest0.len() >= 1 && rest0[0] == 10 {
                let m = rest0.len();
                let rest = &rest0[1..m];
                assert(v@ == t@.subrange(0, i as int));
                assert(rest@ == t@.subrange(i + 1, t@.len() as int).subrange(
                    1,
                    t@.subrange(i + 1, t@.len() as int).len() as int,
                ));
                Some((v, rest))
            } else {
                None
            }
        },
        None => None,
    }
}

/// No quote and no line break anywhere in `v`.
fn field_text_check(v: &[u8]) -> (r: bool)
    ensures
        r == field_text_ok(v@),
{
    let mut i: usize = 0;
    while i < v.len()
        invariant
            i <= v.len(),
            forall|j: int| 0 <= j < i ==> field_byte_ok(#[trigger] v@[j]),
        decreases v.len() - i,
    {
        if v[i] == 34 || v[i] == 10 {
            assert(!field_byte_ok(v@[i as int]));
            return false;
        }
        i += 1;
    }
    true
}

/// The service kind a dataset name denotes.
fn kind_of_name(v: &[u8]) -> (r: Option<DatasetKind>)
    ensures
        r == spec_kind_of_name(v@),
{
    let crdb = vec_cockroachdb_name();
    if bytes_eq(v, crdb.as_slice()) {
        return Some(DatasetKind::CockroachDb);
    }
    let cru = vec_crucible_name();
    if bytes_eq(v, cru.as_slice()) {
        return Some(DatasetKind::Crucible);
    }
    let ch = vec_clickhouse_name();
    if bytes_eq(v, ch.as_slice()) {
        return Some(DatasetKind::Clickhouse);
    }
    None
}

fn vec_cockroachdb_name() -> (r: Vec<u8>)
    ensures
        r@ == txt_cockroachdb(),
{
    DatasetKind::CockroachDb.service_name()
}

fn vec_crucible_name() -> (r: Vec<u8>)
    ensures
        r@ == txt_crucible(),
{
    DatasetKind::Crucible.service_name()
}

fn vec_clickhouse_name() -> (r: Vec<u8>)
    ensures
        r@ == txt_clickhouse(),
{
    DatasetKind::Clickhouse.service_name()
}

/// Reads a persisted configuration back into a descriptor.
pub fn parse_config(s: &[u8]) -> (r: Option<PartitionInfo>)
    ensures
        match r {
            Some(info) => spec_parse_config(s@) == Some(
                (info.kind, info.data_directory@, info.address),
            ) && info.wf(),
            None => spec_parse_config(s@) is None,
        },
{
    let key_kind = vec_key_kind();
    match parse_field(s, key_kind.as_slice()) {
        Some((kv, r1)) => {
            match kind_of_name(kv.as_slice()) {
                Some(kind) => {
                    let key_dir = vec_key_dir();
                    match parse_field(r1, key_dir.as_slice()) {
                        Some((dv, r2)) => {
                            if !field_text_check(dv.as_slice()) {
                                return None;
                            }
                            let key_addr = vec_key_addr();
                            match parse_field(r2, key_addr.as_slice()) {
                                Some((av, r3)) => {
                                    if r3.len() != 0 {
                                        return None;
                                    }
                                    match parse_addr(av.as_slice()) {
                                        Some(addr) => {
                                            let name = kind.service_name();
                                            Some(
                                                PartitionInfo {
                                                    name,
                                                    data_directory: dv,
                                                    address: addr,
                                                    kind,
                                                },
                                            )
                                        },
                                        None => None,
                                    }
                                },
                                None => None,
                            }
                        },
                        None => None,
                    }
                },
                None => None,
            }
        },
        None => None,
    }
}

/// Reading one encoded line yields the value it was encoded from, and
/// leaves exactly what followed the line.
proof fn lemma_parse_field_encode(key: Seq<u8>, v: Seq<u8>, rest: Seq<u8>)
    requires
        forall|i: int| 0 <= i < v.len() ==> v[i] != 34,
    ensures
        spec_parse_field(spec_encode_field(key, v) + rest, key) == Some((v, rest)),
{
    let s = spec_encode_field(key, v) + rest;
    assert(s.subrange(0, key.len() as int) =~= key);
    let t = s.subrange(key.len() as int, s.len() as int);
    assert(t =~= v + seq![34u8] + (seq![10u8] + rest));
    lemma_find_byte_concat(v, seq![10u8] + rest, 34);
    assert(t.subrange(0, v.len() as int) =~= v);
    let after = t.subrange(v.len() as int + 1, t.len() as int);
    assert(after =~= seq![10u8] + rest);
    assert(after.subrange(1, after.len() as int) =~= rest);
}

/// The three dataset names contain no quote byte.
proof fn lemma_names_field_ok()
    ensures
        forall|i: int| 0 <= i < txt_cockroachdb().len() ==> txt_cockroachdb()[i] != 34,
        forall|i: int| 0 <= i < txt_crucible().len() ==> txt_crucible()[i] != 34,
        forall|i: int| 0 <= i < txt_clickhouse().len() ==> txt_clickhouse()[i] != 34,
{
}

/// Each dataset name denotes its own kind.
proof fn lemma_kind_of_service_name(kind: DatasetKind)
    ensures
        spec_kind_of_name(spec_service_name(kind)) == Some(kind),
{
    assert(txt_crucible().len() != txt_cockroachdb().len());
    assert(txt_clickhouse().len() != txt_cockroachdb().len());
    assert(txt_clickhouse().len() != txt_crucible().len());
}

/// Reading a written configuration back yields the descriptor it was
/// written from: the same service kind, data directory, and address.
pub proof fn lemma_config_roundtrip(kind: DatasetKind, dir: Seq<u8>, addr: NetAddress)
    requires
        field_text_ok(dir),
    ensures
        spec_parse_config(spec_encode_config(kind, dir, addr)) == Some((kind, dir, addr)),
{
    let s = spec_encode_config(kind, dir, addr);
    let f1 = spec_encode_field(txt_key_kind(), spec_service_name(kind));
    let f2 = spec_encode_field(txt_key_dir(), dir);
    let f3 = spec_encode_field(txt_key_addr(), spec_format_addr(addr));
    assert(s =~= f1 + (f2 + (f3 + Seq::<u8>::empty())));
    lemma_names_field_ok();
    lemma_parse_field_encode(txt_key_kind(), spec_service_name(kind), f2 + (f3 + Seq::<
        u8,
    >::empty()));
    lemma_kind_of_service_name(kind);
    lemma_parse_field_encode(txt_key_dir(), dir, f3 + Seq::<u8>::empty());
    lemma_format_addr_bytes(addr);
    lemma_parse_field_encode(txt_key_addr(), spec_format_addr(addr), Seq::<u8>::empty());
    assert(f3 + Seq::<u8>::empty() =~= f3);
    lemma_addr_roundtrip(addr);
}

} // verus!
