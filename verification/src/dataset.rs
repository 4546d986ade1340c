//! Dataset descriptors.
//!
//! A dataset is a named allocation of storage within a pool, backing one
//! service's isolated execution zone. The service kind determines the
//! dataset's name, the zone image it boots from, and the startup procedure
//! run inside the zone once it is up.

use vstd::prelude::*;
use crate::bytes::copy_bytes;
use crate::bytes::append_bytes;
use crate::net::NetAddress;
use crate::net::spec_format_addr;
use crate::net::write_addr;

verus! {

/// The kinds of service a dataset can back.
#[derive(Clone, Copy, PartialEq, Eq, Structural, Debug)]
pub enum DatasetKind {
    CockroachDb,
    Crucible,
    Clickhouse,
}

/// Text `cockroachdb`.
pub open spec fn txt_cockroachdb() -> Seq<u8> {
    seq![99u8, 111, 99, 107, 114, 111, 97, 99, 104, 100, 98]
}

/// Text `cockroachdb`.
pub fn vec_cockroachdb() -> (r: Vec<u8>)
    ensures
        r@ == txt_cockroachdb(),
{
    let a: [u8; 11] = [99u8, 111, 99, 107, 114, 111, 97, 99, 104, 100, 98];
    let r = copy_bytes(a.as_slice());
    assert(r@ =~= txt_cockroachdb());
    r
}
/// Text `crucible`.
pub open spec fn txt_crucible() -> Seq<u8> {
    seq![99u8, 114, 117, 99, 105, 98, 108, 101]
}

/// Text `crucible`.
pub fn vec_crucible() -> (r: Vec<u8>)
    ensures
        r@ == txt_crucible(),
{
    let a: [u8; 8] = [99u8, 114, 117, 99, 105, 98, 108, 101];
    let r = copy_bytes(a.as_slice());
    assert(r@ =~= txt_crucible());
    r
}
/// Text `clickhouse`.
pub open spec fn txt_clickhouse() -> Seq<u8> {
    seq![99u8, 108, 105, 99, 107, 104, 111, 117, 115, 101]
}

/// Text `clickhouse`.
pub fn vec_clickhouse() -> (r: Vec<u8>)
    ensures
        r@ == txt_clickhouse(),
{
    let a: [u8; 10] = [99u8, 108, 105, 99, 107, 104, 111, 117, 115, 101];
    let r = copy_bytes(a.as_slice());
    assert(r@ =~= txt_clickhouse());
    r
}
/// Text `/data`, the data directory inside every zone.
pub open spec fn txt_data_directory() -> Seq<u8> {
    seq![47u8, 100, 97, 116, 97]
}

/// Text `/data`, the data directory inside every zone.
pub fn vec_data_directory() -> (r: Vec<u8>)
    ensures
        r@ == txt_data_directory(),
{
    let a: [u8; 5] = [47u8, 100, 97, 116, 97];
    let r = copy_bytes(a.as_slice());
    assert(r@ =~= txt_data_directory());
    r
}
/// Text `oxz_`, the system-wide zone name prefix.
pub open spec fn txt_zone_prefix() -> Seq<u8> {
    seq![111u8, 120, 122, 95]
}

/// Text `oxz_`, the system-wide zone name prefix.
pub fn vec_zone_prefix() -> (r: Vec<u8>)
    ensures
        r@ == txt_zone_prefix(),
{
    let a: [u8; 4] = [111u8, 120, 122, 95];
    let r = copy_bytes(a.as_slice());
    assert(r@ =~= txt_zone_prefix());
    r
}
/// Text `/opt/oxide/`, where zone images live.
pub open spec fn txt_image_dir() -> Seq<u8> {
    seq![47u8, 111, 112, 116, 47, 111, 120, 105, 100, 101, 47]
}

/// Text `/opt/oxide/`, where zone images live.
pub fn vec_image_dir() -> (r: Vec<u8>)
    ensures
        r@ == txt_image_dir(),
{
    let a: [u8; 11] = [47u8, 111, 112, 116, 47, 111, 120, 105, 100, 101, 47];
    let r = copy_bytes(a.as_slice());
    assert(r@ =~= txt_image_dir());
    r
}
/// Text `.tar.gz`, the zone image file suffix.
pub open spec fn txt_image_suffix() -> Seq<u8> {
    seq![46u8, 116, 97, 114, 46, 103, 122]
}

/// Text `.tar.gz`, the zone image file suffix.
pub fn vec_image_suffix() -> (r: Vec<u8>)
    ensures
        r@ == txt_image_suffix(),
{
    let a: [u8; 7] = [46u8, 116, 97, 114, 46, 103, 122];
    let r = copy_bytes(a.as_slice());
    assert(r@ =~= txt_image_suffix());
    r
}
/// The command importing the service manifest.
pub open spec fn txt_crdb_import() -> Seq<u8> {
    seq![47u8, 117, 115, 114, 47, 115, 98, 105, 110, 47, 115, 118, 99, 99, 102, 103, 32, 105, 109, 112, 111, 114, 116, 32, 47, 118, 97, 114, 47, 115, 118, 99, 47, 109, 97, 110, 105, 102, 101, 115, 116, 47, 115, 105, 116, 101, 47, 99, 111, 99, 107, 114, 111, 97, 99, 104, 100, 98, 47, 109, 97, 110, 105, 102, 101, 115, 116, 46, 120, 109, 108]
}

/// The command importing the service manifest.
pub fn vec_crdb_import() -> (r: Vec<u8>)
    ensures
        r@ == txt_crdb_import(),
{
    let a: [u8; 71] = [47u8, 117, 115, 114, 47, 115, 98, 105, 110, 47, 115, 118, 99, 99, 102, 103, 32, 105, 109, 112, 111, 114, 116, 32, 47, 118, 97, 114, 47, 115, 118, 99, 47, 109, 97, 110, 105, 102, 101, 115, 116, 47, 115, 105, 116, 101, 47, 99, 111, 99, 107, 114, 111, 97, 99, 104, 100, 98, 47, 109, 97, 110, 105, 102, 101, 115, 116, 46, 120, 109, 108];
    let r = copy_bytes(a.as_slice());
    assert(r@ =~= txt_crdb_import());
    r
}
/// The command stem registering the listen address.
pub open spec fn txt_crdb_listen_prefix() -> Seq<u8> {
    seq![47u8, 117, 115, 114, 47, 115, 98, 105, 110, 47, 115, 118, 99, 99, 102, 103, 32, 45, 115, 32, 115, 118, 99, 58, 115, 121, 115, 116, 101, 109, 47, 105, 108, 108, 117, 109, 111, 115, 47, 99, 111, 99, 107, 114, 111, 97, 99, 104, 100, 98, 32, 115, 101, 116, 112, 114, 111, 112, 32, 99, 111, 110, 102, 105, 103, 47, 108, 105, 115, 116, 101, 110, 95, 97, 100, 100, 114, 61]
}

/// The command stem registering the listen address.
pub fn vec_crdb_listen_prefix() -> (r: Vec<u8>)
    ensures
        r@ == txt_crdb_listen_prefix(),
{
    let a: [u8; 78] = [47u8, 117, 115, 114, 47, 115, 98, 105, 110, 47, 115, 118, 99, 99, 102, 103, 32, 45, 115, 32, 115, 118, 99, 58, 115, 121, 115, 116, 101, 109, 47, 105, 108, 108, 117, 109, 111, 115, 47, 99, 111, 99, 107, 114, 111, 97, 99, 104, 100, 98, 32, 115, 101, 116, 112, 114, 111, 112, 32, 99, 111, 110, 102, 105, 103, 47, 108, 105, 115, 116, 101, 110, 95, 97, 100, 100, 114, 61];
    let r = copy_bytes(a.as_slice());
    assert(r@ =~= txt_crdb_listen_prefix());
    r
}
/// The command stem registering the data directory.
pub open spec fn txt_crdb_store_prefix() -> Seq<u8> {
    seq![47u8, 117, 115, 114, 47, 115, 98, 105, 110, 47, 115, 118, 99, 99, 102, 103, 32, 45, 115, 32, 115, 118, 99, 58, 115, 121, 115, 116, 101, 109, 47, 105, 108, 108, 117, 109, 111, 115, 47, 99, 111, 99, 107, 114, 111, 97, 99, 104, 100, 98, 32, 115, 101, 116, 112, 114, 111, 112, 32, 99, 111, 110, 102, 105, 103, 47, 115, 116, 111, 114, 101, 61]
}

/// The command stem registering the data directory.
pub fn vec_crdb_store_prefix() -> (r: Vec<u8>)
    ensures
        r@ == txt_crdb_store_prefix(),
{
    let a: [u8; 72] = [47u8, 117, 115, 114, 47, 115, 98, 105, 110, 47, 115, 118, 99, 99, 102, 103, 32, 45, 115, 32, 115, 118, 99, 58, 115, 121, 115, 116, 101, 109, 47, 105, 108, 108, 117, 109, 111, 115, 47, 99, 111, 99, 107, 114, 111, 97, 99, 104, 100, 98, 32, 115, 101, 116, 112, 114, 111, 112, 32, 99, 111, 110, 102, 105, 103, 47, 115, 116, 111, 114, 101, 61];
    let r = copy_bytes(a.as_slice());
    assert(r@ =~= txt_crdb_store_prefix());
    r
}
/// The command registering the (placeholder) join addresses.
pub open spec fn txt_crdb_join() -> Seq<u8> {
    seq![47u8, 117, 115, 114, 47, 115, 98, 105, 110, 47, 115, 118, 99, 99, 102, 103, 32, 45, 115, 32, 115, 118, 99, 58, 115, 121, 115, 116, 101, 109, 47, 105, 108, 108, 117, 109, 111, 115, 47, 99, 111, 99, 107, 114, 111, 97, 99, 104, 100, 98, 32, 115, 101, 116, 112, 114, 111, 112, 32, 99, 111, 110, 102, 105, 103, 47, 106, 111, 105, 110, 95, 97, 100, 100, 114, 115, 61, 117, 110, 107, 110, 111, 119, 110]
}

/// The command registering the (placeholder) join addresses.
pub fn vec_crdb_join() -> (r: Vec<u8>)
    ensures
        r@ == txt_crdb_join(),
{
    let a: [u8; 84] = [47u8, 117, 115, 114, 47, 115, 98, 105, 110, 47, 115, 118, 99, 99, 102, 103, 32, 45, 115, 32, 115, 118, 99, 58, 115, 121, 115, 116, 101, 109, 47, 105, 108, 108, 117, 109, 111, 115, 47, 99, 111, 99, 107, 114, 111, 97, 99, 104, 100, 98, 32, 115, 101, 116, 112, 114, 111, 112, 32, 99, 111, 110, 102, 105, 103, 47, 106, 111, 105, 110, 95, 97, 100, 100, 114, 115, 61, 117, 110, 107, 110, 111, 119, 110];
    let r = copy_bytes(a.as_slice());
    assert(r@ =~= txt_crdb_join());
    r
}
/// The command refreshing the service so the properties take effect.
pub open spec fn txt_crdb_refresh() -> Seq<u8> {
    seq![47u8, 117, 115, 114, 47, 115, 98, 105, 110, 47, 115, 118, 99, 99, 102, 103, 32, 45, 115, 32, 115, 118, 99, 58, 115, 121, 115, 116, 101, 109, 47, 105, 108, 108, 117, 109, 111, 115, 47, 99, 111, 99, 107, 114, 111, 97, 99, 104, 100, 98, 58, 100, 101, 102, 97, 117, 108, 116, 32, 114, 101, 102, 114, 101, 115, 104]
}

/// The command refreshing the service so the properties take effect.
pub fn vec_crdb_refresh() -> (r: Vec<u8>)
    ensures
        r@ == txt_crdb_refresh(),
{
    let a: [u8; 66] = [47u8, 117, 115, 114, 47, 115, 98, 105, 110, 47, 115, 118, 99, 99, 102, 103, 32, 45, 115, 32, 115, 118, 99, 58, 115, 121, 115, 116, 101, 109, 47, 105, 108, 108, 117, 109, 111, 115, 47, 99, 111, 99, 107, 114, 111, 97, 99, 104, 100, 98, 58, 100, 101, 102, 97, 117, 108, 116, 32, 114, 101, 102, 114, 101, 115, 104];
    let r = copy_bytes(a.as_slice());
    assert(r@ =~= txt_crdb_refresh());
    r
}
/// The command enabling the service.
pub open spec fn txt_crdb_enable() -> Seq<u8> {
    seq![47u8, 117, 115, 114, 47, 115, 98, 105, 110, 47, 115, 118, 99, 97, 100, 109, 32, 101, 110, 97, 98, 108, 101, 32, 45, 116, 32, 115, 118, 99, 58, 47, 115, 121, 115, 116, 101, 109, 47, 105, 108, 108, 117, 109, 111, 115, 47, 99, 111, 99, 107, 114, 111, 97, 99, 104, 100, 98, 58, 100, 101, 102, 97, 117, 108, 116]
}

/// The command enabling the service.
pub fn vec_crdb_enable() -> (r: Vec<u8>)
    ensures
        r@ == txt_crdb_enable(),
{
    let a: [u8; 66] = [47u8, 117, 115, 114, 47, 115, 98, 105, 110, 47, 115, 118, 99, 97, 100, 109, 32, 101, 110, 97, 98, 108, 101, 32, 45, 116, 32, 115, 118, 99, 58, 47, 115, 121, 115, 116, 101, 109, 47, 105, 108, 108, 117, 109, 111, 115, 47, 99, 111, 99, 107, 114, 111, 97, 99, 104, 100, 98, 58, 100, 101, 102, 97, 117, 108, 116];
    let r = copy_bytes(a.as_slice());
    assert(r@ =~= txt_crdb_enable());
    r
}

pub open spec fn spec_service_name(k: DatasetKind) -> Seq<u8> {
    match k {
        DatasetKind::CockroachDb => txt_cockroachdb(),
        DatasetKind::Crucible => txt_crucible(),
        DatasetKind::Clickhouse => txt_clickhouse(),
    }
}

/// Kinds with a startup procedure; the others are rejected before any
/// side effect takes place.
pub open spec fn spec_kind_supported(k: DatasetKind) -> bool {
    k is CockroachDb
}

impl DatasetKind {
    /// The dataset (and zone) name this kind of service uses.
    pub fn service_name(&self) -> (r: Vec<u8>)
        ensures
            r@ == spec_service_name(*self),
    {
        match self {
            DatasetKind::CockroachDb => vec_cockroachdb(),
            DatasetKind::Crucible => vec_crucible(),
            DatasetKind::Clickhouse => vec_clickhouse(),
        }
    }

    /// Whether a startup procedure exists for this kind.
    pub fn supported(&self) -> (r: bool)
        ensures
            r == spec_kind_supported(*self),
    {
        match self {
            DatasetKind::CockroachDb => true,
            _ => false,
        }
    }
}

/// The name of a dataset: the pool it lives in, and its own name within
/// that pool.
pub struct DatasetName {
    pub pool_name: Vec<u8>,
    pub dataset_name: Vec<u8>,
}

/// The fully qualified dataset path `<pool>/<dataset>`.
pub open spec fn spec_full_name(pool: Seq<u8>, dataset: Seq<u8>) -> Seq<u8> {
    pool + seq![47u8] + dataset
}

impl DatasetName {
    pub fn new(pool_name: &[u8], dataset_name: &[u8]) -> (r: Self)
        ensures
            r.pool_name@ == pool_name@,
            r.dataset_name@ == dataset_name@,
    {
        DatasetName { pool_name: copy_bytes(pool_name), dataset_name: copy_bytes(dataset_name) }
    }

    pub fn full(&self) -> (r: Vec<u8>)
        ensures
            r@ == spec_full_name(self.pool_name@, self.dataset_name@),
    {
        let mut r = copy_bytes(self.pool_name.as_slice());
        r.push(47);
        append_bytes(&mut r, self.dataset_name.as_slice());
        assert(r@ =~= spec_full_name(self.pool_name@, self.dataset_name@));
        r
    }
}

/// A byte that may stand inside a quoted field of the persisted
/// configuration: anything but a quote or a line break.
pub open spec fn field_byte_ok(c: u8) -> bool {
    c != 34 && c != 10
}

pub open spec fn field_text_ok(s: Seq<u8>) -> bool {
    forall|i: int| 0 <= i < s.len() ==> field_byte_ok(#[trigger] s[i])
}

/// Declarative description of one dataset to be materialized as a zone.
pub struct InfoModel {
    pub name: Seq<u8>,
    pub data_directory: Seq<u8>,
    pub address: NetAddress,
    pub kind: DatasetKind,
}

/// The descriptor is internally consistent: its name is the one its kind
/// dictates, and its fields can stand inside the persisted configuration.
pub open spec fn info_wf(m: InfoModel) -> bool {
    &&& m.name == spec_service_name(m.kind)
    &&& field_text_ok(m.data_directory)
}

/// Declarative description of one dataset to be materialized as a zone.
pub struct PartitionInfo {
    /// The dataset's logical name; determined by the service kind.
    pub name: Vec<u8>,
    /// The data directory inside the zone.
    pub data_directory: Vec<u8>,
    /// The address the service listens on.
    pub address: NetAddress,
    /// The kind of service backing the dataset.
    pub kind: DatasetKind,
}

impl View for PartitionInfo {
    type V = InfoModel;

    open spec fn view(&self) -> InfoModel {
        InfoModel {
            name: self.name@,
            data_directory: self.data_directory@,
            address: self.address,
            kind: self.kind,
        }
    }
}

impl PartitionInfo {
    /// The descriptor is internally consistent.
    pub open spec fn wf(&self) -> bool {
        info_wf(self@)
    }

    /// Builds the descriptor for one dataset of the given kind.
    pub fn new(kind: DatasetKind, address: NetAddress) -> (r: PartitionInfo)
        ensures
            r.kind == kind,
            r.address == address,
            r.name@ == spec_service_name(kind),
            r.data_directory@ == txt_data_directory(),
            r.wf(),
    {
        let name = kind.service_name();
        let r = PartitionInfo { name, data_directory: vec_data_directory(), address, kind };
        proof {
            lemma_data_directory_field_ok();
        }
        r
    }

    /// The name prefix of the zone hosting this dataset:
    /// `oxz_<service name>_`.
    pub fn zone_prefix(&self) -> (r: Vec<u8>)
        ensures
            r@ == spec_zone_prefix(self.name@),
    {
        let mut r = vec_zone_prefix();
        append_bytes(&mut r, self.name.as_slice());
        r.push(95);
        assert(r@ =~= spec_zone_prefix(self.name@));
        r
    }

    /// The path of the image the zone for this dataset boots from:
    /// `/opt/oxide/<service name>.tar.gz`.
    pub fn zone_image(&self) -> (r: Vec<u8>)
        ensures
            r@ == spec_zone_image(self.name@),
    {
        let mut r = vec_image_dir();
        append_bytes(&mut r, self.name.as_slice());
        let suffix = vec_image_suffix();
        append_bytes(&mut r, suffix.as_slice());
        assert(r@ =~= spec_zone_image(self.name@));
        r
    }

    /// The startup procedure for this dataset's service: the commands run
    /// inside the freshly located or booted zone. Kinds without one are
    /// rejected with `supported` before any is derived.
    pub fn startup_commands(&self) -> (r: Option<Vec<Vec<u8>>>)
        ensures
            match r {
                Some(cmds) => spec_kind_supported(self.kind) && cmds.deep_view()
                    == spec_startup_commands(self.data_directory@, self.address),
                None => !spec_kind_supported(self.kind),
            },
    {
        match self.kind {
            DatasetKind::CockroachDb => {
                let mut cmds: Vec<Vec<u8>> = Vec::new();
                cmds.push(vec_crdb_import());
                let mut listen = vec_crdb_listen_prefix();
                write_addr(&self.address, &mut listen);
                cmds.push(listen);
                let mut store = vec_crdb_store_prefix();
                append_bytes(&mut store, self.data_directory.as_slice());
                cmds.push(store);
                cmds.push(vec_crdb_join());
                cmds.push(vec_crdb_refresh());
                cmds.push(vec_crdb_enable());
                proof {
                    assert(cmds.deep_view() =~~= spec_startup_commands(
                        self.data_directory@,
                        self.address,
                    ));
                }
                Some(cmds)
            },
            _ => None,
        }
    }
}

pub open spec fn spec_zone_prefix(name: Seq<u8>) -> Seq<u8> {
    txt_zone_prefix() + name + seq![95u8]
}

pub open spec fn spec_zone_image(name: Seq<u8>) -> Seq<u8> {
    txt_image_dir() + name + txt_image_suffix()
}

/// The startup procedure of a CockroachDb dataset, as command lines.
pub open spec fn spec_startup_commands(data_directory: Seq<u8>, address: NetAddress) -> Seq<
    Seq<u8>,
> {
    seq![
        txt_crdb_import(),
        txt_crdb_listen_prefix() + spec_format_addr(address),
        txt_crdb_store_prefix() + data_directory,
        txt_crdb_join(),
        txt_crdb_refresh(),
        txt_crdb_enable(),
    ]
}

/// The default data directory contains no quote and no line break.
pub proof fn lemma_data_directory_field_ok()
    ensures
        field_text_ok(txt_data_directory()),
{
}

} // verus!
