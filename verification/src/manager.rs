//! The storage manager.
//!
//! The manager holds the authoritative pool inventory, materializes datasets
//! inside zones backed by those pools, persists dataset configuration so
//! zones can be rebuilt after a reboot, and queues outbound notifications
//! that tell the control plane what storage exists. All host interaction
//! goes through the [`StorageSystem`] model.

use vstd::prelude::*;
use crate::bytes::append_bytes;
use crate::bytes::bytes_eq;
use crate::bytes::copy_bytes;
use crate::config::parse_config;
use crate::config::encode_config;
use crate::config::spec_encode_config;
use crate::config::spec_parse_config;
use crate::dataset::DatasetKind;
use crate::dataset::DatasetName;
use crate::dataset::InfoModel;
use crate::dataset::PartitionInfo;
use crate::dataset::spec_full_name;
use crate::dataset::spec_kind_supported;
use crate::dataset::spec_startup_commands;
use crate::dataset::spec_zone_prefix;
use crate::dataset::spec_service_name;
use crate::dataset::txt_data_directory;
use crate::error::Error;
use crate::ids::uuid_of;
use crate::ids::generate_uuid;
use crate::net::NetAddress;
use crate::num::dec_rep;
use crate::num::write_dec_u64;
use crate::pool::Pool;
use crate::pool::PoolModel;
use crate::pool::lemma_spec_add_zone;
use crate::pool::pool_has_zone;
use crate::pool::pool_wf;
use crate::pool::pool_zone;
use crate::pool::spec_add_zone;
use crate::system::PropState;
use crate::system::StorageSystem;
use crate::system::SystemModel;
use crate::system::ZoneModel;
use crate::system::find_zone;
use crate::system::fs_prop;
use crate::system::fs_index;
use crate::system::name_listed;
use crate::system::spec_boot_zone;
use crate::system::spec_ensure_fs;
use crate::system::lemma_ensure_fs_props;
use crate::system::lemma_set_prop_props;
use crate::system::spec_run_command;
use crate::system::spec_set_prop;
use crate::system::sys_has_fs;
use crate::system::sys_has_config;
use crate::system::sys_has_listing;
use crate::system::listing_size;
use crate::system::config_data;
use crate::system::fs_names_under;
use crate::system::spec_write_config;
use crate::system::sys_wf;

verus! {

/// An outbound message for the control plane, queued by the manager and
/// delivered (with retries) by the caller that drives it.
#[derive(Clone, Copy, PartialEq, Eq, Structural, Debug)]
pub enum Notification {
    /// A pool exists on this sled, with the given capacity in bytes.
    PoolExists { pool_id: u128, size: u64 },
    /// A dataset exists within a pool, serving the given kind at the given
    /// address.
    DatasetExists { pool_id: u128, dataset_id: u128, address: NetAddress, kind: DatasetKind },
}

/// Text `vnic`, the stem of allocated network-interface names.
pub open spec fn txt_vnic() -> Seq<u8> {
    seq![118u8, 110, 105, 99]
}

fn vec_vnic() -> (r: Vec<u8>)
    ensures
        r@ == txt_vnic(),
{
    let a: [u8; 4] = [118u8, 110, 105, 99];
    let r = copy_bytes(a.as_slice());
    assert(r@ =~= txt_vnic());
    r
}

/// The interface-identifier counter after one allocation.
pub open spec fn spec_next_vnic(c: u64) -> u64 {
    if c == u64::MAX {
        0
    } else {
        (c + 1) as u64
    }
}

/// The name of the interface allocated at counter value `c`.
pub open spec fn spec_vnic_name(c: u64) -> Seq<u8> {
    txt_vnic() + dec_rep(c as nat)
}

/// Idempotently ensuring that a dataset exists as a filesystem carrying an
/// identity: create the filesystem if absent, read the stamped identity
/// back, and only if none is readable stamp `fresh`.
pub open spec fn spec_ensure_dataset(m: SystemModel, name: Seq<u8>, fresh: u128) -> (
    SystemModel,
    u128,
) {
    let m1 = spec_ensure_fs(m, name);
    match fs_prop(m1, name) {
        PropState::Id(id) => (m1, id),
        _ => (spec_set_prop(m1, name, PropState::Id(fresh)), fresh),
    }
}

/// Running a sequence of commands inside a zone, in order.
pub open spec fn spec_run_commands(m: SystemModel, zone: Seq<u8>, cmds: Seq<Seq<u8>>) -> SystemModel
    decreases cmds.len(),
{
    if cmds.len() == 0 {
        m
    } else {
        spec_run_commands(spec_run_command(m, zone, cmds[0]), zone, cmds.subrange(
            1,
            cmds.len() as int,
        ))
    }
}

/// The state after one dataset materialization step.
pub struct InitOutcome {
    pub pool: PoolModel,
    pub vnic: u64,
    pub sys: SystemModel,
    pub result: Result<(bool, u128), Error>,
}

/// Materializing one dataset within a pool (`fresh` is the identity stamped
/// if the filesystem carries none):
/// ensure the backing filesystem and its identity, stop if the pool already
/// records a zone for that identity, otherwise locate or boot a zone, run
/// the service's startup procedure inside it, and record it.
pub open spec fn spec_initialize(
    pool: PoolModel,
    vnic: u64,
    m: SystemModel,
    info: InfoModel,
    fresh: u128,
) -> InitOutcome {
    let full = spec_full_name(pool.name, info.name);
    let md = spec_ensure_dataset(m, full, fresh);
    let m1 = md.0;
    let id = md.1;
    if pool_has_zone(pool, id) {
        InitOutcome { pool, vnic, sys: m1, result: Ok((false, id)) }
    } else {
        let prefix = spec_zone_prefix(info.name);
        match find_zone(m1.zones, prefix, info.address) {
            Some(z) => spec_start_and_record(pool, vnic, m1, info, id, z),
            None => {
                let zname = prefix + pool.name;
                let vnic2 = spec_next_vnic(vnic);
                if name_listed(m1.install_refused, zname) {
                    InitOutcome { pool, vnic: vnic2, sys: m1, result: Err(Error::ZoneConfiguration) }
                } else if name_listed(m1.boot_refused, zname) {
                    InitOutcome { pool, vnic: vnic2, sys: m1, result: Err(Error::ZoneManagement) }
                } else {
                    let z = ZoneModel { name: zname, address: info.address };
                    spec_start_and_record(pool, vnic2, spec_boot_zone(m1, z), info, id, z)
                }
            },
        }
    }
}

/// The tail of materialization once a zone is at hand: run the startup
/// procedure (failing for kinds without one) and record the zone.
pub open spec fn spec_start_and_record(
    pool: PoolModel,
    vnic: u64,
    m: SystemModel,
    info: InfoModel,
    id: u128,
    z: ZoneModel,
) -> InitOutcome {
    if !spec_kind_supported(info.kind) {
        InitOutcome { pool, vnic, sys: m, result: Err(Error::UnsupportedServiceKind) }
    } else {
        let m2 = spec_run_commands(m, z.name, spec_startup_commands(info.data_directory, info.address));
        InitOutcome { pool: spec_add_zone(pool, id, z), vnic, sys: m2, result: Ok((true, id)) }
    }
}

/// The sled-local view of all attached storage: the pool inventory, the
/// interface-name allocator, and the queue of notifications not yet
/// delivered to the control plane.
pub struct StorageManager {
    pub sled_id: u128,
    pub pools: Vec<Pool>,
    pub vnic_counter: u64,
    pub notifications: Vec<Notification>,
}

pub struct ManagerModel {
    pub sled_id: u128,
    pub pools: Seq<PoolModel>,
    pub vnic_counter: u64,
    pub notifications: Seq<Notification>,
}

impl View for StorageManager {
    type V = ManagerModel;

    open spec fn view(&self) -> ManagerModel {
        ManagerModel {
            sled_id: self.sled_id,
            pools: self.pools@.map_values(|p: Pool| p@),
            vnic_counter: self.vnic_counter,
            notifications: self.notifications@,
        }
    }
}

/// Pool identities are unique and every pool record is well-formed.
pub open spec fn pools_wf(ps: Seq<PoolModel>) -> bool {
    &&& forall|i: int, j: int| 0 <= i < j < ps.len() ==> ps[i].id != ps[j].id
    &&& forall|i: int| 0 <= i < ps.len() ==> pool_wf(#[trigger] ps[i])
}

pub open spec fn mgr_wf(m: ManagerModel) -> bool {
    pools_wf(m.pools)
}

/// Replacing a pool record by one with the same identity keeps the
/// inventory well-formed.
pub proof fn lemma_pools_update_wf(ps: Seq<PoolModel>, i: int, p: PoolModel)
    requires
        pools_wf(ps),
        0 <= i < ps.len(),
        p.id == ps[i].id,
        pool_wf(p),
    ensures
        pools_wf(ps.update(i, p)),
{
    let qs = ps.update(i, p);
    assert forall|i2: int, j2: int| 0 <= i2 < j2 < qs.len() implies qs[i2].id != qs[j2].id by {
        assert(ps[i2].id != ps[j2].id);
    }
    assert forall|k: int| 0 <= k < qs.len() implies pool_wf(#[trigger] qs[k]) by {
        if k != i {
            assert(qs[k] == ps[k]);
        }
    }
}

/// Adding a pool with a fresh identity keeps the inventory well-formed.
pub proof fn lemma_pools_push_wf(ps: Seq<PoolModel>, p: PoolModel)
    requires
        pools_wf(ps),
        pool_wf(p),
        forall|i: int| 0 <= i < ps.len() ==> ps[i].id != p.id,
    ensures
        pools_wf(ps.push(p)),
{
    let qs = ps.push(p);
    assert forall|i2: int, j2: int| 0 <= i2 < j2 < qs.len() implies qs[i2].id != qs[j2].id by {
        if j2 < ps.len() {
            assert(ps[i2].id != ps[j2].id);
        } else {
            assert(qs[i2] == ps[i2]);
        }
    }
    assert forall|k: int| 0 <= k < qs.len() implies pool_wf(#[trigger] qs[k]) by {
        if k < ps.len() {
            assert(qs[k] == ps[k]);
        }
    }
}

pub open spec fn mgr_has_pool(m: ManagerModel, pool_id: u128) -> bool {
    exists|i: int| 0 <= i < m.pools.len() && m.pools[i].id == pool_id
}

pub open spec fn mgr_pool_index(m: ManagerModel, pool_id: u128) -> int {
    choose|i: int| 0 <= i < m.pools.len() && m.pools[i].id == pool_id
}

pub proof fn lemma_mgr_pool_index_is(m: ManagerModel, pool_id: u128, i: int)
    requires
        mgr_wf(m),
        0 <= i < m.pools.len(),
        m.pools[i].id == pool_id,
    ensures
        mgr_has_pool(m, pool_id),
        mgr_pool_index(m, pool_id) == i,
{
    assert(mgr_has_pool(m, pool_id));
    let j = mgr_pool_index(m, pool_id);
    if i != j {
        assert(m.pools[i].id != m.pools[j].id);
    }
}

impl StorageManager {
    /// A manager for the given sled with an empty inventory, no pending
    /// notifications, and a fresh interface allocator.
    pub fn new(sled_id: u128) -> (r: StorageManager)
        ensures
            r@.sled_id == sled_id,
            r@.pools.len() == 0,
            r@.vnic_counter == 0,
            r@.notifications.len() == 0,
            mgr_wf(r@),
    {
        StorageManager {
            sled_id,
            pools: Vec::new(),
            vnic_counter: 0,
            notifications: Vec::new(),
        }
    }

    /// Idempotently ensures the named dataset exists as a filesystem
    /// carrying an identity, and returns that identity. The identity is
    /// generated once, the first time the dataset is materialized, and read
    /// back ever after.
    pub fn ensure_dataset_with_id(sys: &mut StorageSystem, dataset_name: &DatasetName) -> (r: u128)
        requires
            sys_wf(old(sys)@),
        ensures
            sys_wf(final(sys)@),
            ({
                let md = spec_ensure_dataset(
                    old(sys)@,
                    spec_full_name(dataset_name.pool_name@, dataset_name.dataset_name@),
                    r,
                );
                final(sys)@ == md.0 && r == md.1
            }),
    {
        let full = dataset_name.full();
        sys.ensure_filesystem(full.as_slice());
        match sys.get_fs_prop(full.as_slice()) {
            Some(PropState::Id(id)) => id,
            Some(_) => {
                let fresh = generate_uuid();
                sys.set_fs_prop(full.as_slice(), PropState::Id(fresh));
                fresh
            },
            None => {
                proof {
                    assert(sys_has_fs(sys@, full@));
                }
                unreached()
            },
        }
    }

    /// Allocates the next network-interface name.
    fn allocate_vnic_name(vnic_counter: &mut u64) -> (r: Vec<u8>)
        ensures
            r@ == spec_vnic_name(*old(vnic_counter)),
            *final(vnic_counter) == spec_next_vnic(*old(vnic_counter)),
    {
        let c = *vnic_counter;
        if c == u64::MAX {
            *vnic_counter = 0;
        } else {
            *vnic_counter = c + 1;
        }
        let mut r = vec_vnic();
        write_dec_u64(c, &mut r);
        assert(r@ =~= spec_vnic_name(c));
        r
    }

    /// Allocates a network interface and installs a zone for the dataset:
    /// the zone name joins the service's zone prefix with the pool name, and
    /// the image is the service's own. The host may refuse the installation.
    fn configure_zone(
        vnic_counter: &mut u64,
        partition_info: &PartitionInfo,
        dataset_name: &DatasetName,
        sys: &mut StorageSystem,
    ) -> (r: Result<(Vec<u8>, Vec<u8>), Error>)
        ensures
            *final(sys) == *old(sys),
            *final(vnic_counter) == spec_next_vnic(*old(vnic_counter)),
            ({
                let zname = spec_zone_prefix(partition_info.name@) + dataset_name.pool_name@;
                match r {
                    Ok(p) => p.0@ == spec_vnic_name(*old(vnic_counter)) && p.1@ == zname
                        && !name_listed(old(sys)@.install_refused, zname),
                    Err(e) => e == Error::ZoneConfiguration && name_listed(
                        old(sys)@.install_refused,
                        zname,
                    ),
                }
            }),
    {
        let vnic = Self::allocate_vnic_name(vnic_counter);
        let mut zname = partition_info.zone_prefix();
        append_bytes(&mut zname, dataset_name.pool_name.as_slice());
        let image = partition_info.zone_image();
        let full = dataset_name.full();
        match sys.install_zone(zname.as_slice(), image.as_slice(), full.as_slice(), vnic.as_slice())
        {
            Ok(()) => Ok((vnic, zname)),
            Err(e) => Err(e),
        }
    }

    /// Reuses the running zone for this dataset if one is already up at the
    /// expected name and address; otherwise installs and boots one.
    fn ensure_running_zone(
        vnic_counter: &mut u64,
        partition_info: &PartitionInfo,
        dataset_name: &DatasetName,
        sys: &mut StorageSystem,
    ) -> (r: Result<crate::system::LiveZone, Error>)
        ensures
            sys_wf(old(sys)@) ==> sys_wf(final(sys)@),
            ({
                let prefix = spec_zone_prefix(partition_info.name@);
                let zname = prefix + dataset_name.pool_name@;
                let addr = partition_info.address;
                match r {
                    Ok(z) => match find_zone(old(sys)@.zones, prefix, addr) {
                        Some(zz) => z@ == zz && *final(sys) == *old(sys) && *final(vnic_counter)
                            == *old(vnic_counter),
                        None => !name_listed(old(sys)@.install_refused, zname) && !name_listed(
                            old(sys)@.boot_refused,
                            zname,
                        ) && z@ == (ZoneModel { name: zname, address: addr }) && final(sys)@
                            == spec_boot_zone(old(sys)@, z@) && *final(vnic_counter)
                            == spec_next_vnic(*old(vnic_counter)),
                    },
                    Err(e) => find_zone(old(sys)@.zones, prefix, addr) is None && *final(sys)
                        == *old(sys) && *final(vnic_counter) == spec_next_vnic(*old(vnic_counter))
                        && ((e == Error::ZoneConfiguration && name_listed(
                        old(sys)@.install_refused,
                        zname,
                    )) || (e == Error::ZoneManagement && !name_listed(
                        old(sys)@.install_refused,
                        zname,
                    ) && name_listed(old(sys)@.boot_refused, zname))),
                }
            }),
    {
        let prefix = partition_info.zone_prefix();
        match sys.locate_zone(prefix.as_slice(), partition_info.address) {
            Some(z) => Ok(z),
            None => {
                let pair = match Self::configure_zone(vnic_counter, partition_info, dataset_name, sys) {
                    Ok(p) => p,
                    Err(e) => {
                        return Err(e);
                    },
                };
                sys.boot_zone(pair.1.as_slice(), partition_info.address)
            },
        }
    }

    /// Runs the service-specific startup procedure inside the zone; kinds
    /// without one are rejected.
    fn start_zone(
        partition_info: &PartitionInfo,
        zone: &crate::system::LiveZone,
        sys: &mut StorageSystem,
    ) -> (r: Result<(), Error>)
        ensures
            sys_wf(old(sys)@) ==> sys_wf(final(sys)@),
            match r {
                Ok(()) => spec_kind_supported(partition_info.kind) && final(sys)@
                    == spec_run_commands(
                    old(sys)@,
                    zone@.name,
                    spec_startup_commands(partition_info.data_directory@, partition_info.address),
                ),
                Err(e) => e == Error::UnsupportedServiceKind && !spec_kind_supported(
                    partition_info.kind,
                ) && *final(sys) == *old(sys),
            },
    {
        let cmds = match partition_info.startup_commands() {
            Some(c) => c,
            None => {
                return Err(Error::UnsupportedServiceKind);
            },
        };
        let ghost all = cmds.deep_view();
        let ghost target = spec_run_commands(sys@, zone@.name, all);
        proof {
            assert(all.subrange(0, all.len() as int) =~= all);
        }
        let mut i: usize = 0;
        while i < cmds.len()
            invariant
                i <= cmds.len(),
                cmds.deep_view() == all,
                sys_wf(old(sys)@) ==> sys_wf(sys@),
                spec_run_commands(sys@, zone@.name, all.subrange(i as int, all.len() as int))
                    == target,
            decreases cmds.len() - i,
        {
            let text = copy_bytes(cmds[i].as_slice());
            let ghost before = sys@;
            sys.run_command(zone.name.as_slice(), text);
            proof {
                assert(all.subrange(i as int, all.len() as int).subrange(
                    1,
                    all.subrange(i as int, all.len() as int).len() as int,
                ) =~= all.subrange(i + 1, all.len() as int));
                assert(all.subrange(i as int, all.len() as int)[0] == all[i as int]);
                assert(text@ == all[i as int]);
                assert(sys@ == spec_run_command(before, zone@.name, all[i as int]));
            }
            i += 1;
        }
        proof {
            assert(all.subrange(all.len() as int, all.len() as int) =~= Seq::<Seq<u8>>::empty());
        }
        Ok(())
    }

    /// Materializes one dataset within a pool, starting a zone for it.
    ///
    /// Returns whether a zone was newly set up, and the identity stamped on
    /// the dataset's filesystem — the same identity on every call for the
    /// same pool and descriptor.
    pub fn initialize_partition(
        pool: &mut Pool,
        vnic_counter: &mut u64,
        sys: &mut StorageSystem,
        partition_info: &PartitionInfo,
    ) -> (r: Result<(bool, u128), Error>)
        requires
            pool_wf(old(pool)@),
            sys_wf(old(sys)@),
            partition_info.wf(),
        ensures
            pool_wf(final(pool)@),
            sys_wf(final(sys)@),
            final(pool)@.id == old(pool)@.id,
            final(pool)@.name == old(pool)@.name,
            final(pool)@.size == old(pool)@.size,
            match r {
                Ok(p) => (InitOutcome {
                    pool: final(pool)@,
                    vnic: *final(vnic_counter),
                    sys: final(sys)@,
                    result: Ok(p),
                }) == spec_initialize(
                    old(pool)@,
                    *old(vnic_counter),
                    old(sys)@,
                    partition_info@,
                    p.1,
                ),
                Err(e) => exists|f: u128|
                    (InitOutcome {
                        pool: final(pool)@,
                        vnic: *final(vnic_counter),
                        sys: final(sys)@,
                        result: Err(e),
                    }) == spec_initialize(
                        old(pool)@,
                        *old(vnic_counter),
                        old(sys)@,
                        partition_info@,
                        f,
                    ),
            },
    {
        let dataset_name = DatasetName::new(pool.name.as_slice(), partition_info.name.as_slice());
        let id = Self::ensure_dataset_with_id(sys, &dataset_name);
        let ghost m1 = sys@;
        let already = match pool.get_zone(id) {
            Some(_) => true,
            None => false,
        };
        if already {
            return Ok((false, id));
        }
        let zone = match Self::ensure_running_zone(vnic_counter, partition_info, &dataset_name, sys)
        {
            Ok(z) => z,
            Err(e) => {
                proof {
                    let o = spec_initialize(
                        old(pool)@,
                        *old(vnic_counter),
                        old(sys)@,
                        partition_info@,
                        id,
                    );
                    assert(o.result == Err::<(bool, u128), Error>(e));
                }
                return Err(e);
            },
        };
        let ghost zmodel = zone@;
        match Self::start_zone(partition_info, &zone, sys) {
            Ok(()) => {},
            Err(e) => {
                proof {
                    let o = spec_initialize(
                        old(pool)@,
                        *old(vnic_counter),
                        old(sys)@,
                        partition_info@,
                        id,
                    );
                    assert(o.result == Err::<(bool, u128), Error>(e));
                }
                return Err(e);
            },
        }
        proof {
            lemma_spec_add_zone(pool@, id, zmodel);
        }
        pool.add_zone(id, zone);
        Ok((true, id))
    }
}

/// One dataset recovered or materialized: its identity, the address its
/// zone serves, and its service kind.
#[derive(Clone, Copy, PartialEq, Eq, Structural, Debug)]
pub struct DatasetRecord {
    pub dataset_id: u128,
    pub address: NetAddress,
    pub kind: DatasetKind,
}

/// The state after loading one persisted dataset.
pub struct LoadOutcome {
    pub pool: PoolModel,
    pub vnic: u64,
    pub sys: SystemModel,
    pub result: Result<DatasetRecord, Error>,
}

/// Rebuilding one dataset of a pool from its filesystem: read the stamped
/// identity, load the persisted configuration it points at, and re-run
/// materialization with the recorded descriptor. Fails without any effect
/// when the identity is missing or unreadable, or when the configuration is
/// missing, corrupt, or inconsistent with the filesystem it is for.
pub open spec fn spec_load(pool: PoolModel, vnic: u64, m: SystemModel, fs_name: Seq<u8>) -> LoadOutcome {
    if !sys_has_fs(m, fs_name) {
        LoadOutcome { pool, vnic, sys: m, result: Err(Error::Identity) }
    } else {
        match fs_prop(m, fs_name) {
            PropState::Id(id) => {
                if !sys_has_config(m, pool.id, id) {
                    LoadOutcome { pool, vnic, sys: m, result: Err(Error::Persistence) }
                } else {
                    match spec_parse_config(config_data(m, pool.id, id)) {
                        Some(t) => {
                            let info = InfoModel {
                                name: spec_service_name(t.0),
                                data_directory: t.1,
                                address: t.2,
                                kind: t.0,
                            };
                            if spec_full_name(pool.name, info.name) != fs_name {
                                LoadOutcome { pool, vnic, sys: m, result: Err(Error::Persistence) }
                            } else {
                                let o = spec_initialize(pool, vnic, m, info, 0);
                                match o.result {
                                    Ok(p) => LoadOutcome {
                                        pool: o.pool,
                                        vnic: o.vnic,
                                        sys: o.sys,
                                        result: Ok(DatasetRecord {
                                            dataset_id: p.1,
                                            address: pool_zone(o.pool, p.1).address,
                                            kind: t.0,
                                        }),
                                    },
                                    Err(e) => LoadOutcome { pool: o.pool, vnic: o.vnic, sys: o.sys, result: Err(e) },
                                }
                            }
                        },
                        None => LoadOutcome { pool, vnic, sys: m, result: Err(Error::Persistence) },
                    }
                }
            },
            _ => LoadOutcome { pool, vnic, sys: m, result: Err(Error::Identity) },
        }
    }
}

/// When the dataset's filesystem already carries a stamped identity, the
/// stamp-if-absent fallback never runs: materialization does not depend on
/// the identity it would stamp, and a successful run returns the stamped one.
pub proof fn lemma_initialize_stamped(
    pool: PoolModel,
    vnic: u64,
    m: SystemModel,
    info: InfoModel,
    f1: u128,
    f2: u128,
    id: u128,
)
    requires
        sys_has_fs(m, spec_full_name(pool.name, info.name)),
        fs_prop(m, spec_full_name(pool.name, info.name)) == PropState::Id(id),
    ensures
        spec_initialize(pool, vnic, m, info, f1) == spec_initialize(pool, vnic, m, info, f2),
        spec_initialize(pool, vnic, m, info, f1).result matches Ok(p) ==> p.1 == id,
{
    let full = spec_full_name(pool.name, info.name);
    assert(spec_ensure_fs(m, full) == m);
    assert(spec_ensure_dataset(m, full, f1) == (m, id));
    assert(spec_ensure_dataset(m, full, f2) == (m, id));
}

/// A successful materialization leaves the pool holding a zone for the
/// returned identity.
pub proof fn lemma_initialize_ok_has_zone(
    pool: PoolModel,
    vnic: u64,
    m: SystemModel,
    info: InfoModel,
    f: u128,
)
    requires
        pool_wf(pool),
    ensures
        spec_initialize(pool, vnic, m, info, f).result matches Ok(p) ==> pool_has_zone(
            spec_initialize(pool, vnic, m, info, f).pool,
            p.1,
        ),
        spec_initialize(pool, vnic, m, info, f).pool.id == pool.id,
        spec_initialize(pool, vnic, m, info, f).pool.name == pool.name,
        spec_initialize(pool, vnic, m, info, f).pool.size == pool.size,
        pool_wf(spec_initialize(pool, vnic, m, info, f).pool),
{
    let o = spec_initialize(pool, vnic, m, info, f);
    let full = spec_full_name(pool.name, info.name);
    let md = spec_ensure_dataset(m, full, f);
    let id = md.1;
    if pool_has_zone(pool, id) {
    } else {
        let prefix = spec_zone_prefix(info.name);
        match find_zone(md.0.zones, prefix, info.address) {
            Some(z) => {
                if spec_kind_supported(info.kind) {
                    lemma_spec_add_zone(pool, id, z);
                }
            },
            None => {
                let zname = prefix + pool.name;
                if !name_listed(md.0.install_refused, zname) && !name_listed(
                    md.0.boot_refused,
                    zname,
                ) {
                    if spec_kind_supported(info.kind) {
                        lemma_spec_add_zone(pool, id, ZoneModel { name: zname, address: info.address });
                    }
                }
            },
        }
    }
}

/// Recovering a pool: walk its filesystems in order, loading each one; a
/// filesystem that fails to load is skipped and the rest are still
/// processed. Yields the records of the datasets that were recovered.
pub struct RecoverOutcome {
    pub pool: PoolModel,
    pub vnic: u64,
    pub sys: SystemModel,
    pub records: Seq<DatasetRecord>,
}

pub open spec fn spec_recover(pool: PoolModel, vnic: u64, m: SystemModel, names: Seq<Seq<u8>>) -> RecoverOutcome
    decreases names.len(),
{
    if names.len() == 0 {
        RecoverOutcome { pool, vnic, sys: m, records: Seq::empty() }
    } else {
        let o = spec_load(pool, vnic, m, names[0]);
        let rest = spec_recover(o.pool, o.vnic, o.sys, names.subrange(1, names.len() as int));
        let first: Seq<DatasetRecord> = match o.result {
            Ok(rec) => seq![rec],
            Err(_) => Seq::empty(),
        };
        RecoverOutcome { pool: rest.pool, vnic: rest.vnic, sys: rest.sys, records: first + rest.records }
    }
}

/// The notifications announcing a batch of datasets of one pool.
pub open spec fn dataset_notifications(pool_id: u128, recs: Seq<DatasetRecord>) -> Seq<Notification> {
    recs.map_values(
        |rec: DatasetRecord|
            Notification::DatasetExists {
                pool_id,
                dataset_id: rec.dataset_id,
                address: rec.address,
                kind: rec.kind,
            },
    )
}

/// The descriptor built for a fresh dataset request.
pub open spec fn spec_new_info(kind: DatasetKind, address: NetAddress) -> InfoModel {
    InfoModel {
        name: spec_service_name(kind),
        data_directory: txt_data_directory(),
        address,
        kind,
    }
}


// ---------------------------------------------------------------------------
// Laws of the materialization and recovery pipeline.
// ---------------------------------------------------------------------------

/// Running commands changes nothing but the command trace.
pub proof fn lemma_run_commands_fields(m: SystemModel, zone: Seq<u8>, cmds: Seq<Seq<u8>>)
    ensures
        ({
            let m2 = spec_run_commands(m, zone, cmds);
            &&& m2.filesystems == m.filesystems
            &&& m2.zones == m.zones
            &&& m2.configs == m.configs
            &&& m2.pools_present == m.pools_present
            &&& m2.install_refused == m.install_refused
            &&& m2.boot_refused == m.boot_refused
        }),
    decreases cmds.len(),
{
    if cmds.len() > 0 {
        lemma_run_commands_fields(
            spec_run_command(m, zone, cmds[0]),
            zone,
            cmds.subrange(1, cmds.len() as int),
        );
    }
}

/// After ensuring a dataset, its filesystem exists and carries exactly the
/// returned identity, and nothing else changed.
pub proof fn lemma_ensure_dataset_props(m: SystemModel, name: Seq<u8>, fresh: u128)
    requires
        sys_wf(m),
    ensures
        ({
            let md = spec_ensure_dataset(m, name, fresh);
            &&& sys_wf(md.0)
            &&& sys_has_fs(md.0, name)
            &&& fs_prop(md.0, name) == PropState::Id(md.1)
            &&& md.0.zones == m.zones
            &&& md.0.configs == m.configs
            &&& md.0.pools_present == m.pools_present
            &&& md.0.install_refused == m.install_refused
            &&& md.0.boot_refused == m.boot_refused
        }),
{
    lemma_ensure_fs_props(m, name);
    let m1 = spec_ensure_fs(m, name);
    match fs_prop(m1, name) {
        PropState::Id(_) => {},
        _ => {
            lemma_set_prop_props(m1, name, PropState::Id(fresh));
        },
    }
}

/// After a successful materialization, the dataset's filesystem still
/// carries the returned identity, and the host state is still well-formed.
pub proof fn lemma_initialize_ok_props(
    pool: PoolModel,
    vnic: u64,
    m: SystemModel,
    info: InfoModel,
    f: u128,
)
    requires
        sys_wf(m),
        spec_initialize(pool, vnic, m, info, f).result is Ok,
    ensures
        ({
            let o = spec_initialize(pool, vnic, m, info, f);
            let full = spec_full_name(pool.name, info.name);
            let id = o.result->Ok_0.1;
            &&& sys_wf(o.sys)
            &&& sys_has_fs(o.sys, full)
            &&& fs_prop(o.sys, full) == PropState::Id(id)
        }),
{
    let full = spec_full_name(pool.name, info.name);
    lemma_ensure_dataset_props(m, full, f);
    let md = spec_ensure_dataset(m, full, f);
    let m1 = md.0;
    let id = md.1;
    let o = spec_initialize(pool, vnic, m, info, f);
    if pool_has_zone(pool, id) {
    } else {
        let prefix = spec_zone_prefix(info.name);
        match find_zone(m1.zones, prefix, info.address) {
            Some(z) => {
                lemma_run_commands_fields(
                    m1,
                    z.name,
                    spec_startup_commands(info.data_directory, info.address),
                );
                assert(o.sys.filesystems == m1.filesystems);
                lemma_same_filesystems_same_fs(m1, o.sys, full);
            },
            None => {
                let zname = prefix + pool.name;
                let z = ZoneModel { name: zname, address: info.address };
                let m2 = spec_boot_zone(m1, z);
                lemma_run_commands_fields(
                    m2,
                    zname,
                    spec_startup_commands(info.data_directory, info.address),
                );
                assert(o.sys.filesystems == m1.filesystems);
                lemma_same_filesystems_same_fs(m1, o.sys, full);
            },
        }
    }
}

/// Two states with the same filesystems, configurations and pool listings
/// agree on what filesystems exist and what they carry, and on
/// well-formedness.
pub proof fn lemma_same_filesystems_same_fs(m1: SystemModel, m2: SystemModel, name: Seq<u8>)
    requires
        m1.filesystems == m2.filesystems,
        m1.configs == m2.configs,
        m1.pools_present == m2.pools_present,
    ensures
        sys_has_fs(m1, name) == sys_has_fs(m2, name),
        sys_has_fs(m1, name) ==> fs_prop(m1, name) == fs_prop(m2, name),
        sys_wf(m1) == sys_wf(m2),
{
    assert(sys_has_fs(m1, name) == sys_has_fs(m2, name));
    if sys_has_fs(m1, name) {
        assert(fs_index(m1, name) == fs_index(m2, name));
    }
}

/// Materializing the same dataset twice yields the same identity both
/// times, and the second run is a no-op: it creates no filesystem, boots no
/// zone, runs no command, and leaves the host and the pool exactly as the
/// first run left them.
pub proof fn lemma_initialize_idempotent(
    pool: PoolModel,
    vnic: u64,
    m: SystemModel,
    info: InfoModel,
    f1: u128,
    f2: u128,
)
    requires
        pool_wf(pool),
        sys_wf(m),
        spec_initialize(pool, vnic, m, info, f1).result is Ok,
    ensures
        ({
            let o1 = spec_initialize(pool, vnic, m, info, f1);
            let o2 = spec_initialize(o1.pool, o1.vnic, o1.sys, info, f2);
            &&& o2.result == Ok::<(bool, u128), Error>((false, o1.result->Ok_0.1))
            &&& o2.pool == o1.pool
            &&& o2.sys == o1.sys
            &&& o2.vnic == o1.vnic
        }),
{
    let o1 = spec_initialize(pool, vnic, m, info, f1);
    let id = o1.result->Ok_0.1;
    lemma_initialize_ok_props(pool, vnic, m, info, f1);
    lemma_initialize_ok_has_zone(pool, vnic, m, info, f1);
    let full = spec_full_name(pool.name, info.name);
    assert(o1.pool.name == pool.name);
    lemma_ensure_fs_props(o1.sys, full);
    assert(spec_ensure_fs(o1.sys, full) == o1.sys);
    assert(spec_ensure_dataset(o1.sys, full, f2) == (o1.sys, id));
    assert(pool_has_zone(o1.pool, id));
}

impl StorageManager {
    /// Rebuilds one dataset of `pool` from its filesystem and the persisted
    /// configuration its stamped identity points at.
    pub fn load_partition(
        pool: &mut Pool,
        vnic_counter: &mut u64,
        sys: &mut StorageSystem,
        fs_name: &[u8],
    ) -> (r: Result<DatasetRecord, Error>)
        requires
            pool_wf(old(pool)@),
            sys_wf(old(sys)@),
        ensures
            pool_wf(final(pool)@),
            sys_wf(final(sys)@),
            final(pool)@.id == old(pool)@.id,
            final(pool)@.name == old(pool)@.name,
            final(pool)@.size == old(pool)@.size,
            (LoadOutcome {
                pool: final(pool)@,
                vnic: *final(vnic_counter),
                sys: final(sys)@,
                result: r,
            }) == spec_load(old(pool)@, *old(vnic_counter), old(sys)@, fs_name@),
    {
        let id = match sys.get_fs_prop(fs_name) {
            Some(PropState::Id(id)) => id,
            _ => {
                return Err(Error::Identity);
            },
        };
        let data = match sys.read_config(pool.id, id) {
            Some(d) => d,
            None => {
                return Err(Error::Persistence);
            },
        };
        let info = match parse_config(data.as_slice()) {
            Some(i) => i,
            None => {
                return Err(Error::Persistence);
            },
        };
        let dn = DatasetName::new(pool.name.as_slice(), info.name.as_slice());
        let full = dn.full();
        if !bytes_eq(full.as_slice(), fs_name) {
            return Err(Error::Persistence);
        }
        let rr = Self::initialize_partition(pool, vnic_counter, sys, &info);
        match rr {
            Ok(p) => {
                proof {
                    lemma_initialize_stamped(
                        old(pool)@,
                        *old(vnic_counter),
                        old(sys)@,
                        info@,
                        p.1,
                        0,
                        id,
                    );
                    lemma_initialize_ok_has_zone(
                        old(pool)@,
                        *old(vnic_counter),
                        old(sys)@,
                        info@,
                        0,
                    );
                }
                let addr = match pool.get_zone(p.1) {
                    Some(z) => z.address,
                    None => unreached(),
                };
                Ok(DatasetRecord { dataset_id: p.1, address: addr, kind: info.kind })
            },
            Err(e) => {
                proof {
                    let f = choose|f: u128|
                        (InitOutcome {
                            pool: pool@,
                            vnic: *vnic_counter,
                            sys: sys@,
                            result: Err(e),
                        }) == spec_initialize(old(pool)@, *old(vnic_counter), old(sys)@, info@, f);
                    lemma_initialize_stamped(
                        old(pool)@,
                        *old(vnic_counter),
                        old(sys)@,
                        info@,
                        f,
                        0,
                        id,
                    );
                }
                Err(e)
            },
        }
    }
}


/// The state change of one dataset request against the pool at `zpool_id`,
/// parameterized by the identity `f` that would be stamped on a fresh
/// filesystem: materialization ran with the request's descriptor; a newly
/// materialized dataset also has its configuration persisted and exactly one
/// dataset notification queued; an already-materialized one changes nothing
/// further; a failure changes nothing beyond what materialization itself did.
pub open spec fn add_partition_post(
    pre_m: ManagerModel,
    pre_s: SystemModel,
    post_m: ManagerModel,
    post_s: SystemModel,
    zpool_id: u128,
    kind: DatasetKind,
    address: NetAddress,
    r: Result<(), Error>,
    f: u128,
) -> bool {
    let idx = mgr_pool_index(pre_m, zpool_id);
    let o = spec_initialize(
        pre_m.pools[idx],
        pre_m.vnic_counter,
        pre_s,
        spec_new_info(kind, address),
        f,
    );
    &&& post_m.pools == pre_m.pools.update(idx, o.pool)
    &&& post_m.vnic_counter == o.vnic
    &&& match r {
        Ok(()) => match o.result {
            Ok(p) => if p.0 {
                post_s == spec_write_config(
                    o.sys,
                    zpool_id,
                    p.1,
                    spec_encode_config(kind, txt_data_directory(), address),
                ) && post_m.notifications == pre_m.notifications.push(
                    Notification::DatasetExists {
                        pool_id: zpool_id,
                        dataset_id: p.1,
                        address: pool_zone(o.pool, p.1).address,
                        kind,
                    },
                )
            } else {
                post_s == o.sys && post_m.notifications == pre_m.notifications
            },
            Err(_) => false,
        },
        Err(e) => o.result == Err::<(bool, u128), Error>(e) && post_s == o.sys
            && post_m.notifications == pre_m.notifications,
    }
}


/// Recovery over a concatenation is recovery of the first part followed by
/// recovery of the second from where the first left off.
pub proof fn lemma_recover_append(
    pool: PoolModel,
    vnic: u64,
    m: SystemModel,
    n1: Seq<Seq<u8>>,
    n2: Seq<Seq<u8>>,
)
    ensures
        ({
            let whole = spec_recover(pool, vnic, m, n1 + n2);
            let o1 = spec_recover(pool, vnic, m, n1);
            let o2 = spec_recover(o1.pool, o1.vnic, o1.sys, n2);
            &&& whole.pool == o2.pool
            &&& whole.vnic == o2.vnic
            &&& whole.sys == o2.sys
            &&& whole.records == o1.records + o2.records
        }),
    decreases n1.len(),
{
    if n1.len() == 0 {
        assert(n1 + n2 =~= n2);
        let o2 = spec_recover(pool, vnic, m, n2);
        assert(Seq::<DatasetRecord>::empty() + o2.records =~= o2.records);
    } else {
        let s = n1 + n2;
        assert(s[0] == n1[0]);
        let o = spec_load(pool, vnic, m, n1[0]);
        assert(s.subrange(1, s.len() as int) =~= n1.subrange(1, n1.len() as int) + n2);
        lemma_recover_append(o.pool, o.vnic, o.sys, n1.subrange(1, n1.len() as int), n2);
        let first: Seq<DatasetRecord> = match o.result {
            Ok(rec) => seq![rec],
            Err(_) => Seq::empty(),
        };
        let r1 = spec_recover(o.pool, o.vnic, o.sys, n1.subrange(1, n1.len() as int));
        let o2 = spec_recover(r1.pool, r1.vnic, r1.sys, n2);
        assert(first + (r1.records + o2.records) =~= (first + r1.records) + o2.records);
    }
}

/// A filesystem whose persisted configuration is missing or corrupt fails
/// to load without any effect on the host or the pool.
pub proof fn lemma_load_corrupt_config(pool: PoolModel, vnic: u64, m: SystemModel, fs_name: Seq<u8>)
    requires
        ({
            ||| !sys_has_fs(m, fs_name)
            ||| !(fs_prop(m, fs_name) is Id)
            ||| (fs_prop(m, fs_name) matches PropState::Id(id) && (!sys_has_config(m, pool.id, id)
                || spec_parse_config(config_data(m, pool.id, id)) is None))
        }),
    ensures
        ({
            let l = spec_load(pool, vnic, m, fs_name);
            &&& l.result is Err
            &&& l.pool == pool
            &&& l.vnic == vnic
            &&& l.sys == m
        }),
{
}

/// Partial-failure isolation of the recovery walk: when one filesystem's
/// load fails without effect — as a missing or corrupt persisted
/// configuration does — the walk recovers exactly what it would have
/// recovered had that filesystem not been there at all: the same datasets,
/// the same host state, the same pool.
pub proof fn lemma_recover_isolation(
    pool: PoolModel,
    vnic: u64,
    m: SystemModel,
    names: Seq<Seq<u8>>,
    k: int,
)
    requires
        0 <= k < names.len(),
        ({
            let s = spec_recover(pool, vnic, m, names.subrange(0, k));
            let l = spec_load(s.pool, s.vnic, s.sys, names[k]);
            &&& l.result is Err
            &&& l.pool == s.pool
            &&& l.vnic == s.vnic
            &&& l.sys == s.sys
        }),
    ensures
        ({
            let whole = spec_recover(pool, vnic, m, names);
            let without = spec_recover(
                pool,
                vnic,
                m,
                names.subrange(0, k) + names.subrange(k + 1, names.len() as int),
            );
            &&& whole.pool == without.pool
            &&& whole.vnic == without.vnic
            &&& whole.sys == without.sys
            &&& whole.records == without.records
        }),
{
    let front = names.subrange(0, k);
    let middle = seq![names[k]];
    let back = names.subrange(k + 1, names.len() as int);
    assert(names =~= front + (middle + back));
    lemma_recover_append(pool, vnic, m, front, middle + back);
    let s = spec_recover(pool, vnic, m, front);
    lemma_recover_append(s.pool, s.vnic, s.sys, middle, back);
    let l = spec_load(s.pool, s.vnic, s.sys, names[k]);
    assert(middle[0] == names[k]);
    assert(middle.subrange(1, 1) =~= Seq::<Seq<u8>>::empty());
    let sm = spec_recover(s.pool, s.vnic, s.sys, middle);
    let rest = spec_recover(l.pool, l.vnic, l.sys, middle.subrange(1, 1));
    assert(rest.pool == l.pool && rest.vnic == l.vnic && rest.sys == l.sys && rest.records
        == Seq::<DatasetRecord>::empty());
    assert(sm.pool == s.pool && sm.vnic == s.vnic && sm.sys == s.sys);
    assert(sm.records =~= Seq::<DatasetRecord>::empty());
    lemma_recover_append(pool, vnic, m, front, back);
    let sb = spec_recover(s.pool, s.vnic, s.sys, back);
    let whole = spec_recover(pool, vnic, m, names);
    let without = spec_recover(pool, vnic, m, front + back);
    assert(whole.records =~= s.records + (Seq::<DatasetRecord>::empty() + sb.records));
    assert(whole.records =~= s.records + sb.records);
    assert(without.records == s.records + sb.records);
}

impl StorageManager {
    /// The position of the pool with the given identity, if it is in the
    /// inventory.
    fn find_pool_index(&self, pool_id: u128) -> (r: Option<usize>)
        requires
            mgr_wf(self@),
        ensures
            match r {
                Some(i) => i < self@.pools.len() && self@.pools[i as int].id == pool_id
                    && mgr_pool_index(self@, pool_id) == i,
                None => !mgr_has_pool(self@, pool_id),
            },
    {
        let mut i: usize = 0;
        while i < self.pools.len()
            invariant
                i <= self.pools.len(),
                mgr_wf(self@),
                forall|j: int| 0 <= j < i ==> self@.pools[j].id != pool_id,
            decreases self.pools.len() - i,
        {
            if self.pools[i].id == pool_id {
                proof {
                    lemma_mgr_pool_index_is(self@, pool_id, i as int);
                }
                return Some(i);
            }
            i += 1;
        }
        None
    }

    /// Announces a discovered pool.
    ///
    /// The pool is queried and its record inserted or refreshed. The first
    /// time a pool is seen, its existing filesystems are walked and their
    /// zones rebuilt from the persisted configurations (filesystems that
    /// fail to load are skipped, never aborting the walk), a pool-existence
    /// notification is queued, and one dataset notification per recovered
    /// dataset. A pool already in the inventory only has its capacity and
    /// name refreshed: no second discovery pass runs, nothing is
    /// re-provisioned, and no notification is queued.
    pub fn upsert_zpool(&mut self, name: &[u8], sys: &mut StorageSystem) -> (r: Result<(), Error>)
        requires
            mgr_wf(old(self)@),
            sys_wf(old(sys)@),
        ensures
            mgr_wf(final(self)@),
            sys_wf(final(sys)@),
            final(self)@.sled_id == old(self)@.sled_id,
            match r {
                Err(e) => *final(self) == *old(self) && *final(sys) == *old(sys) && ((e
                    == Error::PoolQuery && !sys_has_listing(old(sys)@, name@)) || (e
                    == Error::Identity && sys_has_listing(old(sys)@, name@) && uuid_of(name@) is None)),
                Ok(()) => sys_has_listing(old(sys)@, name@) && uuid_of(name@) is Some && ({
                    let pid = uuid_of(name@)->Some_0;
                    let size = listing_size(old(sys)@, name@);
                    if mgr_has_pool(old(self)@, pid) {
                        &&& *final(sys) == *old(sys)
                        &&& final(self)@.notifications == old(self)@.notifications
                        &&& final(self)@.vnic_counter == old(self)@.vnic_counter
                        &&& final(self)@.pools == old(self)@.pools.update(
                            mgr_pool_index(old(self)@, pid),
                            (PoolModel {
                                id: pid,
                                name: name@,
                                size,
                                zones: old(self)@.pools[mgr_pool_index(old(self)@, pid)].zones,
                            }),
                        )
                    } else {
                        let start = PoolModel { id: pid, name: name@, size, zones: Seq::empty() };
                        let o = spec_recover(
                            start,
                            old(self)@.vnic_counter,
                            old(sys)@,
                            fs_names_under(old(sys)@.filesystems, name@),
                        );
                        &&& final(sys)@ == o.sys
                        &&& final(self)@.vnic_counter == o.vnic
                        &&& final(self)@.pools == old(self)@.pools.push(o.pool)
                        &&& final(self)@.notifications == old(self)@.notifications.push(
                            Notification::PoolExists { pool_id: pid, size },
                        ) + dataset_notifications(pid, o.records)
                    }
                }),
            },
    {
        let pool = match Pool::new(name, sys) {
            Ok(p) => p,
            Err(e) => {
                return Err(e);
            },
        };
        match self.find_pool_index(pool.id) {
            Some(i) => {
                let ghost before = self@;
                let Pool { id: _, name: pname, size: psize, zones: _ } = pool;
                let slot = &mut self.pools[i];
                slot.name = pname;
                slot.size = psize;
                proof {
                    let refreshed = PoolModel {
                        id: uuid_of(name@)->Some_0,
                        name: name@,
                        size: listing_size(old(sys)@, name@),
                        zones: before.pools[i as int].zones,
                    };
                    assert(self@.pools =~~= before.pools.update(i as int, refreshed));
                    lemma_pools_update_wf(before.pools, i as int, refreshed);
                }
                Ok(())
            },
            None => {
                let names = sys.list_filesystems(name);
                let ghost all = names.deep_view();
                let mut pool = pool;
                let mut recs: Vec<DatasetRecord> = Vec::new();
                let ghost p0 = pool@;
                let ghost v0 = self.vnic_counter;
                let ghost m0 = sys@;
                let ghost target = spec_recover(p0, v0, m0, all);
                proof {
                    assert(all.subrange(0, all.len() as int) =~= all);
                    assert(Seq::<DatasetRecord>::empty() + target.records =~= target.records);
                }
                let mut i: usize = 0;
                while i < names.len()
                    invariant
                        i <= names.len(),
                        names.deep_view() == all,
                        pool_wf(pool@),
                        sys_wf(sys@),
                        self@.pools == old(self)@.pools,
                        self@.notifications == old(self)@.notifications,
                        self@.sled_id == old(self)@.sled_id,
                        mgr_wf(self@),
                        pool@.id == p0.id,
                        pool@.name == p0.name,
                        pool@.size == p0.size,
                        ({
                            let o = spec_recover(
                                pool@,
                                self@.vnic_counter,
                                sys@,
                                all.subrange(i as int, all.len() as int),
                            );
                            o.pool == target.pool && o.vnic == target.vnic && o.sys == target.sys
                                && recs@ + o.records == target.records
                        }),
                    decreases names.len() - i,
                {
                    let ghost pre_pool = pool@;
                    let ghost pre_vnic = self.vnic_counter;
                    let ghost pre_sys = sys@;
                    proof {
                        assert(all[i as int] == names@[i as int].deep_view());
                        assert(names@[i as int].deep_view() =~= names@[i as int]@);
                    }
                    let rr = Self::load_partition(
                        &mut pool,
                        &mut self.vnic_counter,
                        sys,
                        names[i].as_slice(),
                    );
                    proof {
                        let suffix = all.subrange(i as int, all.len() as int);
                        assert(suffix[0] == all[i as int]);
                        assert(suffix.subrange(1, suffix.len() as int) =~= all.subrange(
                            i + 1,
                            all.len() as int,
                        ));
                        assert(spec_load(pre_pool, pre_vnic, pre_sys, all[i as int])
                            == (LoadOutcome {
                            pool: pool@,
                            vnic: self@.vnic_counter,
                            sys: sys@,
                            result: rr,
                        }));
                    }
                    let ghost pre_recs = recs@;
                    match rr {
                        Ok(rec) => {
                            recs.push(rec);
                            proof {
                                let o2 = spec_recover(
                                    pool@,
                                    self@.vnic_counter,
                                    sys@,
                                    all.subrange(i + 1, all.len() as int),
                                );
                                assert(pre_recs + (seq![rec] + o2.records) =~= recs@ + o2.records);
                            }
                        },
                        Err(_) => {
                            proof {
                                let o2 = spec_recover(
                                    pool@,
                                    self@.vnic_counter,
                                    sys@,
                                    all.subrange(i + 1, all.len() as int),
                                );
                                assert(pre_recs + (Seq::<DatasetRecord>::empty() + o2.records)
                                    =~= recs@ + o2.records);
                            }
                        },
                    }
                    i += 1;
                }
                proof {
                    assert(all.subrange(names@.len() as int, all.len() as int)
                        =~= Seq::<Seq<u8>>::empty());
                    assert(recs@ + Seq::<DatasetRecord>::empty() =~= recs@);
                    assert(p0.zones =~= Seq::<crate::pool::ZoneEntryModel>::empty());
                    assert(p0 == (PoolModel {
                        id: uuid_of(name@)->Some_0,
                        name: name@,
                        size: listing_size(old(sys)@, name@),
                        zones: Seq::empty(),
                    }));
                }
                let ghost before_notify = self@.notifications;
                self.notifications.push(
                    Notification::PoolExists { pool_id: pool.id, size: pool.size },
                );
                proof {
                    assert(recs@.subrange(0, 0) =~= Seq::<DatasetRecord>::empty());
                    assert(dataset_notifications(p0.id, Seq::<DatasetRecord>::empty())
                        =~= Seq::<Notification>::empty());
                    assert(before_notify.push(
                        Notification::PoolExists { pool_id: p0.id, size: p0.size },
                    ) + Seq::<Notification>::empty() =~= before_notify.push(
                        Notification::PoolExists { pool_id: p0.id, size: p0.size },
                    ));
                }
                let mut j: usize = 0;
                while j < recs.len()
                    invariant
                        j <= recs.len(),
                        recs@ == target.records,
                        pool@.id == p0.id,
                        pool@.size == p0.size,
                        pool@ == target.pool,
                        pool_wf(pool@),
                        sys_wf(sys@),
                        mgr_wf(self@),
                        self@.pools == old(self)@.pools,
                        self@.sled_id == old(self)@.sled_id,
                        self@.vnic_counter == target.vnic,
                        sys@ == target.sys,
                        self@.notifications == before_notify.push(
                            Notification::PoolExists { pool_id: p0.id, size: p0.size },
                        ) + dataset_notifications(p0.id, recs@.subrange(0, j as int)),
                    decreases recs.len() - j,
                {
                    let rec = recs[j];
                    let ghost nb = self@.notifications;
                    self.notifications.push(
                        Notification::DatasetExists {
                            pool_id: pool.id,
                            dataset_id: rec.dataset_id,
                            address: rec.address,
                            kind: rec.kind,
                        },
                    );
                    proof {
                        assert(recs@.subrange(0, j + 1) =~= recs@.subrange(0, j as int).push(
                            recs@[j as int],
                        ));
                        assert(self@.notifications =~= before_notify.push(
                            Notification::PoolExists { pool_id: p0.id, size: p0.size },
                        ) + dataset_notifications(p0.id, recs@.subrange(0, j + 1)));
                    }
                    j += 1;
                }
                proof {
                    assert(recs@.subrange(0, recs@.len() as int) =~= recs@);
                    assert(!mgr_has_pool(self@, pool@.id));
                }
                let ghost before_push = self@;
                self.pools.push(pool);
                proof {
                    assert(self@.pools =~~= before_push.pools.push(target.pool));
                    assert forall|i2: int|
                        0 <= i2 < before_push.pools.len() implies before_push.pools[i2].id
                        != target.pool.id by {
                        if before_push.pools[i2].id == target.pool.id {
                            assert(mgr_has_pool(before_push, target.pool.id));
                        }
                    }
                    lemma_pools_push_wf(before_push.pools, target.pool);
                }
                Ok(())
            },
        }
    }

    /// Attempts to add a dataset within a pool, as one request asks.
    ///
    /// Rejected with `NotFound` when the pool is not in the inventory, and
    /// with `UnsupportedServiceKind` — before any filesystem or zone side
    /// effect — when the kind has no startup procedure. A dataset already
    /// materialized is an idempotent success: no new side effects and no new
    /// notification. A newly materialized dataset has its configuration
    /// persisted and one dataset notification queued.
    pub fn add_partition(
        &mut self,
        zpool_id: u128,
        partition_kind: DatasetKind,
        address: NetAddress,
        sys: &mut StorageSystem,
    ) -> (r: Result<(), Error>)
        requires
            mgr_wf(old(self)@),
            sys_wf(old(sys)@),
        ensures
            mgr_wf(final(self)@),
            sys_wf(final(sys)@),
            final(self)@.sled_id == old(self)@.sled_id,
            match r {
                Ok(()) => mgr_has_pool(old(self)@, zpool_id) && spec_kind_supported(partition_kind)
                    && (exists|f: u128|
                    add_partition_post(
                        old(self)@,
                        old(sys)@,
                        final(self)@,
                        final(sys)@,
                        zpool_id,
                        partition_kind,
                        address,
                        r,
                        f,
                    )),
                Err(e) => match e {
                    Error::NotFound => !mgr_has_pool(old(self)@, zpool_id) && *final(self)
                        == *old(self) && *final(sys) == *old(sys),
                    Error::UnsupportedServiceKind => mgr_has_pool(old(self)@, zpool_id)
                        && !spec_kind_supported(partition_kind) && *final(self) == *old(self)
                        && *final(sys) == *old(sys),
                    _ => mgr_has_pool(old(self)@, zpool_id) && spec_kind_supported(partition_kind)
                        && (exists|f: u128|
                        add_partition_post(
                            old(self)@,
                            old(sys)@,
                            final(self)@,
                            final(sys)@,
                            zpool_id,
                            partition_kind,
                            address,
                            r,
                            f,
                        )),
                },
            },
    {
        let idx = match self.find_pool_index(zpool_id) {
            Some(i) => i,
            None => {
                return Err(Error::NotFound);
            },
        };
        if !partition_kind.supported() {
            return Err(Error::UnsupportedServiceKind);
        }
        let info = PartitionInfo::new(partition_kind, address);
        let ghost pool0 = self@.pools[idx as int];
        proof {
            assert(info@ == spec_new_info(partition_kind, address));
        }
        let slot = &mut self.pools[idx];
        let rr = Self::initialize_partition(slot, &mut self.vnic_counter, sys, &info);
        proof {
            assert(self@.pools =~~= old(self)@.pools.update(idx as int, self.pools@[idx as int]@));
        }
        match rr {
            Ok(p) => {
                proof {
                    let o = spec_initialize(
                        pool0,
                        old(self)@.vnic_counter,
                        old(sys)@,
                        info@,
                        p.1,
                    );
                    lemma_initialize_ok_has_zone(
                        pool0,
                        old(self)@.vnic_counter,
                        old(sys)@,
                        info@,
                        p.1,
                    );
                    lemma_pools_update_wf(old(self)@.pools, idx as int, o.pool);
                }
                if p.0 {
                    let data = encode_config(&info);
                    sys.write_config(zpool_id, p.1, data);
                    let addr = match self.pools[idx].get_zone(p.1) {
                        Some(z) => z.address,
                        None => unreached(),
                    };
                    self.notifications.push(
                        Notification::DatasetExists {
                            pool_id: zpool_id,
                            dataset_id: p.1,
                            address: addr,
                            kind: partition_kind,
                        },
                    );
                    proof {
                        assert(add_partition_post(
                            old(self)@,
                            old(sys)@,
                            self@,
                            sys@,
                            zpool_id,
                            partition_kind,
                            address,
                            Ok(()),
                            p.1,
                        ));
                    }
                    Ok(())
                } else {
                    proof {
                        assert(add_partition_post(
                            old(self)@,
                            old(sys)@,
                            self@,
                            sys@,
                            zpool_id,
                            partition_kind,
                            address,
                            Ok(()),
                            p.1,
                        ));
                    }
                    Ok(())
                }
            },
            Err(e) => {
                proof {
                    let f = choose|f: u128|
                        (InitOutcome {
                            pool: self.pools@[idx as int]@,
                            vnic: self@.vnic_counter,
                            sys: sys@,
                            result: Err(e),
                        }) == spec_initialize(pool0, old(self)@.vnic_counter, old(sys)@, info@, f);
                    let o = spec_initialize(pool0, old(self)@.vnic_counter, old(sys)@, info@, f);
                    lemma_initialize_ok_has_zone(
                        pool0,
                        old(self)@.vnic_counter,
                        old(sys)@,
                        info@,
                        f,
                    );
                    lemma_pools_update_wf(old(self)@.pools, idx as int, o.pool);
                    assert(add_partition_post(
                        old(self)@,
                        old(sys)@,
                        self@,
                        sys@,
                        zpool_id,
                        partition_kind,
                        address,
                        Err(e),
                        f,
                    ));
                }
                Err(e)
            },
        }
    }

    /// Requests a dataset of the given kind at the given address within a
    /// pool; the behavior is that of `add_partition`, which handles the
    /// request.
    pub fn upsert_filesystem(
        &mut self,
        zpool_id: u128,
        partition_kind: DatasetKind,
        address: NetAddress,
        sys: &mut StorageSystem,
    ) -> (r: Result<(), Error>)
        requires
            mgr_wf(old(self)@),
            sys_wf(old(sys)@),
        ensures
            mgr_wf(final(self)@),
            sys_wf(final(sys)@),
            final(self)@.sled_id == old(self)@.sled_id,
            match r {
                Ok(()) => mgr_has_pool(old(self)@, zpool_id) && spec_kind_supported(partition_kind)
                    && (exists|f: u128|
                    add_partition_post(
                        old(self)@,
                        old(sys)@,
                        final(self)@,
                        final(sys)@,
                        zpool_id,
                        partition_kind,
                        address,
                        r,
                        f,
                    )),
                Err(e) => match e {
                    Error::NotFound => !mgr_has_pool(old(self)@, zpool_id) && *final(self)
                        == *old(self) && *final(sys) == *old(sys),
                    Error::UnsupportedServiceKind => mgr_has_pool(old(self)@, zpool_id)
                        && !spec_kind_supported(partition_kind) && *final(self) == *old(self)
                        && *final(sys) == *old(sys),
                    _ => mgr_has_pool(old(self)@, zpool_id) && spec_kind_supported(partition_kind)
                        && (exists|f: u128|
                        add_partition_post(
                            old(self)@,
                            old(sys)@,
                            final(self)@,
                            final(sys)@,
                            zpool_id,
                            partition_kind,
                            address,
                            r,
                            f,
                        )),
                },
            },
    {
        self.add_partition(zpool_id, partition_kind, address, sys)
    }

    /// Notes the outcome of one delivery attempt of a queued notification:
    /// a delivered notification leaves the queue, a failed attempt keeps it
    /// there to be retried, so a notification leaves the queue only by being
    /// delivered.
    pub fn settle_notification(&mut self, index: usize, delivered: bool)
        requires
            index < old(self)@.notifications.len(),
        ensures
            final(self)@.notifications == if delivered {
                old(self)@.notifications.remove(index as int)
            } else {
                old(self)@.notifications
            },
            final(self)@.pools == old(self)@.pools,
            final(self)@.vnic_counter == old(self)@.vnic_counter,
            final(self)@.sled_id == old(self)@.sled_id,
            mgr_wf(old(self)@) ==> mgr_wf(final(self)@),
    {
        if delivered {
            self.notifications.remove(index);
        }
    }
}

} // verus!
