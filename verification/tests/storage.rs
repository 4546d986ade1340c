//! Scenario tests of the storage manager against the host-state model.

use sled_storage::manager::Notification;
use sled_storage::manager::StorageManager;
use sled_storage::net::IpValue;
use sled_storage::net::NetAddress;
use sled_storage::dataset::DatasetKind;
use sled_storage::dataset::PartitionInfo;
use sled_storage::error::Error;
use sled_storage::pool::Pool;
use sled_storage::system::PropState;
use sled_storage::system::PoolListing;
use sled_storage::system::FsRecord;
use sled_storage::system::ConfigRecord;
use sled_storage::system::LiveZone;
use sled_storage::system::StorageSystem;
use sled_storage::config::encode_config;

const POOL_NAME: &[u8] = b"11111111-1111-1111-1111-111111111111";
const GIB: u64 = 1024 * 1024 * 1024;

fn addr_v4(a: u8, b: u8, c: u8, d: u8, port: u16) -> NetAddress {
    NetAddress { ip: IpValue::V4(a, b, c, d), port }
}

fn fresh_system_with_pool(size: u64) -> StorageSystem {
    let mut sys = StorageSystem::new();
    sys.pools_present.push(PoolListing { name: POOL_NAME.to_vec(), size });
    sys
}

fn count_dataset_notifications(mgr: &StorageManager) -> usize {
    mgr.notifications
        .iter()
        .filter(|n| matches!(n, Notification::DatasetExists { .. }))
        .count()
}

fn count_pool_notifications(mgr: &StorageManager) -> usize {
    mgr.notifications
        .iter()
        .filter(|n| matches!(n, Notification::PoolExists { .. }))
        .count()
}

#[test]
fn upsert_zpool_registers_pool_and_notifies() {
    let mut sys = fresh_system_with_pool(100 * GIB);
    let mut mgr = StorageManager::new(7);
    mgr.upsert_zpool(POOL_NAME, &mut sys).expect("pool upsert failed");

    assert_eq!(mgr.pools.len(), 1);
    assert_eq!(mgr.pools[0].zones.len(), 0);
    assert_eq!(mgr.pools[0].size, 100 * GIB);
    assert_eq!(mgr.pools[0].name, POOL_NAME.to_vec());
    assert_eq!(mgr.notifications.len(), 1);
    match mgr.notifications[0] {
        Notification::PoolExists { pool_id, size } => {
            assert_eq!(pool_id, mgr.pools[0].id);
            assert_eq!(size, 100 * GIB);
        }
        _ => panic!("expected a pool notification"),
    }

    // The notification is retried until acknowledged: a failed delivery
    // attempt keeps it queued, a successful one drains it.
    mgr.settle_notification(0, false);
    assert_eq!(mgr.notifications.len(), 1);
    mgr.settle_notification(0, true);
    assert_eq!(mgr.notifications.len(), 0);
}

#[test]
fn upsert_zpool_unknown_pool_is_rejected() {
    let mut sys = StorageSystem::new();
    let mut mgr = StorageManager::new(7);
    let r = mgr.upsert_zpool(POOL_NAME, &mut sys);
    assert_eq!(r, Err(Error::PoolQuery));
    assert_eq!(mgr.pools.len(), 0);
    assert_eq!(mgr.notifications.len(), 0);
}

#[test]
fn upsert_zpool_bad_name_is_rejected() {
    let name: &[u8] = b"not-an-identifier";
    let mut sys = StorageSystem::new();
    sys.pools_present.push(PoolListing { name: name.to_vec(), size: GIB });
    let mut mgr = StorageManager::new(7);
    let r = mgr.upsert_zpool(name, &mut sys);
    assert_eq!(r, Err(Error::Identity));
    assert_eq!(mgr.pools.len(), 0);
}

#[test]
fn upsert_zpool_is_idempotent() {
    // A second upsert of the same pool must not run a second discovery
    // pass: no re-provisioning, no duplicate notifications.
    let mut sys = fresh_system_with_pool(100 * GIB);
    let mut mgr = StorageManager::new(7);
    mgr.upsert_zpool(POOL_NAME, &mut sys).expect("first upsert failed");
    mgr.upsert_filesystem(mgr.pools[0].id, DatasetKind::CockroachDb, addr_v4(127, 0, 0, 1, 9000), &mut sys)
        .expect("dataset request failed");
    let zones_before = sys.zones.len();
    let commands_before = sys.commands.len();
    let notifications_before = mgr.notifications.len();

    mgr.upsert_zpool(POOL_NAME, &mut sys).expect("second upsert failed");

    assert_eq!(mgr.pools.len(), 1);
    assert_eq!(sys.zones.len(), zones_before);
    assert_eq!(sys.commands.len(), commands_before);
    assert_eq!(mgr.notifications.len(), notifications_before);
}

#[test]
fn upsert_zpool_refreshes_capacity() {
    let mut sys = fresh_system_with_pool(100 * GIB);
    let mut mgr = StorageManager::new(7);
    mgr.upsert_zpool(POOL_NAME, &mut sys).expect("first upsert failed");
    sys.pools_present[0].size = 200 * GIB;
    mgr.upsert_zpool(POOL_NAME, &mut sys).expect("second upsert failed");
    assert_eq!(mgr.pools[0].size, 200 * GIB);
}

#[test]
fn upsert_filesystem_materializes_one_dataset() {
    let mut sys = fresh_system_with_pool(100 * GIB);
    let mut mgr = StorageManager::new(7);
    mgr.upsert_zpool(POOL_NAME, &mut sys).expect("pool upsert failed");
    let pool_id = mgr.pools[0].id;

    mgr.upsert_filesystem(pool_id, DatasetKind::CockroachDb, addr_v4(127, 0, 0, 1, 9000), &mut sys)
        .expect("dataset request failed");

    // Exactly one filesystem, at `<pool>/cockroachdb`.
    assert_eq!(sys.filesystems.len(), 1);
    let mut expected_fs = POOL_NAME.to_vec();
    expected_fs.extend_from_slice(b"/cockroachdb");
    assert_eq!(sys.filesystems[0].name, expected_fs);
    // Exactly one zone, one persisted configuration, one dataset
    // notification, and the six startup commands.
    assert_eq!(sys.zones.len(), 1);
    assert_eq!(sys.configs.len(), 1);
    assert_eq!(sys.commands.len(), 6);
    assert_eq!(count_dataset_notifications(&mgr), 1);
    assert_eq!(count_pool_notifications(&mgr), 1);

    // A second identical request is an idempotent no-op.
    mgr.upsert_filesystem(pool_id, DatasetKind::CockroachDb, addr_v4(127, 0, 0, 1, 9000), &mut sys)
        .expect("second dataset request failed");
    assert_eq!(sys.filesystems.len(), 1);
    assert_eq!(sys.zones.len(), 1);
    assert_eq!(sys.configs.len(), 1);
    assert_eq!(sys.commands.len(), 6);
    assert_eq!(count_dataset_notifications(&mgr), 1);
}

#[test]
fn upsert_filesystem_unknown_pool_is_rejected() {
    let mut sys = fresh_system_with_pool(100 * GIB);
    let mut mgr = StorageManager::new(7);
    mgr.upsert_zpool(POOL_NAME, &mut sys).expect("pool upsert failed");

    let r = mgr.upsert_filesystem(42, DatasetKind::CockroachDb, addr_v4(127, 0, 0, 1, 9000), &mut sys);
    assert_eq!(r, Err(Error::NotFound));
    // No filesystem or zone side effects.
    assert_eq!(sys.filesystems.len(), 0);
    assert_eq!(sys.zones.len(), 0);
    assert_eq!(sys.configs.len(), 0);
}

#[test]
fn upsert_filesystem_unsupported_kind_is_rejected() {
    let mut sys = fresh_system_with_pool(100 * GIB);
    let mut mgr = StorageManager::new(7);
    mgr.upsert_zpool(POOL_NAME, &mut sys).expect("pool upsert failed");
    let pool_id = mgr.pools[0].id;

    for kind in [DatasetKind::Clickhouse, DatasetKind::Crucible] {
        let r = mgr.upsert_filesystem(pool_id, kind, addr_v4(127, 0, 0, 1, 9000), &mut sys);
        assert_eq!(r, Err(Error::UnsupportedServiceKind));
        // Rejected before creating a filesystem.
        assert_eq!(sys.filesystems.len(), 0);
        assert_eq!(sys.zones.len(), 0);
    }
}

#[test]
fn upsert_filesystem_install_refused() {
    let mut sys = fresh_system_with_pool(100 * GIB);
    let mut zone_name = b"oxz_cockroachdb_".to_vec();
    zone_name.extend_from_slice(POOL_NAME);
    sys.install_refused.push(zone_name);
    let mut mgr = StorageManager::new(7);
    mgr.upsert_zpool(POOL_NAME, &mut sys).expect("pool upsert failed");
    let pool_id = mgr.pools[0].id;

    let r = mgr.upsert_filesystem(pool_id, DatasetKind::CockroachDb, addr_v4(127, 0, 0, 1, 9000), &mut sys);
    assert_eq!(r, Err(Error::ZoneConfiguration));
    assert_eq!(sys.zones.len(), 0);
}

#[test]
fn upsert_filesystem_boot_refused() {
    let mut sys = fresh_system_with_pool(100 * GIB);
    let mut zone_name = b"oxz_cockroachdb_".to_vec();
    zone_name.extend_from_slice(POOL_NAME);
    sys.boot_refused.push(zone_name);
    let mut mgr = StorageManager::new(7);
    mgr.upsert_zpool(POOL_NAME, &mut sys).expect("pool upsert failed");
    let pool_id = mgr.pools[0].id;

    let r = mgr.upsert_filesystem(pool_id, DatasetKind::CockroachDb, addr_v4(127, 0, 0, 1, 9000), &mut sys);
    assert_eq!(r, Err(Error::ZoneManagement));
    assert_eq!(sys.zones.len(), 0);
}

#[test]
fn dataset_identity_is_stable_across_materializations() {
    // Materializing the same dataset twice yields the same identity both
    // times; the second run creates nothing new.
    let mut sys = fresh_system_with_pool(100 * GIB);
    let mut pool = Pool {
        id: 0x11111111_1111_1111_1111_111111111111,
        name: POOL_NAME.to_vec(),
        size: 100 * GIB,
        zones: Vec::new(),
    };
    let mut vnic: u64 = 0;
    let info = PartitionInfo::new(DatasetKind::CockroachDb, addr_v4(127, 0, 0, 1, 9000));

    let first = StorageManager::initialize_partition(&mut pool, &mut vnic, &mut sys, &info)
        .expect("first materialization failed");
    assert!(first.0, "first materialization should be new");
    let fs_count = sys.filesystems.len();
    let zone_count = sys.zones.len();
    let command_count = sys.commands.len();

    let second = StorageManager::initialize_partition(&mut pool, &mut vnic, &mut sys, &info)
        .expect("second materialization failed");
    assert!(!second.0, "second materialization should be a no-op");
    assert_eq!(second.1, first.1, "the dataset identity must be stable");
    assert_eq!(sys.filesystems.len(), fs_count);
    assert_eq!(sys.zones.len(), zone_count);
    assert_eq!(sys.commands.len(), command_count);

    // The identity is the one stamped on the filesystem.
    assert_eq!(sys.filesystems[0].prop, PropState::Id(first.1));
}

#[test]
fn recovery_rebuilds_datasets_from_persisted_config() {
    // A pool seen for the first time has its filesystems walked and the
    // persisted descriptors re-materialized.
    let dataset_id: u128 = 0xabcd;
    let pool_id: u128 = 0x11111111_1111_1111_1111_111111111111;
    let info = PartitionInfo::new(DatasetKind::CockroachDb, addr_v4(10, 0, 0, 5, 32221));
    let mut fs_name = POOL_NAME.to_vec();
    fs_name.extend_from_slice(b"/cockroachdb");

    let mut sys = fresh_system_with_pool(100 * GIB);
    sys.filesystems.push(FsRecord { name: fs_name, prop: PropState::Id(dataset_id) });
    sys.configs.push(ConfigRecord { pool_id, dataset_id, data: encode_config(&info) });

    let mut mgr = StorageManager::new(7);
    mgr.upsert_zpool(POOL_NAME, &mut sys).expect("pool upsert failed");

    assert_eq!(mgr.pools[0].zones.len(), 1, "the dataset's zone was rebuilt");
    assert_eq!(sys.zones.len(), 1);
    assert_eq!(sys.commands.len(), 6);
    assert_eq!(count_pool_notifications(&mgr), 1);
    assert_eq!(count_dataset_notifications(&mgr), 1);
    match *mgr.notifications.iter().find(|n| matches!(n, Notification::DatasetExists { .. })).unwrap() {
        Notification::DatasetExists { pool_id: p, dataset_id: d, address, kind } => {
            assert_eq!(p, pool_id);
            assert_eq!(d, dataset_id);
            assert_eq!(address, addr_v4(10, 0, 0, 5, 32221));
            assert_eq!(kind, DatasetKind::CockroachDb);
        }
        _ => unreachable!(),
    }
}

#[test]
fn recovery_skips_corrupt_configs_without_aborting() {
    // Three filesystems; one valid, one with a corrupt persisted
    // configuration, one with an unreadable identity. The bad ones are
    // skipped, the valid one is rebuilt, and the pool-existence
    // notification is still queued.
    let dataset_id: u128 = 0xabcd;
    let corrupt_id: u128 = 0xbeef;
    let pool_id: u128 = 0x11111111_1111_1111_1111_111111111111;
    let info = PartitionInfo::new(DatasetKind::CockroachDb, addr_v4(10, 0, 0, 5, 32221));
    let mut fs_name = POOL_NAME.to_vec();
    fs_name.extend_from_slice(b"/cockroachdb");
    let mut bad_fs = POOL_NAME.to_vec();
    bad_fs.extend_from_slice(b"/scratch");
    let mut odd_fs = POOL_NAME.to_vec();
    odd_fs.extend_from_slice(b"/junk");

    let mut sys = fresh_system_with_pool(100 * GIB);
    sys.filesystems.push(FsRecord { name: bad_fs, prop: PropState::Id(corrupt_id) });
    sys.filesystems.push(FsRecord { name: fs_name, prop: PropState::Id(dataset_id) });
    sys.filesystems.push(FsRecord { name: odd_fs, prop: PropState::Invalid });
    sys.configs.push(ConfigRecord {
        pool_id,
        dataset_id: corrupt_id,
        data: b"not a configuration at all".to_vec(),
    });
    sys.configs.push(ConfigRecord { pool_id, dataset_id, data: encode_config(&info) });

    let mut mgr = StorageManager::new(7);
    mgr.upsert_zpool(POOL_NAME, &mut sys).expect("pool upsert failed");

    assert_eq!(mgr.pools[0].zones.len(), 1, "the valid dataset was rebuilt");
    assert_eq!(sys.zones.len(), 1);
    assert_eq!(count_pool_notifications(&mgr), 1, "the pool notification is still queued");
    assert_eq!(count_dataset_notifications(&mgr), 1);
}

#[test]
fn load_partition_reports_corrupt_config() {
    let dataset_id: u128 = 0xabcd;
    let pool_id: u128 = 0x11111111_1111_1111_1111_111111111111;
    let mut fs_name = POOL_NAME.to_vec();
    fs_name.extend_from_slice(b"/cockroachdb");

    let mut sys = fresh_system_with_pool(100 * GIB);
    sys.filesystems.push(FsRecord { name: fs_name.clone(), prop: PropState::Id(dataset_id) });
    sys.configs.push(ConfigRecord { pool_id, dataset_id, data: b"garbage".to_vec() });

    let mut pool = Pool { id: pool_id, name: POOL_NAME.to_vec(), size: 100 * GIB, zones: Vec::new() };
    let mut vnic: u64 = 0;
    let r = StorageManager::load_partition(&mut pool, &mut vnic, &mut sys, &fs_name);
    assert_eq!(r, Err(Error::Persistence));
    assert_eq!(sys.zones.len(), 0);
}

#[test]
fn load_partition_reports_missing_identity() {
    let mut fs_name = POOL_NAME.to_vec();
    fs_name.extend_from_slice(b"/cockroachdb");
    let mut sys = fresh_system_with_pool(100 * GIB);
    sys.filesystems.push(FsRecord { name: fs_name.clone(), prop: PropState::Absent });

    let pool_id: u128 = 0x11111111_1111_1111_1111_111111111111;
    let mut pool = Pool { id: pool_id, name: POOL_NAME.to_vec(), size: 100 * GIB, zones: Vec::new() };
    let mut vnic: u64 = 0;
    let r = StorageManager::load_partition(&mut pool, &mut vnic, &mut sys, &fs_name);
    assert_eq!(r, Err(Error::Identity));
}

#[test]
fn existing_zone_is_reused() {
    // A zone already running at the expected name and address is reused
    // rather than booted again.
    let mut sys = fresh_system_with_pool(100 * GIB);
    let mut zone_name = b"oxz_cockroachdb_".to_vec();
    zone_name.extend_from_slice(POOL_NAME);
    sys.zones.push(LiveZone { name: zone_name, address: addr_v4(127, 0, 0, 1, 9000) });

    let mut mgr = StorageManager::new(7);
    mgr.upsert_zpool(POOL_NAME, &mut sys).expect("pool upsert failed");
    let pool_id = mgr.pools[0].id;
    mgr.upsert_filesystem(pool_id, DatasetKind::CockroachDb, addr_v4(127, 0, 0, 1, 9000), &mut sys)
        .expect("dataset request failed");

    assert_eq!(sys.zones.len(), 1, "no second zone was booted");
    assert_eq!(sys.commands.len(), 6, "the startup procedure ran against the reused zone");
    assert_eq!(mgr.pools[0].zones.len(), 1);
}

#[test]
fn dataset_config_path_embeds_both_identities() {
    let pool_id: u128 = 0x11111111_1111_1111_1111_111111111111;
    let dataset_id: u128 = 0x2222;
    let pool = Pool { id: pool_id, name: POOL_NAME.to_vec(), size: GIB, zones: Vec::new() };
    let path = pool.dataset_config_path(dataset_id);
    let text = String::from_utf8(path).expect("path is text");
    let pool_text = uuid::Uuid::from_u128(pool_id).hyphenated().to_string();
    let dataset_text = uuid::Uuid::from_u128(dataset_id).hyphenated().to_string();
    assert_eq!(text, format!("/var/tmp/{}/{}.conf", pool_text, dataset_text));
}

#[test]
fn error_descriptions_are_nonempty() {
    let all = [
        Error::PoolQuery,
        Error::Identity,
        Error::Filesystem,
        Error::ZoneConfiguration,
        Error::ZoneManagement,
        Error::UnsupportedServiceKind,
        Error::NotFound,
        Error::Persistence,
        Error::Timeout,
    ];
    for e in all {
        assert!(!e.describe().is_empty());
    }
}
