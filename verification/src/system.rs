//! The observable storage state of the host.
//!
//! Every interaction the storage manager has with the machine — creating a
//! filesystem, stamping an identity property, locating or booting a zone,
//! running a command inside a zone, persisting a dataset configuration — is
//! expressed against this model of the host's state. A driver that talks to
//! the real machine keeps a [`StorageSystem`] in step with it and performs
//! the corresponding side effects; tests build one directly.

use vstd::prelude::*;
use crate::bytes::bytes_eq;
use crate::bytes::copy_bytes;
use crate::bytes::is_prefix_of;
use crate::bytes::starts_with;
use crate::error::Error;
use crate::net::NetAddress;

verus! {

/// The identity property stamped on a filesystem: absent, present but not a
/// valid identifier, or a valid identifier.
#[derive(Clone, Copy, PartialEq, Eq, Structural, Debug)]
pub enum PropState {
    Absent,
    Invalid,
    Id(u128),
}

/// A filesystem on the host, named by its full `<pool>/<dataset>` path.
pub struct FsRecord {
    pub name: Vec<u8>,
    pub prop: PropState,
}

pub struct FsModel {
    pub name: Seq<u8>,
    pub prop: PropState,
}

impl View for FsRecord {
    type V = FsModel;

    open spec fn view(&self) -> FsModel {
        FsModel { name: self.name@, prop: self.prop }
    }
}

/// A zone running on the host.
pub struct LiveZone {
    pub name: Vec<u8>,
    pub address: NetAddress,
}

pub struct ZoneModel {
    pub name: Seq<u8>,
    pub address: NetAddress,
}

impl View for LiveZone {
    type V = ZoneModel;

    open spec fn view(&self) -> ZoneModel {
        ZoneModel { name: self.name@, address: self.address }
    }
}

impl LiveZone {
    /// A second handle to the same zone.
    pub fn duplicate(&self) -> (r: LiveZone)
        ensures
            r@ == self@,
    {
        LiveZone { name: copy_bytes(self.name.as_slice()), address: self.address }
    }
}

/// A persisted dataset configuration, keyed by pool and dataset identity.
pub struct ConfigRecord {
    pub pool_id: u128,
    pub dataset_id: u128,
    pub data: Vec<u8>,
}

pub struct ConfigModel {
    pub pool_id: u128,
    pub dataset_id: u128,
    pub data: Seq<u8>,
}

impl View for ConfigRecord {
    type V = ConfigModel;

    open spec fn view(&self) -> ConfigModel {
        ConfigModel { pool_id: self.pool_id, dataset_id: self.dataset_id, data: self.data@ }
    }
}

/// A command that was run inside a zone.
pub struct CommandRecord {
    pub zone: Vec<u8>,
    pub text: Vec<u8>,
}

pub struct CommandModel {
    pub zone: Seq<u8>,
    pub text: Seq<u8>,
}

impl View for CommandRecord {
    type V = CommandModel;

    open spec fn view(&self) -> CommandModel {
        CommandModel { zone: self.zone@, text: self.text@ }
    }
}

/// A pool the host can describe, with its reported capacity in bytes.
pub struct PoolListing {
    pub name: Vec<u8>,
    pub size: u64,
}

pub struct ListingModel {
    pub name: Seq<u8>,
    pub size: u64,
}

impl View for PoolListing {
    type V = ListingModel;

    open spec fn view(&self) -> ListingModel {
        ListingModel { name: self.name@, size: self.size }
    }
}

/// The host's observable storage state.
pub struct StorageSystem {
    /// The pools the host can describe.
    pub pools_present: Vec<PoolListing>,
    /// The filesystems that exist, with their identity properties.
    pub filesystems: Vec<FsRecord>,
    /// The zones currently running.
    pub zones: Vec<LiveZone>,
    /// The persisted dataset configurations.
    pub configs: Vec<ConfigRecord>,
    /// The commands run inside zones, in order.
    pub commands: Vec<CommandRecord>,
    /// Zone names whose installation the host refuses.
    pub install_refused: Vec<Vec<u8>>,
    /// Zone names whose boot the host refuses.
    pub boot_refused: Vec<Vec<u8>>,
}

pub struct SystemModel {
    pub pools_present: Seq<ListingModel>,
    pub filesystems: Seq<FsModel>,
    pub zones: Seq<ZoneModel>,
    pub configs: Seq<ConfigModel>,
    pub commands: Seq<CommandModel>,
    pub install_refused: Seq<Seq<u8>>,
    pub boot_refused: Seq<Seq<u8>>,
}

impl View for StorageSystem {
    type V = SystemModel;

    open spec fn view(&self) -> SystemModel {
        SystemModel {
            pools_present: self.pools_present@.map_values(|p: PoolListing| p@),
            filesystems: self.filesystems@.map_values(|f: FsRecord| f@),
            zones: self.zones@.map_values(|z: LiveZone| z@),
            configs: self.configs@.map_values(|c: ConfigRecord| c@),
            commands: self.commands@.map_values(|c: CommandRecord| c@),
            install_refused: self.install_refused@.map_values(|v: Vec<u8>| v@),
            boot_refused: self.boot_refused@.map_values(|v: Vec<u8>| v@),
        }
    }
}

impl StorageSystem {
    /// A host with no pools, filesystems, zones, or configurations.
    pub fn new() -> (r: StorageSystem)
        ensures
            r@.pools_present.len() == 0,
            r@.filesystems.len() == 0,
            r@.zones.len() == 0,
            r@.configs.len() == 0,
            r@.commands.len() == 0,
            r@.install_refused.len() == 0,
            r@.boot_refused.len() == 0,
            sys_wf(r@),
    {
        let r = StorageSystem {
            pools_present: Vec::new(),
            filesystems: Vec::new(),
            zones: Vec::new(),
            configs: Vec::new(),
            commands: Vec::new(),
            install_refused: Vec::new(),
            boot_refused: Vec::new(),
        };
        r
    }
}

// ---------------------------------------------------------------------------
// What the model state means.
// ---------------------------------------------------------------------------

/// Well-formedness of the host state: filesystem names, configuration keys
/// and pool names are unique.
pub open spec fn sys_wf(m: SystemModel) -> bool {
    &&& forall|i: int, j: int|
        0 <= i < j < m.filesystems.len() ==> m.filesystems[i].name != m.filesystems[j].name
    &&& forall|i: int, j: int|
        0 <= i < j < m.configs.len() ==> !(m.configs[i].pool_id == m.configs[j].pool_id
            && m.configs[i].dataset_id == m.configs[j].dataset_id)
    &&& forall|i: int, j: int|
        0 <= i < j < m.pools_present.len() ==> m.pools_present[i].name != m.pools_present[j].name
}

pub open spec fn sys_has_fs(m: SystemModel, name: Seq<u8>) -> bool {
    exists|i: int| 0 <= i < m.filesystems.len() && m.filesystems[i].name == name
}

pub open spec fn fs_index(m: SystemModel, name: Seq<u8>) -> int {
    choose|i: int| 0 <= i < m.filesystems.len() && m.filesystems[i].name == name
}

/// The identity property of the named filesystem (meaningful when it exists).
pub open spec fn fs_prop(m: SystemModel, name: Seq<u8>) -> PropState {
    m.filesystems[fs_index(m, name)].prop
}

pub open spec fn sys_has_listing(m: SystemModel, name: Seq<u8>) -> bool {
    exists|i: int| 0 <= i < m.pools_present.len() && m.pools_present[i].name == name
}

pub open spec fn listing_index(m: SystemModel, name: Seq<u8>) -> int {
    choose|i: int| 0 <= i < m.pools_present.len() && m.pools_present[i].name == name
}

/// The capacity the host reports for the named pool (meaningful when listed).
pub open spec fn listing_size(m: SystemModel, name: Seq<u8>) -> u64 {
    m.pools_present[listing_index(m, name)].size
}

pub open spec fn sys_has_config(m: SystemModel, pool_id: u128, dataset_id: u128) -> bool {
    exists|i: int|
        0 <= i < m.configs.len() && m.configs[i].pool_id == pool_id && m.configs[i].dataset_id
            == dataset_id
}

pub open spec fn config_index(m: SystemModel, pool_id: u128, dataset_id: u128) -> int {
    choose|i: int|
        0 <= i < m.configs.len() && m.configs[i].pool_id == pool_id && m.configs[i].dataset_id
            == dataset_id
}

/// The bytes of the persisted configuration for `(pool_id, dataset_id)`
/// (meaningful when present).
pub open spec fn config_data(m: SystemModel, pool_id: u128, dataset_id: u128) -> Seq<u8> {
    m.configs[config_index(m, pool_id, dataset_id)].data
}

/// Is `name` among the listed names?
pub open spec fn name_listed(names: Seq<Seq<u8>>, name: Seq<u8>) -> bool {
    exists|i: int| 0 <= i < names.len() && names[i] == name
}

/// The first running zone whose name starts with `prefix` and whose address
/// is `addr`.
pub open spec fn find_zone(zs: Seq<ZoneModel>, prefix: Seq<u8>, addr: NetAddress) -> Option<
    ZoneModel,
>
    decreases zs.len(),
{
    if zs.len() == 0 {
        None
    } else if is_prefix_of(prefix, zs[0].name) && zs[0].address == addr {
        Some(zs[0])
    } else {
        find_zone(zs.subrange(1, zs.len() as int), prefix, addr)
    }
}

/// The names of the filesystems under the named pool, in order: those whose
/// full path starts with `<pool>/`.
pub open spec fn fs_names_under(fss: Seq<FsModel>, pool: Seq<u8>) -> Seq<Seq<u8>>
    decreases fss.len(),
{
    if fss.len() == 0 {
        Seq::empty()
    } else {
        let rest = fs_names_under(fss.drop_last(), pool);
        if is_prefix_of(pool + seq![47u8], fss.last().name) {
            rest.push(fss.last().name)
        } else {
            rest
        }
    }
}

// ---------------------------------------------------------------------------
// Transitions of the host state.
// ---------------------------------------------------------------------------

/// Creating a filesystem if it is absent.
pub open spec fn spec_ensure_fs(m: SystemModel, name: Seq<u8>) -> SystemModel {
    if sys_has_fs(m, name) {
        m
    } else {
        SystemModel {
            filesystems: m.filesystems.push(FsModel { name, prop: PropState::Absent }),
            ..m
        }
    }
}

/// Stamping the identity property of an existing filesystem.
pub open spec fn spec_set_prop(m: SystemModel, name: Seq<u8>, prop: PropState) -> SystemModel {
    SystemModel {
        filesystems: m.filesystems.update(fs_index(m, name), FsModel { name, prop }),
        ..m
    }
}

/// Booting a zone.
pub open spec fn spec_boot_zone(m: SystemModel, z: ZoneModel) -> SystemModel {
    SystemModel { zones: m.zones.push(z), ..m }
}

/// Running a command inside a zone.
pub open spec fn spec_run_command(m: SystemModel, zone: Seq<u8>, text: Seq<u8>) -> SystemModel {
    SystemModel { commands: m.commands.push(CommandModel { zone, text }), ..m }
}

/// Writing (or overwriting) a persisted configuration.
pub open spec fn spec_write_config(
    m: SystemModel,
    pool_id: u128,
    dataset_id: u128,
    data: Seq<u8>,
) -> SystemModel {
    let c = ConfigModel { pool_id, dataset_id, data };
    if sys_has_config(m, pool_id, dataset_id) {
        SystemModel { configs: m.configs.update(config_index(m, pool_id, dataset_id), c), ..m }
    } else {
        SystemModel { configs: m.configs.push(c), ..m }
    }
}

// ---------------------------------------------------------------------------
// Uniqueness gives each lookup a single answer.
// ---------------------------------------------------------------------------

pub proof fn lemma_fs_index_is(m: SystemModel, name: Seq<u8>, i: int)
    requires
        sys_wf(m),
        0 <= i < m.filesystems.len(),
        m.filesystems[i].name == name,
    ensures
        sys_has_fs(m, name),
        fs_index(m, name) == i,
{
    assert(sys_has_fs(m, name));
    let j = fs_index(m, name);
    if i != j {
        assert(m.filesystems[i].name != m.filesystems[j].name);
    }
}

pub proof fn lemma_listing_index_is(m: SystemModel, name: Seq<u8>, i: int)
    requires
        sys_wf(m),
        0 <= i < m.pools_present.len(),
        m.pools_present[i].name == name,
    ensures
        sys_has_listing(m, name),
        listing_index(m, name) == i,
{
    assert(sys_has_listing(m, name));
    let j = listing_index(m, name);
    if i != j {
        assert(m.pools_present[i].name != m.pools_present[j].name);
    }
}

pub proof fn lemma_config_index_is(m: SystemModel, pool_id: u128, dataset_id: u128, i: int)
    requires
        sys_wf(m),
        0 <= i < m.configs.len(),
        m.configs[i].pool_id == pool_id,
        m.configs[i].dataset_id == dataset_id,
    ensures
        sys_has_config(m, pool_id, dataset_id),
        config_index(m, pool_id, dataset_id) == i,
{
    assert(sys_has_config(m, pool_id, dataset_id));
    let j = config_index(m, pool_id, dataset_id);
    if i != j {
        assert(!(m.configs[i].pool_id == m.configs[j].pool_id && m.configs[i].dataset_id
            == m.configs[j].dataset_id));
    }
}

proof fn lemma_find_zone_at(zs: Seq<ZoneModel>, prefix: Seq<u8>, addr: NetAddress, k: int)
    requires
        0 <= k < zs.len(),
        is_prefix_of(prefix, zs[k].name) && zs[k].address == addr,
        forall|j: int| 0 <= j < k ==> !(is_prefix_of(prefix, zs[j].name) && zs[j].address == addr),
    ensures
        find_zone(zs, prefix, addr) == Some(zs[k]),
    decreases k,
{
    if k == 0 {
    } else {
        let t = zs.subrange(1, zs.len() as int);
        assert(forall|j: int| 0 <= j < t.len() ==> t[j] == zs[j + 1]);
        lemma_find_zone_at(t, prefix, addr, k - 1);
    }
}

proof fn lemma_find_zone_none(zs: Seq<ZoneModel>, prefix: Seq<u8>, addr: NetAddress)
    requires
        forall|j: int| 0 <= j < zs.len() ==> !(is_prefix_of(prefix, zs[j].name) && zs[j].address == addr),
    ensures
        find_zone(zs, prefix, addr) is None,
    decreases zs.len(),
{
    if zs.len() > 0 {
        let t = zs.subrange(1, zs.len() as int);
        assert(forall|j: int| 0 <= j < t.len() ==> t[j] == zs[j + 1]);
        lemma_find_zone_none(t, prefix, addr);
    }
}

// ---------------------------------------------------------------------------
// The host's operations.
// ---------------------------------------------------------------------------

impl StorageSystem {
    /// Describes the named pool: its capacity if the host knows it.
    pub fn describe_pool(&self, name: &[u8]) -> (r: Option<u64>)
        requires
            sys_wf(self@),
        ensures
            match r {
                Some(size) => sys_has_listing(self@, name@) && size == listing_size(self@, name@),
                None => !sys_has_listing(self@, name@),
            },
    {
        let mut i: usize = 0;
        while i < self.pools_present.len()
            invariant
                i <= self.pools_present.len(),
                sys_wf(self@),
                forall|j: int| 0 <= j < i ==> self@.pools_present[j].name != name@,
            decreases self.pools_present.len() - i,
        {
            if bytes_eq(self.pools_present[i].name.as_slice(), name) {
                proof {
                    lemma_listing_index_is(self@, name@, i as int);
                }
                return Some(self.pools_present[i].size);
            }
            i += 1;
        }
        None
    }

    /// Idempotently ensures the named filesystem exists.
    pub fn ensure_filesystem(&mut self, name: &[u8])
        requires
            sys_wf(old(self)@),
        ensures
            final(self)@ == spec_ensure_fs(old(self)@, name@),
            sys_wf(final(self)@),
            sys_has_fs(final(self)@, name@),
    {
        let mut i: usize = 0;
        while i < self.filesystems.len()
            invariant
                i <= self.filesystems.len(),
                sys_wf(self@),
                forall|j: int| 0 <= j < i ==> self@.filesystems[j].name != name@,
            decreases self.filesystems.len() - i,
        {
            if bytes_eq(self.filesystems[i].name.as_slice(), name) {
                proof {
                    lemma_fs_index_is(self@, name@, i as int);
                }
                return ;
            }
            i += 1;
        }
        assert(!sys_has_fs(self@, name@));
        let ghost before = self@;
        self.filesystems.push(FsRecord { name: copy_bytes(name), prop: PropState::Absent });
        proof {
            assert(self@.filesystems =~= before.filesystems.push(
                FsModel { name: name@, prop: PropState::Absent },
            ));
            assert(self@ == spec_ensure_fs(before, name@));
            lemma_fs_index_is(self@, name@, self@.filesystems.len() - 1);
        }
    }

    /// Reads the identity property of the named filesystem.
    pub fn get_fs_prop(&self, name: &[u8]) -> (r: Option<PropState>)
        requires
            sys_wf(self@),
        ensures
            match r {
                Some(p) => sys_has_fs(self@, name@) && p == fs_prop(self@, name@),
                None => !sys_has_fs(self@, name@),
            },
    {
        let mut i: usize = 0;
        while i < self.filesystems.len()
            invariant
                i <= self.filesystems.len(),
                sys_wf(self@),
                forall|j: int| 0 <= j < i ==> self@.filesystems[j].name != name@,
            decreases self.filesystems.len() - i,
        {
            if bytes_eq(self.filesystems[i].name.as_slice(), name) {
                proof {
                    lemma_fs_index_is(self@, name@, i as int);
                }
                return Some(self.filesystems[i].prop);
            }
            i += 1;
        }
        None
    }

    /// Stamps the identity property of the named filesystem.
    pub fn set_fs_prop(&mut self, name: &[u8], prop: PropState)
        requires
            sys_wf(old(self)@),
            sys_has_fs(old(self)@, name@),
        ensures
            final(self)@ == spec_set_prop(old(self)@, name@, prop),
            sys_wf(final(self)@),
    {
        let mut i: usize = 0;
        while i < self.filesystems.len()
            invariant
                i <= self.filesystems.len(),
                sys_wf(self@),
                sys_has_fs(self@, name@),
                self@ == old(self)@,
                forall|j: int| 0 <= j < i ==> self@.filesystems[j].name != name@,
            decreases self.filesystems.len() - i,
        {
            if bytes_eq(self.filesystems[i].name.as_slice(), name) {
                proof {
                    lemma_fs_index_is(self@, name@, i as int);
                }
                let ghost before = self@;
                let slot = &mut self.filesystems[i];
                *slot = FsRecord { name: copy_bytes(name), prop };
                proof {
                    assert(self@.filesystems =~= before.filesystems.update(
                        i as int,
                        FsModel { name: name@, prop },
                    ));
                    assert(self@ == spec_set_prop(before, name@, prop));
                }
                return ;
            }
            i += 1;
        }
        proof {
            let k = choose|k: int|
                0 <= k < self@.filesystems.len() && self@.filesystems[k].name == name@;
            assert(self@.filesystems[k].name == name@);
        }
        unreached()
    }

    /// The names of the filesystems under the named pool.
    pub fn list_filesystems(&self, pool_name: &[u8]) -> (r: Vec<Vec<u8>>)
        ensures
            r.deep_view() == fs_names_under(self@.filesystems, pool_name@),
    {
        let mut prefix = copy_bytes(pool_name);
        prefix.push(47);
        assert(prefix@ =~= pool_name@ + seq![47u8]);
        let mut out: Vec<Vec<u8>> = Vec::new();
        let mut i: usize = 0;
        while i < self.filesystems.len()
            invariant
                i <= self.filesystems.len(),
                prefix@ == pool_name@ + seq![47u8],
                out.deep_view() == fs_names_under(
                    self@.filesystems.subrange(0, i as int),
                    pool_name@,
                ),
            decreases self.filesystems.len() - i,
        {
            let ghost pre = self@.filesystems.subrange(0, i as int);
            let ghost post = self@.filesystems.subrange(0, i + 1);
            assert(post.drop_last() =~= pre);
            assert(post.last() == self@.filesystems[i as int]);
            if starts_with(self.filesystems[i].name.as_slice(), prefix.as_slice()) {
                let ghost before = out.deep_view();
                out.push(copy_bytes(self.filesystems[i].name.as_slice()));
                assert(out.deep_view() =~~= before.push(self@.filesystems[i as int].name));
            }
            i += 1;
        }
        proof {
            assert(self@.filesystems.subrange(0, self@.filesystems.len() as int)
                =~= self@.filesystems);
        }
        out
    }

    /// Locates a running zone by name prefix and address.
    pub fn locate_zone(&self, prefix: &[u8], address: NetAddress) -> (r: Option<LiveZone>)
        ensures
            match r {
                Some(z) => find_zone(self@.zones, prefix@, address) == Some(z@),
                None => find_zone(self@.zones, prefix@, address) is None,
            },
    {
        let mut i: usize = 0;
        while i < self.zones.len()
            invariant
                i <= self.zones.len(),
                forall|j: int|
                    0 <= j < i ==> !(is_prefix_of(prefix@, self@.zones[j].name)
                        && self@.zones[j].address == address),
            decreases self.zones.len() - i,
        {
            let z = &self.zones[i];
            if starts_with(z.name.as_slice(), prefix) && z.address == address {
                proof {
                    lemma_find_zone_at(self@.zones, prefix@, address, i as int);
                }
                return Some(z.duplicate());
            }
            i += 1;
        }
        proof {
            lemma_find_zone_none(self@.zones, prefix@, address);
        }
        None
    }

    /// Installs a zone from an image over a dataset; the host may refuse.
    /// Installation prepares the zone but changes nothing observable here;
    /// the zone appears once booted.
    pub fn install_zone(&mut self, zname: &[u8], _image: &[u8], _dataset: &[u8], _vnic: &[u8]) -> (r:
        Result<(), Error>)
        ensures
            *final(self) == *old(self),
            r matches Ok(()) <==> !name_listed(old(self)@.install_refused, zname@),
            r matches Err(e) ==> e == Error::ZoneConfiguration,
    {
        if self.name_refused_install(zname) {
            Err(Error::ZoneConfiguration)
        } else {
            Ok(())
        }
    }

    /// Boots an installed zone bound to an address; the host may refuse.
    pub fn boot_zone(&mut self, zname: &[u8], address: NetAddress) -> (r: Result<LiveZone, Error>)
        ensures
            match r {
                Ok(z) => !name_listed(old(self)@.boot_refused, zname@) && z@ == (ZoneModel {
                    name: zname@,
                    address,
                }) && final(self)@ == spec_boot_zone(old(self)@, z@),
                Err(e) => name_listed(old(self)@.boot_refused, zname@) && e
                    == Error::ZoneManagement && *final(self) == *old(self),
            },
            sys_wf(old(self)@) ==> sys_wf(final(self)@),
    {
        if self.name_refused_boot(zname) {
            return Err(Error::ZoneManagement);
        }
        let z = LiveZone { name: copy_bytes(zname), address };
        let r = z.duplicate();
        let ghost before = self@;
        self.zones.push(z);
        proof {
            assert(self@.zones =~= before.zones.push(ZoneModel { name: zname@, address }));
            assert(self@ == spec_boot_zone(before, ZoneModel { name: zname@, address }));
        }
        Ok(r)
    }

    /// Runs a command inside a zone.
    pub fn run_command(&mut self, zone: &[u8], text: Vec<u8>)
        ensures
            final(self)@ == spec_run_command(old(self)@, zone@, text@),
            sys_wf(old(self)@) ==> sys_wf(final(self)@),
    {
        let ghost before = self@;
        self.commands.push(CommandRecord { zone: copy_bytes(zone), text });
        proof {
            assert(self@.commands =~= before.commands.push(
                CommandModel { zone: zone@, text: text@ },
            ));
            assert(self@ == spec_run_command(before, zone@, text@));
        }
    }

    /// Reads the persisted configuration for `(pool_id, dataset_id)`.
    pub fn read_config(&self, pool_id: u128, dataset_id: u128) -> (r: Option<Vec<u8>>)
        requires
            sys_wf(self@),
        ensures
            match r {
                Some(d) => sys_has_config(self@, pool_id, dataset_id) && d@ == config_data(
                    self@,
                    pool_id,
                    dataset_id,
                ),
                None => !sys_has_config(self@, pool_id, dataset_id),
            },
    {
        let mut i: usize = 0;
        while i < self.configs.len()
            invariant
                i <= self.configs.len(),
                sys_wf(self@),
                forall|j: int|
                    0 <= j < i ==> !(self@.configs[j].pool_id == pool_id
                        && self@.configs[j].dataset_id == dataset_id),
            decreases self.configs.len() - i,
        {
            let c = &self.configs[i];
            if c.pool_id == pool_id && c.dataset_id == dataset_id {
                proof {
                    lemma_config_index_is(self@, pool_id, dataset_id, i as int);
                }
                return Some(copy_bytes(c.data.as_slice()));
            }
            i += 1;
        }
        None
    }

    /// Writes (or overwrites) the persisted configuration for
    /// `(pool_id, dataset_id)`.
    pub fn write_config(&mut self, pool_id: u128, dataset_id: u128, data: Vec<u8>)
        requires
            sys_wf(old(self)@),
        ensures
            final(self)@ == spec_write_config(old(self)@, pool_id, dataset_id, data@),
            sys_wf(final(self)@),
    {
        let mut i: usize = 0;
        while i < self.configs.len()
            invariant
                i <= self.configs.len(),
                sys_wf(self@),
                self@ == old(self)@,
                forall|j: int|
                    0 <= j < i ==> !(self@.configs[j].pool_id == pool_id
                        && self@.configs[j].dataset_id == dataset_id),
            decreases self.configs.len() - i,
        {
            let hit = self.configs[i].pool_id == pool_id && self.configs[i].dataset_id
                == dataset_id;
            if hit {
                proof {
                    lemma_config_index_is(self@, pool_id, dataset_id, i as int);
                }
                let ghost before = self@;
                let slot = &mut self.configs[i];
                *slot = ConfigRecord { pool_id, dataset_id, data };
                proof {
                    assert(self@.configs =~= before.configs.update(
                        i as int,
                        ConfigModel { pool_id, dataset_id, data: data@ },
                    ));
                    assert(self@ == spec_write_config(before, pool_id, dataset_id, data@));
                }
                return ;
            }
            i += 1;
        }
        assert(!sys_has_config(self@, pool_id, dataset_id));
        let ghost before = self@;
        self.configs.push(ConfigRecord { pool_id, dataset_id, data });
        proof {
            assert(self@.configs =~= before.configs.push(
                ConfigModel { pool_id, dataset_id, data: data@ },
            ));
            assert(self@ == spec_write_config(before, pool_id, dataset_id, data@));
            assert forall|i2: int, j2: int| 0 <= i2 < j2 < self@.configs.len() implies !(
            self@.configs[i2].pool_id == self@.configs[j2].pool_id && self@.configs[i2].dataset_id
                == self@.configs[j2].dataset_id) by {
                if j2 == self@.configs.len() - 1 {
                    assert(!(before.configs[i2].pool_id == pool_id && before.configs[i2].dataset_id
                        == dataset_id));
                }
            }
        }
    }

    /// Is installing `name` refused by the host?
    fn name_refused_install(&self, name: &[u8]) -> (r: bool)
        ensures
            r == name_listed(self@.install_refused, name@),
    {
        let mut i: usize = 0;
        while i < self.install_refused.len()
            invariant
                i <= self.install_refused.len(),
                forall|j: int| 0 <= j < i ==> self@.install_refused[j] != name@,
            decreases self.install_refused.len() - i,
        {
            if bytes_eq(self.install_refused[i].as_slice(), name) {
                assert(self@.install_refused[i as int] == name@);
                return true;
            }
            i += 1;
        }
        false
    }

    /// Is booting `name` refused by the host?
    fn name_refused_boot(&self, name: &[u8]) -> (r: bool)
        ensures
            r == name_listed(self@.boot_refused, name@),
    {
        let mut i: usize = 0;
        while i < self.boot_refused.len()
            invariant
                i <= self.boot_refused.len(),
                forall|j: int| 0 <= j < i ==> self@.boot_refused[j] != name@,
            decreases self.boot_refused.len() - i,
        {
            if bytes_eq(self.boot_refused[i].as_slice(), name) {
                assert(self@.boot_refused[i as int] == name@);
                return true;
            }
            i += 1;
        }
        false
    }
}

/// Ensuring a filesystem keeps the state well-formed, makes the filesystem
/// present, leaves every other part of the state alone, and leaves the
/// identity property of an already-present filesystem unchanged.
pub proof fn lemma_ensure_fs_props(m: SystemModel, name: Seq<u8>)
    requires
        sys_wf(m),
    ensures
        ({
            let m1 = spec_ensure_fs(m, name);
            &&& sys_wf(m1)
            &&& sys_has_fs(m1, name)
            &&& fs_prop(m1, name) == if sys_has_fs(m, name) {
                fs_prop(m, name)
            } else {
                PropState::Absent
            }
            &&& m1.zones == m.zones
            &&& m1.configs == m.configs
            &&& m1.commands == m.commands
            &&& m1.pools_present == m.pools_present
            &&& m1.install_refused == m.install_refused
            &&& m1.boot_refused == m.boot_refused
        }),
{
    let m1 = spec_ensure_fs(m, name);
    if sys_has_fs(m, name) {
    } else {
        let n = m.filesystems.len() as int;
        assert(m1.filesystems[n] == (FsModel { name, prop: PropState::Absent }));
        assert forall|i2: int, j2: int|
            0 <= i2 < j2 < m1.filesystems.len() implies m1.filesystems[i2].name
            != m1.filesystems[j2].name by {
            if j2 < n {
                assert(m.filesystems[i2].name != m.filesystems[j2].name);
            } else {
                assert(m1.filesystems[i2] == m.filesystems[i2]);
                assert(!(0 <= i2 < m.filesystems.len() && m.filesystems[i2].name == name));
            }
        }
        lemma_fs_index_is(m1, name, n);
    }
}

/// Stamping the identity property of a present filesystem keeps the state
/// well-formed, reads back as stamped, and leaves everything else alone.
pub proof fn lemma_set_prop_props(m: SystemModel, name: Seq<u8>, prop: PropState)
    requires
        sys_wf(m),
        sys_has_fs(m, name),
    ensures
        ({
            let m1 = spec_set_prop(m, name, prop);
            &&& sys_wf(m1)
            &&& sys_has_fs(m1, name)
            &&& fs_prop(m1, name) == prop
            &&& m1.zones == m.zones
            &&& m1.configs == m.configs
            &&& m1.commands == m.commands
            &&& m1.pools_present == m.pools_present
            &&& m1.install_refused == m.install_refused
            &&& m1.boot_refused == m.boot_refused
        }),
{
    let m1 = spec_set_prop(m, name, prop);
    let i = fs_index(m, name);
    assert(0 <= i < m.filesystems.len() && m.filesystems[i].name == name);
    assert forall|i2: int, j2: int|
        0 <= i2 < j2 < m1.filesystems.len() implies m1.filesystems[i2].name
        != m1.filesystems[j2].name by {
        assert(m1.filesystems[i2].name == m.filesystems[i2].name);
        assert(m1.filesystems[j2].name == m.filesystems[j2].name);
    }
    lemma_fs_index_is(m1, name, i);
}

} // verus!
