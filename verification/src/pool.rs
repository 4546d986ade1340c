//! The in-memory record of one storage pool.
//!
//! A pool is identified by a name that, by this system's naming convention,
//! is the textual form of its identifier. The record carries the capacity
//! the host reported for the pool and the set of zones currently running
//! against datasets in the pool, keyed by dataset identity.

use vstd::prelude::*;
use crate::bytes::append_bytes;
use crate::bytes::copy_bytes;
use crate::error::Error;
use crate::ids::format_uuid;
use crate::ids::parse_uuid;
use crate::ids::uuid_of;
use crate::ids::uuid_text_of;
use crate::system::LiveZone;
use crate::system::StorageSystem;
use crate::system::ZoneModel;
use crate::system::listing_size;
use crate::system::sys_has_listing;
use crate::system::sys_wf;

verus! {

/// One active zone, keyed by the identity of the dataset it serves.
pub struct ZoneEntry {
    pub dataset_id: u128,
    pub zone: LiveZone,
}

pub struct ZoneEntryModel {
    pub dataset_id: u128,
    pub zone: ZoneModel,
}

impl View for ZoneEntry {
    type V = ZoneEntryModel;

    open spec fn view(&self) -> ZoneEntryModel {
        ZoneEntryModel { dataset_id: self.dataset_id, zone: self.zone@ }
    }
}

/// A storage pool: its identity, its name, the capacity the host reported,
/// and the zones running against its datasets.
pub struct Pool {
    pub id: u128,
    pub name: Vec<u8>,
    pub size: u64,
    pub zones: Vec<ZoneEntry>,
}

pub struct PoolModel {
    pub id: u128,
    pub name: Seq<u8>,
    pub size: u64,
    pub zones: Seq<ZoneEntryModel>,
}

impl View for Pool {
    type V = PoolModel;

    open spec fn view(&self) -> PoolModel {
        PoolModel {
            id: self.id,
            name: self.name@,
            size: self.size,
            zones: self.zones@.map_values(|z: ZoneEntry| z@),
        }
    }
}

/// At most one active zone per dataset identity.
pub open spec fn pool_wf(p: PoolModel) -> bool {
    forall|i: int, j: int|
        0 <= i < j < p.zones.len() ==> p.zones[i].dataset_id != p.zones[j].dataset_id
}

pub open spec fn pool_has_zone(p: PoolModel, dataset_id: u128) -> bool {
    exists|i: int| 0 <= i < p.zones.len() && p.zones[i].dataset_id == dataset_id
}

pub open spec fn zone_index(p: PoolModel, dataset_id: u128) -> int {
    choose|i: int| 0 <= i < p.zones.len() && p.zones[i].dataset_id == dataset_id
}

/// The zone recorded for a dataset (meaningful when one is recorded).
pub open spec fn pool_zone(p: PoolModel, dataset_id: u128) -> ZoneModel {
    p.zones[zone_index(p, dataset_id)].zone
}

/// Recording a zone for a dataset: last writer wins.
pub open spec fn spec_add_zone(p: PoolModel, dataset_id: u128, z: ZoneModel) -> PoolModel {
    let e = ZoneEntryModel { dataset_id, zone: z };
    if pool_has_zone(p, dataset_id) {
        PoolModel { zones: p.zones.update(zone_index(p, dataset_id), e), ..p }
    } else {
        PoolModel { zones: p.zones.push(e), ..p }
    }
}

/// After recording a zone, the pool holds it, keeps its other entries, and
/// stays well-formed.
pub proof fn lemma_spec_add_zone(p: PoolModel, dataset_id: u128, z: ZoneModel)
    requires
        pool_wf(p),
    ensures
        pool_wf(spec_add_zone(p, dataset_id, z)),
        pool_has_zone(spec_add_zone(p, dataset_id, z), dataset_id),
        pool_zone(spec_add_zone(p, dataset_id, z), dataset_id) == z,
        spec_add_zone(p, dataset_id, z).id == p.id,
        spec_add_zone(p, dataset_id, z).name == p.name,
        spec_add_zone(p, dataset_id, z).size == p.size,
        forall|other: u128|
            other != dataset_id ==> (pool_has_zone(spec_add_zone(p, dataset_id, z), other)
                <==> pool_has_zone(p, other)),
{
    let q = spec_add_zone(p, dataset_id, z);
    let e = ZoneEntryModel { dataset_id, zone: z };
    if pool_has_zone(p, dataset_id) {
        let i = zone_index(p, dataset_id);
        assert(0 <= i < p.zones.len() && p.zones[i].dataset_id == dataset_id);
        assert(q.zones[i] == e);
        lemma_zone_index_is(q, dataset_id, i);
        assert forall|other: u128| other != dataset_id implies (pool_has_zone(q, other)
            <==> pool_has_zone(p, other)) by {
            if pool_has_zone(q, other) {
                let k = choose|k: int| 0 <= k < q.zones.len() && q.zones[k].dataset_id == other;
                assert(p.zones[k].dataset_id == other);
            }
            if pool_has_zone(p, other) {
                let k = choose|k: int| 0 <= k < p.zones.len() && p.zones[k].dataset_id == other;
                assert(q.zones[k].dataset_id == other);
            }
        }
    } else {
        let n = p.zones.len() as int;
        assert(q.zones[n] == e);
        assert forall|i2: int, j2: int| 0 <= i2 < j2 < q.zones.len() implies q.zones[i2].dataset_id
            != q.zones[j2].dataset_id by {
            if j2 < n {
                assert(p.zones[i2].dataset_id != p.zones[j2].dataset_id);
            } else {
                assert(q.zones[i2] == p.zones[i2]);
                assert(!(0 <= i2 < p.zones.len() && p.zones[i2].dataset_id == dataset_id));
            }
        }
        lemma_zone_index_is(q, dataset_id, n);
        assert forall|other: u128| other != dataset_id implies (pool_has_zone(q, other)
            <==> pool_has_zone(p, other)) by {
            if pool_has_zone(q, other) {
                let k = choose|k: int| 0 <= k < q.zones.len() && q.zones[k].dataset_id == other;
                assert(k < n);
                assert(p.zones[k].dataset_id == other);
            }
            if pool_has_zone(p, other) {
                let k = choose|k: int| 0 <= k < p.zones.len() && p.zones[k].dataset_id == other;
                assert(q.zones[k].dataset_id == other);
            }
        }
    }
}

pub proof fn lemma_zone_index_is(p: PoolModel, dataset_id: u128, i: int)
    requires
        pool_wf(p),
        0 <= i < p.zones.len(),
        p.zones[i].dataset_id == dataset_id,
    ensures
        pool_has_zone(p, dataset_id),
        zone_index(p, dataset_id) == i,
{
    assert(pool_has_zone(p, dataset_id));
    let j = zone_index(p, dataset_id);
    if i != j {
        assert(p.zones[i].dataset_id != p.zones[j].dataset_id);
    }
}

/// Text `/var/tmp/`, where persisted configurations live.
pub open spec fn txt_config_dir() -> Seq<u8> {
    seq![47u8, 118, 97, 114, 47, 116, 109, 112, 47]
}

fn vec_config_dir() -> (r: Vec<u8>)
    ensures
        r@ == txt_config_dir(),
{
    let a: [u8; 9] = [47u8, 118, 97, 114, 47, 116, 109, 112, 47];
    let r = copy_bytes(a.as_slice());
    assert(r@ =~= txt_config_dir());
    r
}
/// Text `.conf`, the persisted configuration file suffix.
pub open spec fn txt_config_suffix() -> Seq<u8> {
    seq![46u8, 99, 111, 110, 102]
}

fn vec_config_suffix() -> (r: Vec<u8>)
    ensures
        r@ == txt_config_suffix(),
{
    let a: [u8; 5] = [46u8, 99, 111, 110, 102];
    let r = copy_bytes(a.as_slice());
    assert(r@ =~= txt_config_suffix());
    r
}

/// The path of the persisted configuration of dataset `dataset_id` within
/// pool `pool_id`: `/var/tmp/<pool>/<dataset>.conf`.
pub open spec fn spec_config_path(pool_id: u128, dataset_id: u128) -> Seq<u8> {
    txt_config_dir() + uuid_text_of(pool_id) + seq![47u8] + uuid_text_of(dataset_id)
        + txt_config_suffix()
}

impl Pool {
    /// Queries the host for the named pool and builds its record.
    ///
    /// Succeeds exactly when the host can describe the pool and its name
    /// parses as an identifier; the record then starts with no zones and the
    /// reported capacity.
    pub fn new(name: &[u8], sys: &StorageSystem) -> (r: Result<Pool, Error>)
        requires
            sys_wf(sys@),
        ensures
            match r {
                Ok(p) => sys_has_listing(sys@, name@) && uuid_of(name@) == Some(p.id) && p.name@
                    == name@ && p.size == listing_size(sys@, name@) && p@.zones.len() == 0
                    && pool_wf(p@),
                Err(e) => (e == Error::PoolQuery && !sys_has_listing(sys@, name@)) || (e
                    == Error::Identity && sys_has_listing(sys@, name@) && uuid_of(name@) is None),
            },
    {
        let size = match sys.describe_pool(name) {
            Some(size) => size,
            None => {
                return Err(Error::PoolQuery);
            },
        };
        let id = match parse_uuid(name) {
            Some(id) => id,
            None => {
                return Err(Error::Identity);
            },
        };
        Ok(Pool { id, name: copy_bytes(name), size, zones: Vec::new() })
    }

    /// The identity of the pool itself.
    pub fn id(&self) -> (r: u128)
        ensures
            r == self.id,
    {
        self.id
    }

    /// Records an active zone for a dataset; a prior record for the same
    /// dataset is overwritten.
    pub fn add_zone(&mut self, dataset_id: u128, zone: LiveZone)
        requires
            pool_wf(old(self)@),
        ensures
            final(self)@ == spec_add_zone(old(self)@, dataset_id, zone@),
            pool_wf(final(self)@),
    {
        let ghost z = zone@;
        let mut i: usize = 0;
        while i < self.zones.len()
            invariant
                i <= self.zones.len(),
                pool_wf(self@),
                self@ == old(self)@,
                zone@ == z,
                forall|j: int| 0 <= j < i ==> self@.zones[j].dataset_id != dataset_id,
            decreases self.zones.len() - i,
        {
            if self.zones[i].dataset_id == dataset_id {
                proof {
                    lemma_zone_index_is(self@, dataset_id, i as int);
                }
                let ghost before = self@;
                let slot = &mut self.zones[i];
                *slot = ZoneEntry { dataset_id, zone };
                proof {
                    assert(self@.zones =~~= before.zones.update(
                        i as int,
                        ZoneEntryModel { dataset_id, zone: z },
                    ));
                    assert(self@ == spec_add_zone(before, dataset_id, z));
                }
                return ;
            }
            i += 1;
        }
        assert(!pool_has_zone(self@, dataset_id));
        let ghost before = self@;
        self.zones.push(ZoneEntry { dataset_id, zone });
        proof {
            assert(self@.zones =~~= before.zones.push(ZoneEntryModel { dataset_id, zone: z }));
            assert(self@ == spec_add_zone(before, dataset_id, z));
        }
    }

    /// The zone recorded for a dataset, if any.
    pub fn get_zone(&self, dataset_id: u128) -> (r: Option<&LiveZone>)
        requires
            pool_wf(self@),
        ensures
            match r {
                Some(z) => pool_has_zone(self@, dataset_id) && z@ == pool_zone(self@, dataset_id),
                None => !pool_has_zone(self@, dataset_id),
            },
    {
        let mut i: usize = 0;
        while i < self.zones.len()
            invariant
                i <= self.zones.len(),
                pool_wf(self@),
                forall|j: int| 0 <= j < i ==> self@.zones[j].dataset_id != dataset_id,
            decreases self.zones.len() - i,
        {
            if self.zones[i].dataset_id == dataset_id {
                proof {
                    lemma_zone_index_is(self@, dataset_id, i as int);
                }
                return Some(&self.zones[i].zone);
            }
            i += 1;
        }
        None
    }

    /// The path at which the configuration of dataset `dataset_id` within
    /// this pool is persisted.
    pub fn dataset_config_path(&self, dataset_id: u128) -> (r: Vec<u8>)
        ensures
            r@ == spec_config_path(self.id, dataset_id),
    {
        let mut r = vec_config_dir();
        let ptext = format_uuid(self.id);
        append_bytes(&mut r, ptext.as_slice());
        r.push(47);
        let dtext = format_uuid(dataset_id);
        append_bytes(&mut r, dtext.as_slice());
        let suffix = vec_config_suffix();
        append_bytes(&mut r, suffix.as_slice());
        assert(r@ =~= spec_config_path(self.id, dataset_id));
        r
    }
}

} // verus!
