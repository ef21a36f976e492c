//! What the cluster manager writes to and reads from its databases: the rows
//! of a cluster configuration, and the keys under which resources are kept.

use vstd::prelude::*;
use std::collections::HashSet;
use crate::resources::{ClusterConfiguration, ClusterId, ClusterName, DeviceId, PeerId, unique_devices, lemma_unique_devices, lemma_unique_devices_of_distinct};

verus! {

broadcast use vstd::std_specs::hash::group_hash_axioms;

/// The row of a cluster configuration.
#[derive(Debug)]
pub struct PersistableClusterConfiguration {
    pub cluster_id: u128,
    pub name: String,
    pub leader_id: u128,
}

/// The row that assigns a device to a cluster.
#[derive(Debug, Clone, Copy, PartialEq, Eq, Structural)]
pub struct PersistableClusterDevice {
    pub cluster_id: u128,
    pub device_id: u128,
}

/// The row of a tag of a device.
#[derive(Debug)]
pub struct PersistableDeviceTag {
    pub device_id: u128,
    pub name: String,
}

/// The statements that store a cluster configuration: the configuration
/// row to insert or update, the device rows to delete, and the device rows
/// to insert.
#[derive(Debug)]
pub struct ClusterConfigurationInsertion {
    pub configuration: PersistableClusterConfiguration,
    pub removed_devices: Vec<PersistableClusterDevice>,
    pub inserted_devices: Vec<PersistableClusterDevice>,
}

/// Whether `devices` holds the device with identifier `device_id`.
pub open spec fn holds_device(devices: Seq<DeviceId>, device_id: u128) -> bool {
    devices.contains(DeviceId(device_id))
}

/// The previous device rows of a cluster whose device is no longer among
/// `devices`, in their order.
pub open spec fn stale_devices(previous: Seq<PersistableClusterDevice>, devices: Seq<DeviceId>) -> Seq<PersistableClusterDevice> {
    previous.filter(|row: PersistableClusterDevice| !holds_device(devices, row.device_id))
}

/// The device rows of the cluster `cluster_id` for `devices`, in their order.
pub open spec fn device_rows(cluster_id: u128, devices: Seq<DeviceId>) -> Seq<PersistableClusterDevice> {
    devices.map_values(|device: DeviceId| PersistableClusterDevice { cluster_id, device_id: device.0 })
}

/// What storing `cluster_configuration` does, given the device rows that
/// its cluster had before: the configuration row is written, the device
/// rows whose device the configuration no longer holds are deleted, and a
/// row is written for each of its devices.
pub fn plan_cluster_configuration_insertion(
    cluster_configuration: ClusterConfiguration,
    previous_cluster_devices: &Vec<PersistableClusterDevice>,
) -> (insertion: ClusterConfigurationInsertion)
    ensures
        insertion.configuration.cluster_id == cluster_configuration@.id.0,
        insertion.configuration.name@ == cluster_configuration@.name,
        insertion.configuration.leader_id == cluster_configuration@.leader.0,
        insertion.removed_devices@ == stale_devices(previous_cluster_devices@, cluster_configuration@.devices),
        insertion.inserted_devices@ == device_rows(cluster_configuration@.id.0, cluster_configuration@.devices),
{
    let (id, name, leader, devices) = cluster_configuration.into_parts();
    let configuration = PersistableClusterConfiguration {
        cluster_id: id.0,
        name: name.value(),
        leader_id: leader.0,
    };
    let mut wanted: HashSet<u128> = HashSet::new();
    for i in 0..devices.len()
        invariant
            forall|device_id: u128| #[trigger] wanted@.contains(device_id) <==> exists|j: int| 0 <= j < i && devices@[j].0 == device_id,
    {
        wanted.insert(devices[i].0);
    }
    assert forall|device_id: u128| #[trigger] wanted@.contains(device_id) <==> holds_device(devices@, device_id) by {
        if wanted@.contains(device_id) {
            let j = choose|j: int| 0 <= j < devices@.len() && devices@[j].0 == device_id;
            assert(devices@[j] == DeviceId(device_id));
        }
        if holds_device(devices@, device_id) {
            let j = choose|j: int| 0 <= j < devices@.len() && devices@[j] == DeviceId(device_id);
            assert(devices@[j].0 == device_id);
        }
    }
    let mut removed_devices: Vec<PersistableClusterDevice> = Vec::new();
    let ghost keep_out = |row: PersistableClusterDevice| !holds_device(devices@, row.device_id);
    for i in 0..previous_cluster_devices.len()
        invariant
            forall|device_id: u128| #[trigger] wanted@.contains(device_id) <==> holds_device(devices@, device_id),
            keep_out == (|row: PersistableClusterDevice| !holds_device(devices@, row.device_id)),
            removed_devices@ == previous_cluster_devices@.take(i as int).filter(keep_out),
    {
        let previous = previous_cluster_devices[i];
        proof {
            assert(previous_cluster_devices@.take(i + 1) =~= previous_cluster_devices@.take(i as int).push(previous));
            previous_cluster_devices@.take(i as int).lemma_filter_push(previous, keep_out);
        }
        if !wanted.contains(&previous.device_id) {
            removed_devices.push(previous);
        }
    }
    assert(previous_cluster_devices@.take(previous_cluster_devices@.len() as int) =~= previous_cluster_devices@);
    let mut inserted_devices: Vec<PersistableClusterDevice> = Vec::new();
    for i in 0..devices.len()
        invariant
            inserted_devices@ == device_rows(id.0, devices@.take(i as int)),
    {
        inserted_devices.push(PersistableClusterDevice { cluster_id: id.0, device_id: devices[i].0 });
        assert(inserted_devices@ =~= device_rows(id.0, devices@.take(i + 1)));
    }
    assert(devices@.take(devices@.len() as int) =~= devices@);
    ClusterConfigurationInsertion { configuration, removed_devices, inserted_devices }
}

/// After storing a configuration, the device rows of its cluster are those
/// of its devices: a previous row is deleted exactly when its device is no
/// longer held, and a row is written for each held device.
pub proof fn lemma_insertion_leaves_the_held_devices(
    previous: Seq<PersistableClusterDevice>,
    cluster_id: u128,
    devices: Seq<DeviceId>,
    row: PersistableClusterDevice,
)
    ensures
        previous.contains(row) ==> (stale_devices(previous, devices).contains(row) <==> !holds_device(devices, row.device_id)),
        row.cluster_id == cluster_id ==> (device_rows(cluster_id, devices).contains(row) <==> holds_device(devices, row.device_id)),
{
    let stale = |r: PersistableClusterDevice| !holds_device(devices, r.device_id);
    if previous.contains(row) {
        let i = choose|i: int| 0 <= i < previous.len() && previous[i] == row;
        if stale(row) {
            previous.lemma_filter_contains(stale, i);
        }
        if stale_devices(previous, devices).contains(row) {
            let j = choose|j: int| 0 <= j < previous.filter(stale).len() && previous.filter(stale)[j] == row;
            previous.lemma_filter_pred(stale, j);
        }
    }
    let rows = device_rows(cluster_id, devices);
    if row.cluster_id == cluster_id {
        if holds_device(devices, row.device_id) {
            let k = choose|k: int| 0 <= k < devices.len() && devices[k] == DeviceId(row.device_id);
            assert(rows[k] == row);
        }
        if rows.contains(row) {
            let k = choose|k: int| 0 <= k < rows.len() && rows[k] == row;
            assert(devices[k] == DeviceId(row.device_id));
        }
    }
}

/// Reading back the device rows that storing a configuration writes gives
/// its devices: a device has a row exactly when the configuration holds it.
pub proof fn lemma_device_rows_read_back(cluster_id: u128, devices: Seq<DeviceId>, device: DeviceId)
    ensures
        (exists|i: int| 0 <= i < device_rows(cluster_id, devices).len()
            && #[trigger] device_rows(cluster_id, devices)[i].device_id == device.0) <==> devices.contains(device),
{
    let rows = device_rows(cluster_id, devices);
    if devices.contains(device) {
        let k = choose|k: int| 0 <= k < devices.len() && devices[k] == device;
        assert(rows[k].device_id == device.0);
    }
    if exists|i: int| 0 <= i < rows.len() && #[trigger] rows[i].device_id == device.0 {
        let i = choose|i: int| 0 <= i < rows.len() && #[trigger] rows[i].device_id == device.0;
        assert(devices[i] == device);
    }
}

/// The devices that a sequence of device rows names, row by row.
pub open spec fn row_devices(rows: Seq<PersistableClusterDevice>) -> Seq<DeviceId> {
    rows.map_values(|row: PersistableClusterDevice| DeviceId(row.device_id))
}

/// The devices of a sequence of device rows, each once, in the order of its
/// first row.
pub open spec fn distinct_devices(rows: Seq<PersistableClusterDevice>) -> Seq<DeviceId> {
    unique_devices(row_devices(rows))
}

/// Storing a configuration and reading its device rows back gives its
/// devices again, in their order: the rows that storing writes for a list of
/// distinct devices read back as that list.
pub proof fn lemma_device_rows_round_trip(cluster_id: u128, devices: Seq<DeviceId>)
    requires
        devices.no_duplicates(),
    ensures
        distinct_devices(device_rows(cluster_id, devices)) == devices,
{
    assert(row_devices(device_rows(cluster_id, devices)) =~= devices);
    lemma_unique_devices_of_distinct(devices);
}

/// The cluster configuration that a configuration row and the device rows
/// of its cluster describe: each device once, in the order of its first row.
pub fn cluster_configuration_from_persistable(
    persistable: PersistableClusterConfiguration,
    cluster_devices: &Vec<PersistableClusterDevice>,
) -> (configuration: ClusterConfiguration)
    ensures
        configuration@.id == ClusterId(persistable.cluster_id),
        configuration@.name == persistable.name@,
        configuration@.leader == PeerId(persistable.leader_id),
        configuration@.devices == distinct_devices(cluster_devices@),
        configuration@.devices.no_duplicates(),
        forall|device: DeviceId| configuration@.devices.contains(device) <==>
            exists|i: int| 0 <= i < cluster_devices@.len() && #[trigger] cluster_devices@[i].device_id == device.0,
{
    let PersistableClusterConfiguration { cluster_id, name, leader_id } = persistable;
    let mut devices: Vec<DeviceId> = Vec::new();
    for i in 0..cluster_devices.len()
        invariant
            devices@ == row_devices(cluster_devices@.take(i as int)),
    {
        devices.push(DeviceId(cluster_devices[i].device_id));
        assert(devices@ =~= row_devices(cluster_devices@.take(i + 1)));
    }
    assert(cluster_devices@.take(cluster_devices@.len() as int) =~= cluster_devices@);
    proof {
        let named = row_devices(cluster_devices@);
        lemma_unique_devices(named);
        assert forall|device: DeviceId| named.contains(device) <==>
            exists|i: int| 0 <= i < cluster_devices@.len() && #[trigger] cluster_devices@[i].device_id == device.0 by {
            if named.contains(device) {
                let k = choose|k: int| 0 <= k < named.len() && named[k] == device;
                assert(cluster_devices@[k].device_id == device.0);
            }
            if exists|i: int| 0 <= i < cluster_devices@.len() && #[trigger] cluster_devices@[i].device_id == device.0 {
                let i = choose|i: int| 0 <= i < cluster_devices@.len() && #[trigger] cluster_devices@[i].device_id == device.0;
                assert(named[i] == device);
            }
        }
    }
    ClusterConfiguration::new(ClusterId(cluster_id), ClusterName(name), PeerId(leader_id), devices)
}

/// The value of a big-endian sequence of bytes.
pub open spec fn u128_from_be_bytes(bytes: Seq<u8>) -> int
    decreases bytes.len(),
{
    if bytes.len() == 0 {
        0
    } else {
        u128_from_be_bytes(bytes.drop_last()) * 256 + bytes.last()
    }
}

/// Calls `uuid::Uuid::from_u128(value)` and takes its bytes with `as_bytes`.
/// By `uuid`'s source, `from_u128` keeps `value.to_be_bytes()` as the bytes of
/// the UUID, so the 16 bytes are the big-endian representation of `value`:
/// read back big-endian, they give `value`.
#[verifier::external_body]
fn uuid_bytes(value: u128) -> (bytes: [u8; 16])
    ensures
        u128_from_be_bytes(bytes@) == value,
{
    *uuid::Uuid::from_u128(value).as_bytes()
}

#[verifier::external_type_specification]
#[verifier::external_body]
pub struct ExUuidError(uuid::Error);

/// Calls `uuid::Uuid::from_slice(bytes)` and takes the value of the UUID
/// with `as_u128`. By `uuid`'s source, `from_slice` fails exactly when
/// `bytes` does not hold 16 bytes, and otherwise keeps the bytes as they are;
/// `as_u128` reads them big-endian.
#[verifier::external_body]
fn uuid_from_slice(bytes: &[u8]) -> (value: Result<u128, uuid::Error>)
    ensures
        value is Ok <==> bytes@.len() == 16,
        value matches Ok(v) ==> v as int == u128_from_be_bytes(bytes@),
{
    match uuid::Uuid::from_slice(bytes) {
        Ok(uuid) => Ok(uuid.as_u128()),
        Err(error) => Err(error),
    }
}

/// The key under which a resource of a cluster is kept: the 16 bytes of the
/// cluster's UUID.
pub fn cluster_key(cluster_id: ClusterId) -> (key: [u8; 16])
    ensures
        u128_from_be_bytes(key@) == cluster_id.0,
{
    uuid_bytes(cluster_id.0)
}

/// A key that is not the 16 bytes of a UUID.
#[derive(Debug, Clone, Copy, PartialEq, Eq, Structural)]
pub struct InvalidKeyLength {
    pub len: usize,
}

/// The cluster whose key `key` is; a key of any length but 16 is refused.
pub fn cluster_id_from_key(key: &[u8]) -> (cluster_id: Result<ClusterId, InvalidKeyLength>)
    ensures
        cluster_id is Ok <==> key@.len() == 16,
        cluster_id matches Ok(id) ==> id.0 as int == u128_from_be_bytes(key@),
        cluster_id matches Err(error) ==> error.len == key@.len(),
{
    match uuid_from_slice(key) {
        Ok(value) => Ok(ClusterId(value)),
        Err(_) => Err(InvalidKeyLength { len: key.len() }),
    }
}

/// A cluster's key gives the cluster back.
pub proof fn lemma_key_identifies_cluster(cluster_id: ClusterId, key: Seq<u8>, other: ClusterId)
    requires
        key.len() == 16,
        u128_from_be_bytes(key) == cluster_id.0,
        other.0 as int == u128_from_be_bytes(key),
    ensures
        other == cluster_id,
{
}

} // verus!
