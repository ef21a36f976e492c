//! The resources that the cluster manager keeps, and what the storage needs
//! to know of a resource type.

use vstd::prelude::*;
use std::collections::HashSet;

verus! {

broadcast use vstd::std_specs::vec::group_vec_axioms;

/// A type whose values identify resources. The storage keys resources by
/// the 128-bit value of the identifier's UUID.
pub trait ResourceId: Sized + Copy {
    spec fn spec_id(self) -> u128;

    fn into_id(self) -> (id: u128)
        ensures
            id == self.spec_id(),
    ;

    fn from_id(id: u128) -> (resource_id: Self)
        ensures
            resource_id.spec_id() == id,
    ;
}

/// The values that a storage holds: each has a kind, the kind of the
/// resource type that it stores.
pub trait ResourceValue: View + Sized {
    spec fn spec_kind(stored: Self::V) -> u64;
}

/// A resource type whose values a storage of `U` values can hold. Its kind
/// stands for the type; `store` wraps a resource into a stored value and
/// `load` gets it back.
pub trait Resource<U: ResourceValue>: View + Sized {
    type Id: ResourceId;

    spec fn spec_kind() -> u64;

    fn kind() -> (kind: u64)
        ensures
            kind == Self::spec_kind(),
    ;

    spec fn spec_store(resource: Self::V) -> U::V;

    fn store(self) -> (stored: U)
        ensures
            stored@ == Self::spec_store(self@),
    ;

    spec fn spec_load(stored: U::V) -> Option<Self::V>;

    fn load(stored: &U) -> (resource: Option<Self>)
        ensures
            match resource {
                Some(resource) => Self::spec_load(stored@) == Some(resource@),
                None => Self::spec_load(stored@) is None,
            },
    ;

    /// A stored resource loads back as itself, and is stored under the
    /// kind of its type.
    proof fn lemma_store_then_load(resource: Self::V)
        ensures
            Self::spec_load(Self::spec_store(resource)) == Some(resource),
            U::spec_kind(Self::spec_store(resource)) == Self::spec_kind(),
    ;

    /// A stored value loads as this type exactly when it has the type's kind.
    proof fn lemma_load_by_kind(stored: U::V)
        ensures
            Self::spec_load(stored) is Some <==> U::spec_kind(stored) == Self::spec_kind(),
    ;
}

/// The identifier of a cluster.
#[derive(Debug, Clone, Copy, PartialEq, Eq, Hash, Structural)]
pub struct ClusterId(pub u128);

/// The identifier of a peer.
#[derive(Debug, Clone, Copy, PartialEq, Eq, Hash, Structural)]
pub struct PeerId(pub u128);

/// The identifier of a device.
#[derive(Debug, Clone, Copy, PartialEq, Eq, Hash, Structural)]
pub struct DeviceId(pub u128);

impl ResourceId for ClusterId {
    open spec fn spec_id(self) -> u128 {
        self.0
    }

    fn into_id(self) -> (id: u128) {
        self.0
    }

    fn from_id(id: u128) -> (resource_id: ClusterId) {
        ClusterId(id)
    }
}

impl ResourceId for PeerId {
    open spec fn spec_id(self) -> u128 {
        self.0
    }

    fn into_id(self) -> (id: u128) {
        self.0
    }

    fn from_id(id: u128) -> (resource_id: PeerId) {
        PeerId(id)
    }
}

/// The name of a cluster.
#[derive(Debug)]
pub struct ClusterName(pub String);

impl ClusterName {
    /// The name as text.
    pub fn value(&self) -> (value: String)
        ensures
            value@ == self.0@,
    {
        self.0.clone()
    }
}

impl Clone for ClusterName {
    fn clone(&self) -> (copy: ClusterName)
        ensures
            copy == *self,
    {
        ClusterName(self.0.clone())
    }
}

/// What a cluster configuration holds, as mathematical values.
pub struct ClusterConfigurationModel {
    pub id: ClusterId,
    pub name: Seq<char>,
    pub leader: PeerId,
    pub devices: Seq<DeviceId>,
}

/// The devices of `devices`, each once, in the order of their first
/// occurrence.
pub open spec fn unique_devices(devices: Seq<DeviceId>) -> Seq<DeviceId>
    decreases devices.len(),
{
    if devices.len() == 0 {
        Seq::empty()
    } else {
        let before = unique_devices(devices.drop_last());
        if before.contains(devices.last()) {
            before
        } else {
            before.push(devices.last())
        }
    }
}

/// Keeping each device once leaves no device twice and drops no device.
pub proof fn lemma_unique_devices(devices: Seq<DeviceId>)
    ensures
        unique_devices(devices).no_duplicates(),
        forall|device: DeviceId| #[trigger] unique_devices(devices).contains(device) <==> devices.contains(device),
    decreases devices.len(),
{
    if devices.len() > 0 {
        let shorter = devices.drop_last();
        lemma_unique_devices(shorter);
        let before = unique_devices(shorter);
        assert forall|device: DeviceId| #[trigger] unique_devices(devices).contains(device) <==> devices.contains(device) by {
            if devices.contains(device) {
                let k = choose|k: int| 0 <= k < devices.len() && devices[k] == device;
                if k < shorter.len() {
                    assert(shorter[k] == device);
                    assert(shorter.contains(device));
                }
            }
            if shorter.contains(device) {
                let k = choose|k: int| 0 <= k < shorter.len() && shorter[k] == device;
                assert(devices[k] == device);
            }
            if !before.contains(devices.last()) {
                assert(before.push(devices.last())[before.len() as int] == devices.last());
                if before.push(devices.last()).contains(device) && device != devices.last() {
                    let k = choose|k: int| 0 <= k < before.len() + 1 && before.push(devices.last())[k] == device;
                    assert(before[k] == device);
                }
                if before.contains(device) {
                    let k = choose|k: int| 0 <= k < before.len() && before[k] == device;
                    assert(before.push(devices.last())[k] == device);
                }
            }
            assert(devices[devices.len() - 1] == devices.last());
        }
    }
}

/// A sequence of distinct devices keeps all of them, in their order.
pub proof fn lemma_unique_devices_of_distinct(devices: Seq<DeviceId>)
    requires
        devices.no_duplicates(),
    ensures
        unique_devices(devices) == devices,
    decreases devices.len(),
{
    if devices.len() > 0 {
        let shorter = devices.drop_last();
        assert(shorter.no_duplicates()) by {
            assert forall|i: int, j: int| 0 <= i < shorter.len() && 0 <= j < shorter.len() && i != j
                implies shorter[i] != shorter[j] by {
                assert(shorter[i] == devices[i] && shorter[j] == devices[j]);
            }
        }
        lemma_unique_devices_of_distinct(shorter);
        if shorter.contains(devices.last()) {
            let k = choose|k: int| 0 <= k < shorter.len() && shorter[k] == devices.last();
            assert(devices[k] == devices[devices.len() - 1]);
        }
        assert(shorter.push(devices.last()) =~= devices);
    } else {
        assert(devices =~= Seq::empty());
    }
}

/// A cluster: its name, its leading peer and the devices that it connects,
/// each device once.
#[derive(Debug)]
pub struct ClusterConfiguration {
    id: ClusterId,
    name: ClusterName,
    leader: PeerId,
    devices: Vec<DeviceId>,
}

impl View for ClusterConfiguration {
    type V = ClusterConfigurationModel;

    closed spec fn view(&self) -> ClusterConfigurationModel {
        ClusterConfigurationModel {
            id: self.id,
            name: self.name.0@,
            leader: self.leader,
            devices: self.devices@,
        }
    }
}

impl ClusterConfiguration {
    /// A configuration holds each of its devices once.
    #[verifier::type_invariant]
    spec fn devices_distinct(self) -> bool {
        self.devices@.no_duplicates()
    }

    /// The configuration of the cluster `id` named `name`, led by `leader`,
    /// that connects `devices`: a device given more than once counts once,
    /// at its first place.
    pub fn new(id: ClusterId, name: ClusterName, leader: PeerId, devices: Vec<DeviceId>) -> (configuration: ClusterConfiguration)
        ensures
            configuration@ == (ClusterConfigurationModel { id, name: name.0@, leader, devices: unique_devices(devices@) }),
    {
        let mut seen: HashSet<u128> = HashSet::new();
        let mut unique: Vec<DeviceId> = Vec::new();
        for i in 0..devices.len()
            invariant
                unique@ == unique_devices(devices@.take(i as int)),
                forall|device_id: u128| #[trigger] seen@.contains(device_id) <==> unique@.contains(DeviceId(device_id)),
        {
            let device = devices[i];
            assert(devices@.take(i + 1).drop_last() =~= devices@.take(i as int));
            assert(devices@.take(i + 1).last() == device);
            if !seen.contains(&device.0) {
                let ghost before = unique@;
                seen.insert(device.0);
                unique.push(device);
                assert forall|device_id: u128| #[trigger] seen@.contains(device_id) <==> unique@.contains(DeviceId(device_id)) by {
                    if device_id != device.0 {
                        if unique@.contains(DeviceId(device_id)) {
                            let n = choose|n: int| 0 <= n < unique@.len() && unique@[n] == DeviceId(device_id);
                            assert(n < before.len());
                            assert(before.contains(DeviceId(device_id)));
                        }
                        if before.contains(DeviceId(device_id)) {
                            let n = choose|n: int| 0 <= n < before.len() && before[n] == DeviceId(device_id);
                            assert(unique@[n] == DeviceId(device_id));
                        }
                    } else {
                        assert(unique@[before.len() as int] == DeviceId(device_id));
                    }
                }
            }
        }
        assert(devices@.take(devices@.len() as int) =~= devices@);
        proof {
            lemma_unique_devices(devices@);
        }
        ClusterConfiguration { id, name, leader, devices: unique }
    }

    /// The identifier of the cluster.
    pub fn id(&self) -> (id: ClusterId)
        ensures
            id == self@.id,
    {
        self.id
    }

    /// The name of the cluster.
    pub fn name(&self) -> (name: &ClusterName)
        ensures
            name.0@ == self@.name,
    {
        &self.name
    }

    /// The peer that leads the cluster.
    pub fn leader(&self) -> (leader: PeerId)
        ensures
            leader == self@.leader,
    {
        self.leader
    }

    /// The devices of the cluster, each once.
    pub fn devices(&self) -> (devices: &Vec<DeviceId>)
        ensures
            devices@ == self@.devices,
            devices@.no_duplicates(),
    {
        proof {
            use_type_invariant(self);
        }
        &self.devices
    }

    /// The parts of the configuration; its devices are distinct.
    pub fn into_parts(self) -> (parts: (ClusterId, ClusterName, PeerId, Vec<DeviceId>))
        ensures
            parts.0 == self@.id,
            parts.1.0@ == self@.name,
            parts.2 == self@.leader,
            parts.3@ == self@.devices,
            parts.3@.no_duplicates(),
    {
        proof {
            use_type_invariant(&self);
        }
        (self.id, self.name, self.leader, self.devices)
    }
}

impl Clone for ClusterConfiguration {
    fn clone(&self) -> (copy: ClusterConfiguration)
        ensures
            copy@ == self@,
    {
        proof {
            use_type_invariant(self);
        }
        let devices = self.devices.clone();
        assert(devices@ =~= self.devices@);
        ClusterConfiguration { id: self.id, name: self.name.clone(), leader: self.leader, devices }
    }
}

/// The deployment of a cluster.
#[derive(Debug, Clone, Copy, PartialEq, Eq, Structural)]
pub struct ClusterDeployment {
    pub id: ClusterId,
}

impl View for ClusterDeployment {
    type V = ClusterDeployment;

    open spec fn view(&self) -> ClusterDeployment {
        *self
    }
}

/// The kind of cluster configurations in a storage.
pub const CLUSTER_CONFIGURATION_KIND: u64 = 1;

/// The kind of cluster deployments in a storage.
pub const CLUSTER_DEPLOYMENT_KIND: u64 = 2;

/// A resource of the cluster manager, of any of its resource types.
#[derive(Debug)]
pub enum AnyResource {
    ClusterConfiguration(ClusterConfiguration),
    ClusterDeployment(ClusterDeployment),
}

/// What a resource of any type holds, as mathematical values.
pub enum AnyResourceModel {
    ClusterConfiguration(ClusterConfigurationModel),
    ClusterDeployment(ClusterDeployment),
}

impl View for AnyResource {
    type V = AnyResourceModel;

    open spec fn view(&self) -> AnyResourceModel {
        match self {
            AnyResource::ClusterConfiguration(c) => AnyResourceModel::ClusterConfiguration(c@),
            AnyResource::ClusterDeployment(d) => AnyResourceModel::ClusterDeployment(*d),
        }
    }
}

impl ResourceValue for AnyResource {
    open spec fn spec_kind(stored: AnyResourceModel) -> u64 {
        match stored {
            AnyResourceModel::ClusterConfiguration(_) => CLUSTER_CONFIGURATION_KIND,
            AnyResourceModel::ClusterDeployment(_) => CLUSTER_DEPLOYMENT_KIND,
        }
    }
}

impl Resource<AnyResource> for ClusterConfiguration {
    type Id = ClusterId;

    open spec fn spec_kind() -> u64 {
        CLUSTER_CONFIGURATION_KIND
    }

    fn kind() -> (kind: u64) {
        CLUSTER_CONFIGURATION_KIND
    }

    open spec fn spec_store(resource: ClusterConfigurationModel) -> AnyResourceModel {
        AnyResourceModel::ClusterConfiguration(resource)
    }

    fn store(self) -> (stored: AnyResource) {
        AnyResource::ClusterConfiguration(self)
    }

    open spec fn spec_load(stored: AnyResourceModel) -> Option<ClusterConfigurationModel> {
        match stored {
            AnyResourceModel::ClusterConfiguration(c) => Some(c),
            _ => None,
        }
    }

    fn load(stored: &AnyResource) -> (resource: Option<ClusterConfiguration>) {
        match stored {
            AnyResource::ClusterConfiguration(c) => Some(c.clone()),
            _ => None,
        }
    }

    proof fn lemma_store_then_load(resource: ClusterConfigurationModel) {
    }

    proof fn lemma_load_by_kind(stored: AnyResourceModel) {
    }
}

impl Resource<AnyResource> for ClusterDeployment {
    type Id = ClusterId;

    open spec fn spec_kind() -> u64 {
        CLUSTER_DEPLOYMENT_KIND
    }

    fn kind() -> (kind: u64) {
        CLUSTER_DEPLOYMENT_KIND
    }

    open spec fn spec_store(resource: ClusterDeployment) -> AnyResourceModel {
        AnyResourceModel::ClusterDeployment(resource)
    }

    fn store(self) -> (stored: AnyResource) {
        AnyResource::ClusterDeployment(self)
    }

    open spec fn spec_load(stored: AnyResourceModel) -> Option<ClusterDeployment> {
        match stored {
            AnyResourceModel::ClusterDeployment(d) => Some(d),
            _ => None,
        }
    }

    fn load(stored: &AnyResource) -> (resource: Option<ClusterDeployment>) {
        match stored {
            AnyResource::ClusterDeployment(d) => Some(*d),
            _ => None,
        }
    }

    proof fn lemma_store_then_load(resource: ClusterDeployment) {
    }

    proof fn lemma_load_by_kind(stored: AnyResourceModel) {
    }
}

/// The two resource types of the cluster manager have kinds of their own,
/// so a storage never gives a value of one as a value of the other.
pub proof fn lemma_resource_kinds_differ()
    ensures
        <ClusterConfiguration as Resource<AnyResource>>::spec_kind()
            != <ClusterDeployment as Resource<AnyResource>>::spec_kind(),
        forall|stored: AnyResourceModel|
            !(#[trigger] <ClusterConfiguration as Resource<AnyResource>>::spec_load(stored) is Some
                && <ClusterDeployment as Resource<AnyResource>>::spec_load(stored) is Some),
{
}

} // verus!
