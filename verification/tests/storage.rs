use opendut::resources::{AnyResource, ClusterConfiguration, ClusterDeployment, ClusterId, ClusterName, DeviceId, PeerId, Resource};
use opendut::volatile::{VolatileResourcesStorage, VolatileResourcesStorageHandle};
use opendut::cluster::{deployed_cluster_configurations, list_deployed_clusters};

fn configuration(id: u128, name: &str, devices: &[u128]) -> ClusterConfiguration {
    ClusterConfiguration::new(ClusterId(id), ClusterName(name.to_string()), PeerId(100 + id), devices.iter().map(|d| DeviceId(*d)).collect())
}

#[test]
fn read_gives_back_what_was_written() {
    let mut storage = VolatileResourcesStorage::<AnyResource>::new();
    storage.insert(ClusterId(1), configuration(1, "first", &[7, 8]));
    let read: Option<ClusterConfiguration> = storage.get(ClusterId(1));
    let read = read.unwrap();
    assert_eq!(read.name().0, "first");
    assert_eq!(*read.devices(), vec![DeviceId(7), DeviceId(8)]);
    assert_eq!(read.leader(), PeerId(101));
}

#[test]
fn resource_types_do_not_see_each_other() {
    let mut storage = VolatileResourcesStorage::<AnyResource>::new();
    storage.insert(ClusterId(1), ClusterDeployment { id: ClusterId(1) });
    let configuration: Option<ClusterConfiguration> = storage.get(ClusterId(1));
    assert!(configuration.is_none());
    assert!(storage.contains::<ClusterDeployment>(ClusterId(1)));
    assert!(!storage.contains::<ClusterConfiguration>(ClusterId(1)));
}

#[test]
fn insert_replaces_the_resource_under_the_same_id() {
    let mut storage = VolatileResourcesStorage::<AnyResource>::new();
    storage.insert(ClusterId(1), configuration(1, "old", &[]));
    storage.insert(ClusterId(1), configuration(1, "new", &[3]));
    let listed = storage.list::<ClusterConfiguration>();
    assert_eq!(listed.len(), 1);
    assert_eq!(listed[0].1.name().0, "new");
}

#[test]
fn remove_returns_the_resource_and_empties_the_storage() {
    let mut storage = VolatileResourcesStorage::<AnyResource>::new();
    assert!(storage.is_empty());
    storage.insert(ClusterId(5), ClusterDeployment { id: ClusterId(5) });
    assert!(!storage.is_empty());
    let removed: Option<ClusterDeployment> = storage.remove(ClusterId(5));
    assert_eq!(removed, Some(ClusterDeployment { id: ClusterId(5) }));
    assert!(storage.is_empty());
    let again: Option<ClusterDeployment> = storage.remove(ClusterId(5));
    assert_eq!(again, None);
}

#[test]
fn remove_of_another_type_keeps_the_resource() {
    let mut storage = VolatileResourcesStorage::<AnyResource>::new();
    storage.insert(ClusterId(5), ClusterDeployment { id: ClusterId(5) });
    let removed: Option<ClusterConfiguration> = storage.remove(ClusterId(5));
    assert!(removed.is_none());
    assert!(storage.contains::<ClusterDeployment>(ClusterId(5)));
}

#[test]
fn list_gives_each_resource_of_the_type_once() {
    let mut storage = VolatileResourcesStorage::<AnyResource>::new();
    storage.insert(ClusterId(1), ClusterDeployment { id: ClusterId(1) });
    storage.insert(ClusterId(2), ClusterDeployment { id: ClusterId(2) });
    storage.insert(ClusterId(3), configuration(3, "other", &[]));
    let mut listed = storage.list::<ClusterDeployment>();
    listed.sort_by_key(|entry| entry.0 .0);
    assert_eq!(listed, vec![(ClusterId(1), ClusterDeployment { id: ClusterId(1) }), (ClusterId(2), ClusterDeployment { id: ClusterId(2) })]);
    assert!(storage.list::<ClusterConfiguration>().len() == 1);
}

#[test]
fn handle_transactions_write_into_the_handle() {
    let mut handle = VolatileResourcesStorageHandle::<AnyResource>::new();
    assert!(handle.is_empty());
    {
        let mut transaction = handle.transaction();
        transaction.insert(ClusterId(9), ClusterDeployment { id: ClusterId(9) });
        let read: Option<ClusterDeployment> = transaction.get(ClusterId(9));
        assert_eq!(read, Some(ClusterDeployment { id: ClusterId(9) }));
    }
    assert!(handle.contains::<ClusterDeployment>(ClusterId(9)));
    {
        let mut transaction = handle.transaction();
        let removed: Option<ClusterDeployment> = transaction.remove(ClusterId(9));
        assert!(removed.is_some());
        assert!(transaction.list::<ClusterDeployment>().is_empty());
    }
    assert!(handle.is_empty());
}

#[test]
fn deployed_clusters_are_those_with_a_deployment() {
    let configurations = vec![configuration(1, "a", &[]), configuration(2, "b", &[]), configuration(3, "c", &[])];
    let deployments = vec![ClusterDeployment { id: ClusterId(3) }, ClusterDeployment { id: ClusterId(1) }];
    let deployed = deployed_cluster_configurations(&deployments, &configurations);
    let names: Vec<String> = deployed.iter().map(|c| c.name().0.clone()).collect();
    assert_eq!(names, vec!["a".to_string(), "c".to_string()]);
}

#[test]
fn list_deployed_clusters_reads_the_storage() {
    let mut storage = VolatileResourcesStorage::<AnyResource>::new();
    storage.insert(ClusterId(1), configuration(1, "deployed", &[4]));
    storage.insert(ClusterId(2), configuration(2, "idle", &[]));
    storage.insert(ClusterId(1), ClusterDeployment { id: ClusterId(1) });
    let deployed = list_deployed_clusters(&storage);
    assert_eq!(deployed.len(), 1);
    assert_eq!(deployed[0].name().0, "deployed");
    assert!(list_deployed_clusters(&VolatileResourcesStorage::<AnyResource>::new()).is_empty());
}

#[test]
fn insert_then_remove_restores_the_storage() {
    let mut storage = VolatileResourcesStorage::<AnyResource>::new();
    storage.insert(ClusterId(1), ClusterDeployment { id: ClusterId(1) });
    storage.insert(ClusterId(2), configuration(2, "kept", &[]));
    let _: Option<ClusterDeployment> = storage.remove(ClusterId(1));
    assert!(!storage.contains::<ClusterDeployment>(ClusterId(1)));
    assert!(storage.list::<ClusterDeployment>().is_empty());
    let kept: Option<ClusterConfiguration> = storage.get(ClusterId(2));
    assert_eq!(kept.unwrap().name().0, "kept");
    let _: Option<ClusterConfiguration> = storage.remove(ClusterId(2));
    assert!(storage.is_empty());
}

#[test]
fn default_storages_are_empty() {
    assert!(VolatileResourcesStorage::<AnyResource>::default().is_empty());
    assert!(VolatileResourcesStorageHandle::<AnyResource>::default().is_empty());
}

#[test]
fn configuration_keeps_each_device_once() {
    let configuration = configuration(5, "twice", &[3, 4, 3, 5, 4]);
    assert_eq!(*configuration.devices(), vec![DeviceId(3), DeviceId(4), DeviceId(5)]);
    assert_eq!(configuration.id(), ClusterId(5));
    assert_eq!(configuration.name().0, "twice");
}

#[test]
fn resource_types_have_kinds_of_their_own() {
    let configuration_kind = <ClusterConfiguration as Resource<AnyResource>>::kind();
    let deployment_kind = <ClusterDeployment as Resource<AnyResource>>::kind();
    assert_ne!(configuration_kind, deployment_kind);
}
