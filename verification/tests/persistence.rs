use opendut::persistence::{cluster_configuration_from_persistable, cluster_id_from_key, cluster_key, plan_cluster_configuration_insertion, InvalidKeyLength, PersistableClusterConfiguration, PersistableClusterDevice};
use opendut::resources::{ClusterConfiguration, ClusterId, ClusterName, DeviceId, PeerId};
use opendut::database::{is_retryable, ConnectionErrorKind};

#[test]
fn insertion_removes_stale_devices_and_writes_current_ones() {
    let configuration = ClusterConfiguration::new(ClusterId(1), ClusterName("cluster".to_string()), PeerId(2), vec![DeviceId(10), DeviceId(11)]);
    let previous = vec![
        PersistableClusterDevice { cluster_id: 1, device_id: 9 },
        PersistableClusterDevice { cluster_id: 1, device_id: 10 },
        PersistableClusterDevice { cluster_id: 1, device_id: 12 },
    ];
    let insertion = plan_cluster_configuration_insertion(configuration, &previous);
    assert_eq!(insertion.configuration.cluster_id, 1);
    assert_eq!(insertion.configuration.name, "cluster");
    assert_eq!(insertion.configuration.leader_id, 2);
    assert_eq!(insertion.removed_devices, vec![
        PersistableClusterDevice { cluster_id: 1, device_id: 9 },
        PersistableClusterDevice { cluster_id: 1, device_id: 12 },
    ]);
    assert_eq!(insertion.inserted_devices, vec![
        PersistableClusterDevice { cluster_id: 1, device_id: 10 },
        PersistableClusterDevice { cluster_id: 1, device_id: 11 },
    ]);
}

#[test]
fn configuration_from_rows_keeps_each_device_once() {
    let row = PersistableClusterConfiguration { cluster_id: 4, name: "c".to_string(), leader_id: 5 };
    let devices = vec![
        PersistableClusterDevice { cluster_id: 4, device_id: 7 },
        PersistableClusterDevice { cluster_id: 4, device_id: 8 },
        PersistableClusterDevice { cluster_id: 4, device_id: 7 },
    ];
    let configuration = cluster_configuration_from_persistable(row, &devices);
    assert_eq!(configuration.id(), ClusterId(4));
    assert_eq!(configuration.name().0, "c");
    assert_eq!(configuration.leader(), PeerId(5));
    assert_eq!(*configuration.devices(), vec![DeviceId(7), DeviceId(8)]);
}

#[test]
fn cluster_key_is_the_big_endian_uuid() {
    let key = cluster_key(ClusterId(0x0102_0304_0506_0708_090a_0b0c_0d0e_0f10));
    assert_eq!(key, [1, 2, 3, 4, 5, 6, 7, 8, 9, 10, 11, 12, 13, 14, 15, 16]);
}

#[test]
fn cluster_key_round_trip() {
    let id = ClusterId(0xa1a2_a3a4_b1b2_c1c2_d1d2_d3d4_d5d6_d7d8);
    assert_eq!(cluster_id_from_key(&cluster_key(id)), Ok(id));
}

#[test]
fn cluster_key_of_wrong_length_is_refused() {
    assert_eq!(cluster_id_from_key(&[1, 2, 3]), Err(InvalidKeyLength { len: 3 }));
    assert_eq!(cluster_id_from_key(&[0; 17]), Err(InvalidKeyLength { len: 17 }));
}

#[test]
fn only_bad_connections_are_retried() {
    assert!(is_retryable(ConnectionErrorKind::BadConnection));
    assert!(!is_retryable(ConnectionErrorKind::InvalidCString));
    assert!(!is_retryable(ConnectionErrorKind::InvalidConnectionUrl));
    assert!(!is_retryable(ConnectionErrorKind::CouldntSetupConfiguration));
    assert!(!is_retryable(ConnectionErrorKind::Other));
}

#[test]
fn stored_rows_read_back_as_the_configuration() {
    let configuration = ClusterConfiguration::new(ClusterId(3), ClusterName("round".to_string()), PeerId(8), vec![DeviceId(21), DeviceId(20)]);
    let insertion = plan_cluster_configuration_insertion(configuration, &vec![]);
    assert!(insertion.removed_devices.is_empty());
    let read = cluster_configuration_from_persistable(insertion.configuration, &insertion.inserted_devices);
    assert_eq!(read.id(), ClusterId(3));
    assert_eq!(read.name().0, "round");
    assert_eq!(read.leader(), PeerId(8));
    assert_eq!(*read.devices(), vec![DeviceId(21), DeviceId(20)]);
}
