//! Which clusters are deployed.

use vstd::prelude::*;
use std::collections::HashSet;
use crate::resources::{AnyResource, ClusterConfiguration, ClusterConfigurationModel, ClusterDeployment, ClusterId, CLUSTER_CONFIGURATION_KIND, CLUSTER_DEPLOYMENT_KIND};
use crate::volatile::{column, lists, listing_view, VolatileResourcesStorage};

verus! {

broadcast use vstd::std_specs::hash::group_hash_axioms;

/// The views of a sequence of cluster configurations.
pub open spec fn configuration_views(configurations: Seq<ClusterConfiguration>) -> Seq<ClusterConfigurationModel> {
    configurations.map_values(|c: ClusterConfiguration| c@)
}

/// The identifiers that a sequence of deployments deploys.
pub open spec fn deployed_ids(deployments: Seq<ClusterDeployment>) -> Set<ClusterId> {
    Set::new(|id: ClusterId| exists|i: int| 0 <= i < deployments.len() && #[trigger] deployments[i].id == id)
}

/// The configurations, in their order, whose cluster is among `ids`.
pub open spec fn deployed_configurations(ids: Set<ClusterId>, configurations: Seq<ClusterConfigurationModel>) -> Seq<ClusterConfigurationModel> {
    configurations.filter(|c: ClusterConfigurationModel| ids.contains(c.id))
}

/// A configuration is among the deployed ones exactly when it is among the
/// configurations and a deployment deploys its cluster.
pub proof fn lemma_deployed_membership(ids: Set<ClusterId>, configurations: Seq<ClusterConfigurationModel>, configuration: ClusterConfigurationModel)
    ensures
        deployed_configurations(ids, configurations).contains(configuration)
            <==> configurations.contains(configuration) && ids.contains(configuration.id),
{
    let deployed = |c: ClusterConfigurationModel| ids.contains(c.id);
    if configurations.contains(configuration) && ids.contains(configuration.id) {
        let i = choose|i: int| 0 <= i < configurations.len() && configurations[i] == configuration;
        configurations.lemma_filter_contains(deployed, i);
    }
    if deployed_configurations(ids, configurations).contains(configuration) {
        let filtered = configurations.filter(deployed);
        let j = choose|j: int| 0 <= j < filtered.len() && filtered[j] == configuration;
        configurations.lemma_filter_pred(deployed, j);
        configurations.lemma_filter_contains_rev(deployed, configuration);
    }
}

/// The configurations of the clusters that some deployment deploys, in the
/// order in which `configurations` has them.
pub fn deployed_cluster_configurations(deployments: &Vec<ClusterDeployment>, configurations: &Vec<ClusterConfiguration>) -> (deployed: Vec<ClusterConfiguration>)
    ensures
        configuration_views(deployed@) == deployed_configurations(deployed_ids(deployments@), configuration_views(configurations@)),
{
    let mut ids: HashSet<u128> = HashSet::new();
    for i in 0..deployments.len()
        invariant
            forall|id: u128| #[trigger] ids@.contains(id) <==> exists|j: int| 0 <= j < i && deployments@[j].id.0 == id,
    {
        ids.insert(deployments[i].id.0);
    }
    let ghost wanted = deployed_ids(deployments@);
    assert forall|id: u128| #[trigger] ids@.contains(id) <==> wanted.contains(ClusterId(id)) by {
        if ids@.contains(id) {
            let j = choose|j: int| 0 <= j < deployments@.len() && deployments@[j].id.0 == id;
            assert(deployments@[j].id == ClusterId(id));
        }
        if wanted.contains(ClusterId(id)) {
            let j = choose|j: int| 0 <= j < deployments@.len() && #[trigger] deployments@[j].id == ClusterId(id);
            assert(deployments@[j].id.0 == id);
        }
    }
    let mut deployed: Vec<ClusterConfiguration> = Vec::new();
    let ghost all = configuration_views(configurations@);
    for i in 0..configurations.len()
        invariant
            all == configuration_views(configurations@),
            forall|id: u128| #[trigger] ids@.contains(id) <==> wanted.contains(ClusterId(id)),
            configuration_views(deployed@) == deployed_configurations(wanted, all.take(i as int)),
    {
        let ghost before = configuration_views(deployed@);
        proof {
            assert(all.take(i + 1) =~= all.take(i as int).push(all[i as int]));
            all.take(i as int).lemma_filter_push(all[i as int], |c: ClusterConfigurationModel| wanted.contains(c.id));
        }
        if ids.contains(&configurations[i].id().0) {
            deployed.push(configurations[i].clone());
            assert(configuration_views(deployed@) =~= before.push(all[i as int]));
        } else {
            assert(configuration_views(deployed@) =~= before);
        }
    }
    assert(all.take(configurations@.len() as int) =~= all);
    deployed
}

/// The resources of listed entries.
pub open spec fn listed_values<V>(entries: Seq<(u128, V)>) -> Seq<V> {
    entries.map_values(|entry: (u128, V)| entry.1)
}

/// The configurations of the deployed clusters in `storage`: those whose
/// cluster some stored deployment deploys, in the order in which the
/// storage lists the configurations.
pub fn list_deployed_clusters(storage: &VolatileResourcesStorage<AnyResource>) -> (clusters: Vec<ClusterConfiguration>)
    ensures
        exists|deployments: Seq<(u128, ClusterDeployment)>, configurations: Seq<(u128, ClusterConfigurationModel)>| {
            &&& lists::<AnyResource, ClusterDeployment>(column(storage@, CLUSTER_DEPLOYMENT_KIND), deployments)
            &&& lists::<AnyResource, ClusterConfiguration>(column(storage@, CLUSTER_CONFIGURATION_KIND), configurations)
            &&& configuration_views(clusters@) == deployed_configurations(
                deployed_ids(listed_values(deployments)),
                listed_values(configurations),
            )
        },
{
    let listed_deployments = storage.list::<ClusterDeployment>();
    let mut deployments: Vec<ClusterDeployment> = Vec::new();
    for i in 0..listed_deployments.len()
        invariant
            deployments@ == listed_values(listing_view(listed_deployments@)).take(i as int),
    {
        deployments.push(listed_deployments[i].1);
        assert(deployments@ =~= listed_values(listing_view(listed_deployments@)).take(i + 1));
    }
    assert(deployments@ =~= listed_values(listing_view(listed_deployments@)));
    let listed_configurations = storage.list::<ClusterConfiguration>();
    let mut configurations: Vec<ClusterConfiguration> = Vec::new();
    for i in 0..listed_configurations.len()
        invariant
            configuration_views(configurations@) == listed_values(listing_view(listed_configurations@)).take(i as int),
    {
        let copy = listed_configurations[i].1.clone();
        assert(listing_view(listed_configurations@)[i as int].1 == listed_configurations@[i as int].1@);
        assert(listed_values(listing_view(listed_configurations@))[i as int] == copy@);
        let ghost before = configuration_views(configurations@);
        configurations.push(copy);
        assert(configuration_views(configurations@) =~= before.push(copy@));
        assert(configuration_views(configurations@) =~= listed_values(listing_view(listed_configurations@)).take(i + 1));
    }
    assert(configuration_views(configurations@) =~= listed_values(listing_view(listed_configurations@)));
    deployed_cluster_configurations(&deployments, &configurations)
}

} // verus!
