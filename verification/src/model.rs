//! The information the dashboard shows: clusters, their nodes, the pods
//! scheduled on each node and the containers of each pod.

use vstd::prelude::*;
use crate::string_map::{Entry, StringMap};

verus! {

/// A container of a pod: its name and image.
pub struct ContainerInfo {
    pub name: String,
    pub image: String,
}

/// A pod scheduled on a node.
pub struct PodInfo {
    pub name: String,
    pub namespace: String,
    pub node_name: String,
    pub cluster_name: String,
    pub labels: StringMap,
    pub containers: Vec<ContainerInfo>,
}

/// A node of a cluster, with the pods scheduled on it.
pub struct NodeInfo {
    pub name: String,
    pub cluster_name: String,
    pub os_image: String,
    pub kubelet_version: String,
    pub architecture: String,
    pub capacity_cpu: String,
    pub capacity_memory: String,
    pub gpu_model: String,
    pub gpu_count: String,
    pub pod_count: usize,
    pub container_count: usize,
    pub labels: StringMap,
    pub mig_devices: StringMap,
    pub pods: Vec<PodInfo>,
}

/// A cluster with its nodes.
pub struct ClusterInfo {
    pub name: String,
    pub node_count: usize,
    pub pod_count: usize,
    pub nodes: Vec<NodeInfo>,
}

/// The mathematical value of a `ContainerInfo`.
pub struct ContainerView {
    pub name: Seq<char>,
    pub image: Seq<char>,
}

/// The mathematical value of a `PodInfo`.
pub struct PodView {
    pub name: Seq<char>,
    pub namespace: Seq<char>,
    pub node_name: Seq<char>,
    pub cluster_name: Seq<char>,
    pub labels: Seq<Entry>,
    pub containers: Seq<ContainerView>,
}

/// The mathematical value of a `NodeInfo`.
pub struct NodeView {
    pub name: Seq<char>,
    pub cluster_name: Seq<char>,
    pub os_image: Seq<char>,
    pub kubelet_version: Seq<char>,
    pub architecture: Seq<char>,
    pub capacity_cpu: Seq<char>,
    pub capacity_memory: Seq<char>,
    pub gpu_model: Seq<char>,
    pub gpu_count: Seq<char>,
    pub pod_count: nat,
    pub container_count: nat,
    pub labels: Seq<Entry>,
    pub mig_devices: Seq<Entry>,
    pub pods: Seq<PodView>,
}

/// The mathematical value of a `ClusterInfo`.
pub struct ClusterView {
    pub name: Seq<char>,
    pub node_count: nat,
    pub pod_count: nat,
    pub nodes: Seq<NodeView>,
}

impl View for ContainerInfo {
    type V = ContainerView;

    open spec fn view(&self) -> ContainerView {
        ContainerView { name: self.name@, image: self.image@ }
    }
}

impl View for PodInfo {
    type V = PodView;

    open spec fn view(&self) -> PodView {
        PodView {
            name: self.name@,
            namespace: self.namespace@,
            node_name: self.node_name@,
            cluster_name: self.cluster_name@,
            labels: self.labels@,
            containers: self.containers@.map_values(|c: ContainerInfo| c@),
        }
    }
}

impl View for NodeInfo {
    type V = NodeView;

    open spec fn view(&self) -> NodeView {
        NodeView {
            name: self.name@,
            cluster_name: self.cluster_name@,
            os_image: self.os_image@,
            kubelet_version: self.kubelet_version@,
            architecture: self.architecture@,
            capacity_cpu: self.capacity_cpu@,
            capacity_memory: self.capacity_memory@,
            gpu_model: self.gpu_model@,
            gpu_count: self.gpu_count@,
            pod_count: self.pod_count as nat,
            container_count: self.container_count as nat,
            labels: self.labels@,
            mig_devices: self.mig_devices@,
            pods: self.pods@.map_values(|p: PodInfo| p@),
        }
    }
}

impl View for ClusterInfo {
    type V = ClusterView;

    open spec fn view(&self) -> ClusterView {
        ClusterView {
            name: self.name@,
            node_count: self.node_count as nat,
            pod_count: self.pod_count as nat,
            nodes: self.nodes@.map_values(|n: NodeInfo| n@),
        }
    }
}

/// The number of containers of all `pods`.
pub open spec fn containers_in(pods: Seq<PodView>) -> nat
    decreases pods.len(),
{
    if pods.len() == 0 {
        0
    } else {
        containers_in(pods.drop_last()) + pods.last().containers.len()
    }
}

/// The sum of the pod counts of `nodes`.
pub open spec fn node_pod_total(nodes: Seq<NodeView>) -> nat
    decreases nodes.len(),
{
    if nodes.len() == 0 {
        0
    } else {
        node_pod_total(nodes.drop_last()) + nodes.last().pod_count
    }
}

} // verus!
