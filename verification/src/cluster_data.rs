//! Assembling a `ClusterInfo` from the node and pod listings of a cluster.
//!
//! The listings hold what the dashboard reads of each Kubernetes node and
//! pod; pods are grouped onto the node named in their spec, in listing order.

use vstd::prelude::*;
use crate::model::{ClusterInfo, ClusterView, ContainerInfo, ContainerView, NodeInfo, NodeView, PodInfo, PodView, containers_in, node_pod_total};
use crate::string_map::{
    Entry, StringMap, from_inserts, lemma_lookup_inserted, lemma_lookup_other, lemma_lookup_push,
    lemma_sorted_last_key_new, lookup, strictly_sorted,
};
use crate::text::{has_prefix, owned, starts_with, strip_prefix};

verus! {

/// What is read of a container in a pod's spec.
pub struct ContainerData {
    pub name: String,
    pub image: Option<String>,
}

/// What is read of a pod: its name, namespace, the node it is scheduled on,
/// its labels and its containers.
pub struct PodData {
    pub name: String,
    pub namespace: Option<String>,
    pub node_name: Option<String>,
    pub labels: StringMap,
    pub containers: Vec<ContainerData>,
}

/// The system information that a node's status reports.
pub struct NodeSystemInfo {
    pub os_image: String,
    pub kubelet_version: String,
    pub architecture: String,
}

/// What is read of a node: its name, labels, system information and
/// capacity (resource name to quantity).
pub struct NodeData {
    pub name: String,
    pub labels: StringMap,
    pub system_info: Option<NodeSystemInfo>,
    pub capacity: Option<StringMap>,
}

/// The mathematical value of a `ContainerData`.
pub struct ContainerDataView {
    pub name: Seq<char>,
    pub image: Option<Seq<char>>,
}

/// The mathematical value of a `PodData`.
pub struct PodDataView {
    pub name: Seq<char>,
    pub namespace: Option<Seq<char>>,
    pub node_name: Option<Seq<char>>,
    pub labels: Seq<Entry>,
    pub containers: Seq<ContainerDataView>,
}

/// The mathematical value of a `NodeSystemInfo`.
pub struct NodeSystemInfoView {
    pub os_image: Seq<char>,
    pub kubelet_version: Seq<char>,
    pub architecture: Seq<char>,
}

/// The mathematical value of a `NodeData`.
pub struct NodeDataView {
    pub name: Seq<char>,
    pub labels: Seq<Entry>,
    pub system_info: Option<NodeSystemInfoView>,
    pub capacity: Option<Seq<Entry>>,
}

impl View for ContainerData {
    type V = ContainerDataView;

    open spec fn view(&self) -> ContainerDataView {
        ContainerDataView {
            name: self.name@,
            image: match self.image {
                Some(i) => Some(i@),
                None => None,
            },
        }
    }
}

impl View for PodData {
    type V = PodDataView;

    open spec fn view(&self) -> PodDataView {
        PodDataView {
            name: self.name@,
            namespace: match self.namespace {
                Some(n) => Some(n@),
                None => None,
            },
            node_name: match self.node_name {
                Some(n) => Some(n@),
                None => None,
            },
            labels: self.labels@,
            containers: self.containers@.map_values(|c: ContainerData| c@),
        }
    }
}

impl View for NodeSystemInfo {
    type V = NodeSystemInfoView;

    open spec fn view(&self) -> NodeSystemInfoView {
        NodeSystemInfoView {
            os_image: self.os_image@,
            kubelet_version: self.kubelet_version@,
            architecture: self.architecture@,
        }
    }
}

impl View for NodeData {
    type V = NodeDataView;

    open spec fn view(&self) -> NodeDataView {
        NodeDataView {
            name: self.name@,
            labels: self.labels@,
            system_info: match self.system_info {
                Some(i) => Some(i@),
                None => None,
            },
            capacity: match self.capacity {
                Some(c) => Some(c@),
                None => None,
            },
        }
    }
}

/// The views of a listing of pods.
pub open spec fn pods_view(pods: Seq<PodData>) -> Seq<PodDataView> {
    pods.map_values(|p: PodData| p@)
}

/// The views of a listing of nodes.
pub open spec fn nodes_view(nodes: Seq<NodeData>) -> Seq<NodeDataView> {
    nodes.map_values(|n: NodeData| n@)
}

/// The value of an option, or `d` when there is none.
pub open spec fn or_default(o: Option<Seq<char>>, d: Seq<char>) -> Seq<char> {
    match o {
        Some(v) => v,
        None => d,
    }
}

/// The quantity of resource `key` in a node's capacity, if reported.
pub open spec fn capacity_of(capacity: Option<Seq<Entry>>, key: Seq<char>) -> Option<Seq<char>> {
    match capacity {
        Some(c) => lookup(c, key),
        None => None,
    }
}

/// Resource names of MIG devices in a capacity start with this prefix.
pub open spec fn mig_prefix() -> Seq<char> {
    "nvidia.com/mig-"@
}

/// The MIG profiles of a capacity, in order: each entry whose key starts
/// with the MIG prefix, with the prefix removed from the key.
pub open spec fn mig_pairs(capacity: Seq<Entry>) -> Seq<Entry>
    decreases capacity.len(),
{
    if capacity.len() == 0 {
        Seq::empty()
    } else {
        let rest = mig_pairs(capacity.drop_last());
        let e = capacity.last();
        if has_prefix(e.0, mig_prefix()) {
            rest.push((e.0.skip(mig_prefix().len() as int), e.1))
        } else {
            rest
        }
    }
}

/// The MIG device map of a node: its MIG profiles stored one after the other.
pub open spec fn mig_devices_model(capacity: Option<Seq<Entry>>) -> Seq<Entry> {
    match capacity {
        Some(c) => from_inserts(mig_pairs(c)),
        None => Seq::empty(),
    }
}

/// The pods of a listing that are scheduled on node `node`, in listing order.
pub open spec fn pods_on_node(pods: Seq<PodDataView>, node: Seq<char>) -> Seq<PodDataView>
    decreases pods.len(),
{
    if pods.len() == 0 {
        Seq::empty()
    } else {
        let rest = pods_on_node(pods.drop_last(), node);
        if pods.last().node_name == Some(node) {
            rest.push(pods.last())
        } else {
            rest
        }
    }
}

/// The pods of a listing that are scheduled on some node.
pub open spec fn scheduled_pods(pods: Seq<PodDataView>) -> Seq<PodDataView>
    decreases pods.len(),
{
    if pods.len() == 0 {
        Seq::empty()
    } else {
        let rest = scheduled_pods(pods.drop_last());
        if pods.last().node_name is Some {
            rest.push(pods.last())
        } else {
            rest
        }
    }
}

/// The number of containers of all pods of a listing.
pub open spec fn container_total(pods: Seq<PodDataView>) -> nat
    decreases pods.len(),
{
    if pods.len() == 0 {
        0
    } else {
        container_total(pods.drop_last()) + pods.last().containers.len()
    }
}

pub open spec fn container_model(c: ContainerDataView) -> ContainerView {
    ContainerView { name: c.name, image: or_default(c.image, Seq::empty()) }
}

/// The `PodInfo` of a pod of cluster `cluster` scheduled on node `node`.
pub open spec fn pod_model(cluster: Seq<char>, node: Seq<char>, p: PodDataView) -> PodView {
    PodView {
        name: p.name,
        namespace: or_default(p.namespace, Seq::empty()),
        node_name: node,
        cluster_name: cluster,
        labels: p.labels,
        containers: p.containers.map_values(|c: ContainerDataView| container_model(c)),
    }
}

/// The `PodInfo`s of a sequence of pods on node `node`.
pub open spec fn pod_models(cluster: Seq<char>, node: Seq<char>, pods: Seq<PodDataView>) -> Seq<
    PodView,
> {
    pods.map_values(|p: PodDataView| pod_model(cluster, node, p))
}

/// The `NodeInfo` of node `n` of cluster `cluster`, given all pods of the cluster.
pub open spec fn node_model(cluster: Seq<char>, n: NodeDataView, pods: Seq<PodDataView>) -> NodeView {
    let on = pods_on_node(pods, n.name);
    NodeView {
        name: n.name,
        cluster_name: cluster,
        os_image: match n.system_info {
            Some(i) => i.os_image,
            None => "N/A"@,
        },
        kubelet_version: match n.system_info {
            Some(i) => i.kubelet_version,
            None => "N/A"@,
        },
        architecture: match n.system_info {
            Some(i) => i.architecture,
            None => "N/A"@,
        },
        capacity_cpu: or_default(capacity_of(n.capacity, "cpu"@), "N/A"@),
        capacity_memory: or_default(capacity_of(n.capacity, "memory"@), "N/A"@),
        gpu_model: or_default(lookup(n.labels, "nvidia.com/gpu.product"@), "N/A"@),
        gpu_count: or_default(capacity_of(n.capacity, "nvidia.com/gpu"@), "0"@),
        pod_count: on.len(),
        container_count: container_total(on),
        labels: n.labels,
        mig_devices: mig_devices_model(n.capacity),
        pods: pod_models(cluster, n.name, on),
    }
}

/// The `ClusterInfo` of cluster `name` from its node and pod listings.
pub open spec fn cluster_model(name: Seq<char>, nodes: Seq<NodeDataView>, pods: Seq<PodDataView>) -> ClusterView {
    ClusterView {
        name: name,
        node_count: nodes.len(),
        pod_count: scheduled_pods(pods).len(),
        nodes: nodes.map_values(|n: NodeDataView| node_model(name, n, pods)),
    }
}


fn copy_or_ref(o: Option<&String>, d: &str) -> (r: String)
    ensures
        r@ == or_default(
            match o {
                Some(v) => Some(v@),
                None => None,
            },
            d@,
        ),
{
    match o {
        Some(v) => v.clone(),
        None => owned(d),
    }
}

fn container_info(c: &ContainerData) -> (r: ContainerInfo)
    ensures
        r@ == container_model(c@),
{
    let image = match &c.image {
        Some(i) => i.clone(),
        None => String::new(),
    };
    ContainerInfo { name: c.name.clone(), image }
}

/// The `PodInfo` of pod `p` of cluster `cluster`, scheduled on node `node`.
pub fn pod_info(cluster: &String, node: &String, p: &PodData) -> (r: PodInfo)
    ensures
        r@ == pod_model(cluster@, node@, p@),
{
    let n = p.containers.len();
    let mut containers: Vec<ContainerInfo> = Vec::new();
    let mut i: usize = 0;
    while i < n
        invariant
            i <= n,
            n == p.containers@.len(),
            containers@.map_values(|c: ContainerInfo| c@) == p@.containers.take(i as int).map_values(
                |c: ContainerDataView| container_model(c),
            ),
        decreases n - i,
    {
        let c = container_info(&p.containers[i]);
        assert(p@.containers[i as int] == p.containers[i as int]@);
        let ghost before = containers@;
        containers.push(c);
        assert(containers@.map_values(|c: ContainerInfo| c@) =~= before.map_values(
            |c: ContainerInfo| c@,
        ).push(c@));
        assert(p@.containers.take(i + 1) =~= p@.containers.take(i as int).push(p@.containers[i as int]));
        assert(p@.containers.take(i + 1).map_values(|c: ContainerDataView| container_model(c))
            =~= p@.containers.take(i as int).map_values(|c: ContainerDataView| container_model(c)).push(
            container_model(p@.containers[i as int]),
        ));
        i = i + 1;
    }
    assert(p@.containers.take(n as int) =~= p@.containers);
    PodInfo {
        name: p.name.clone(),
        namespace: match &p.namespace {
            Some(ns) => ns.clone(),
            None => String::new(),
        },
        node_name: node.clone(),
        cluster_name: cluster.clone(),
        labels: p.labels.clone(),
        containers,
    }
}

/// The MIG devices of a capacity: every resource whose name starts with
/// `nvidia.com/mig-`, under its name without that prefix. So profile `k`
/// has exactly the quantity of resource `nvidia.com/mig-` followed by `k`.
pub fn mig_devices(capacity: &StringMap) -> (r: StringMap)
    ensures
        r@ == from_inserts(mig_pairs(capacity@)),
        forall|k: Seq<char>| #[trigger] lookup(r@, k) == lookup(capacity@, mig_prefix() + k),
{
    let prefix = "nvidia.com/mig-";
    let n = capacity.len();
    let mut r = StringMap::new();
    let mut i: usize = 0;
    assert(capacity@.take(0) =~= Seq::<Entry>::empty());
    while i < n
        invariant
            i <= n,
            n == capacity@.len(),
            prefix@ == mig_prefix(),
            r@ == from_inserts(mig_pairs(capacity@.take(i as int))),
        decreases n - i,
    {
        let key = capacity.key_at(i);
        assert(capacity@.take(i + 1).drop_last() =~= capacity@.take(i as int));
        if starts_with(key.as_str(), prefix) {
            let profile = strip_prefix(key.as_str(), prefix);
            let value = capacity.value_at(i).clone();
            let ghost pairs = mig_pairs(capacity@.take(i as int));
            let ghost e = (profile@, value@);
            r.insert(profile, value);
            assert(pairs.push(e).drop_last() =~= pairs);
        }
        i = i + 1;
    }
    assert(capacity@.take(n as int) =~= capacity@);
    assert forall|k: Seq<char>| #[trigger] lookup(r@, k) == lookup(capacity@, mig_prefix() + k) by {
        lemma_mig_devices_lookup(capacity@, k);
    }
    r
}

proof fn lemma_on_node_total(pods: Seq<PodDataView>, node: Seq<char>)
    ensures
        container_total(pods_on_node(pods, node)) <= container_total(pods),
    decreases pods.len(),
{
    if pods.len() > 0 {
        lemma_on_node_total(pods.drop_last(), node);
        let rest = pods_on_node(pods.drop_last(), node);
        if pods.last().node_name == Some(node) {
            assert(rest.push(pods.last()).drop_last() =~= rest);
        }
    }
}

proof fn lemma_prefix_total(pods: Seq<PodDataView>, i: int)
    requires
        0 <= i <= pods.len(),
    ensures
        container_total(pods.take(i)) <= container_total(pods),
    decreases pods.len() - i,
{
    if i < pods.len() {
        lemma_prefix_total(pods, i + 1);
        assert(pods.take(i + 1).drop_last() =~= pods.take(i));
    } else {
        assert(pods.take(i) =~= pods);
    }
}

/// The `NodeInfo` of node `n` of cluster `cluster`, with the pods of `pods`
/// that are scheduled on it.
pub fn node_info(cluster: &String, n: &NodeData, pods: &Vec<PodData>) -> (r: NodeInfo)
    requires
        container_total(pods_view(pods@)) <= usize::MAX,
    ensures
        r@ == node_model(cluster@, n@, pods_view(pods@)),
{
    let ghost pv = pods_view(pods@);
    let np = pods.len();
    let mut node_pods: Vec<PodInfo> = Vec::new();
    let mut containers: usize = 0;
    let mut i: usize = 0;
    assert(pv.take(0) =~= Seq::<PodDataView>::empty());
    while i < np
        invariant
            i <= np,
            np == pv.len(),
            pv == pods_view(pods@),
            container_total(pv) <= usize::MAX,
            node_pods@.map_values(|p: PodInfo| p@) == pod_models(
                cluster@,
                n@.name,
                pods_on_node(pv.take(i as int), n@.name),
            ),
            containers == container_total(pods_on_node(pv.take(i as int), n@.name)),
        decreases np - i,
    {
        let p = &pods[i];
        assert(pv.take(i + 1).drop_last() =~= pv.take(i as int));
        assert(pv[i as int] == p@);
        let on_node = match &p.node_name {
            Some(name) => *name == n.name,
            None => false,
        };
        if on_node {
            let ghost before = pods_on_node(pv.take(i as int), n@.name);
            proof {
                lemma_on_node_total(pv.take(i + 1), n@.name);
                lemma_prefix_total(pv, i + 1);
                assert(before.push(p@).drop_last() =~= before);
            }
            containers = containers + p.containers.len();
            let info = pod_info(cluster, &n.name, p);
            let ghost old_pods = node_pods@;
            node_pods.push(info);
            assert(node_pods@.map_values(|p: PodInfo| p@) =~= old_pods.map_values(|p: PodInfo| p@).push(
                info@,
            ));
            assert(pod_models(cluster@, n@.name, before.push(p@)) =~= pod_models(
                cluster@,
                n@.name,
                before,
            ).push(pod_model(cluster@, n@.name, p@)));
        }
        i = i + 1;
    }
    assert(pv.take(np as int) =~= pv);
    let pod_count = node_pods.len();
    let (os_image, kubelet_version, architecture) = match &n.system_info {
        Some(info) => (info.os_image.clone(), info.kubelet_version.clone(), info.architecture.clone()),
        None => (owned("N/A"), owned("N/A"), owned("N/A")),
    };
    let (capacity_cpu, capacity_memory, gpu_count, mig) = match &n.capacity {
        Some(cap) => (
            copy_or_ref(cap.get("cpu"), "N/A"),
            copy_or_ref(cap.get("memory"), "N/A"),
            copy_or_ref(cap.get("nvidia.com/gpu"), "0"),
            mig_devices(cap),
        ),
        None => (owned("N/A"), owned("N/A"), owned("0"), StringMap::new()),
    };
    NodeInfo {
        name: n.name.clone(),
        cluster_name: cluster.clone(),
        os_image,
        kubelet_version,
        architecture,
        capacity_cpu,
        capacity_memory,
        gpu_model: copy_or_ref(n.labels.get("nvidia.com/gpu.product"), "N/A"),
        gpu_count,
        pod_count,
        container_count: containers,
        labels: n.labels.clone(),
        mig_devices: mig,
        pods: node_pods,
    }
}

/// The `ClusterInfo` of cluster `name` from its node and pod listings:
/// one `NodeInfo` per node in listing order, each with the pods scheduled
/// on it, and the number of nodes and of scheduled pods.
pub fn build_cluster_info(name: &String, nodes: &Vec<NodeData>, pods: &Vec<PodData>) -> (r: ClusterInfo)
    requires
        container_total(pods_view(pods@)) <= usize::MAX,
    ensures
        r@ == cluster_model(name@, nodes_view(nodes@), pods_view(pods@)),
{
    let ghost pv = pods_view(pods@);
    let ghost nv = nodes_view(nodes@);
    let np = pods.len();
    let mut scheduled: usize = 0;
    let mut i: usize = 0;
    assert(pv.take(0) =~= Seq::<PodDataView>::empty());
    while i < np
        invariant
            i <= np,
            np == pv.len(),
            pv == pods_view(pods@),
            scheduled == scheduled_pods(pv.take(i as int)).len(),
            scheduled <= i,
        decreases np - i,
    {
        assert(pv.take(i + 1).drop_last() =~= pv.take(i as int));
        assert(pv[i as int] == pods[i as int]@);
        if pods[i].node_name.is_some() {
            scheduled = scheduled + 1;
        }
        i = i + 1;
    }
    assert(pv.take(np as int) =~= pv);
    let nn = nodes.len();
    let mut infos: Vec<NodeInfo> = Vec::new();
    let mut j: usize = 0;
    while j < nn
        invariant
            j <= nn,
            nn == nv.len(),
            nv == nodes_view(nodes@),
            pv == pods_view(pods@),
            container_total(pv) <= usize::MAX,
            infos@.map_values(|n: NodeInfo| n@) == nv.take(j as int).map_values(
                |n: NodeDataView| node_model(name@, n, pv),
            ),
        decreases nn - j,
    {
        let info = node_info(name, &nodes[j], pods);
        assert(nv[j as int] == nodes[j as int]@);
        let ghost before = infos@;
        infos.push(info);
        assert(infos@.map_values(|n: NodeInfo| n@) =~= before.map_values(|n: NodeInfo| n@).push(
            info@,
        ));
        assert(nv.take(j + 1) =~= nv.take(j as int).push(nv[j as int]));
        assert(nv.take(j + 1).map_values(|n: NodeDataView| node_model(name@, n, pv)) =~= nv.take(
            j as int,
        ).map_values(|n: NodeDataView| node_model(name@, n, pv)).push(node_model(name@, nv[j as int], pv)));
        j = j + 1;
    }
    assert(nv.take(nn as int) =~= nv);
    ClusterInfo { name: name.clone(), node_count: nn, pod_count: scheduled, nodes: infos }
}

proof fn lemma_pod_models(cluster: Seq<char>, node: Seq<char>, on: Seq<PodDataView>)
    ensures
        containers_in(pod_models(cluster, node, on)) == container_total(on),
        pod_models(cluster, node, on).len() == on.len(),
        forall|j: int| 0 <= j < on.len() ==> (#[trigger] pod_models(cluster, node, on)[j]).node_name == node
            && pod_models(cluster, node, on)[j].cluster_name == cluster,
    decreases on.len(),
{
    if on.len() > 0 {
        lemma_pod_models(cluster, node, on.drop_last());
        assert(pod_models(cluster, node, on).drop_last() =~= pod_models(cluster, node, on.drop_last()));
    }
}

/// The cluster information assembled from any listings is consistent: the
/// node count is the number of nodes listed; each node's pod count is the
/// number of pods listed under it and its container count the number of
/// their containers; every pod listed under a node names that node and the
/// cluster.
pub proof fn lemma_cluster_info_consistent(name: Seq<char>, nodes: Seq<NodeDataView>, pods: Seq<PodDataView>)
    ensures
        cluster_model(name, nodes, pods).node_count == cluster_model(name, nodes, pods).nodes.len(),
        forall|i: int|
            0 <= i < nodes.len() ==> {
                let n = #[trigger] cluster_model(name, nodes, pods).nodes[i];
                &&& n.pod_count == n.pods.len()
                &&& n.container_count == containers_in(n.pods)
                &&& forall|j: int|
                    0 <= j < n.pods.len() ==> (#[trigger] n.pods[j]).node_name == n.name
                        && n.pods[j].cluster_name == name
            },
{
    assert forall|i: int| 0 <= i < nodes.len() implies {
        let n = #[trigger] cluster_model(name, nodes, pods).nodes[i];
        &&& n.pod_count == n.pods.len()
        &&& n.container_count == containers_in(n.pods)
        &&& forall|j: int|
            0 <= j < n.pods.len() ==> (#[trigger] n.pods[j]).node_name == n.name && n.pods[j].cluster_name
                == name
    } by {
        lemma_pod_models(name, nodes[i].name, pods_on_node(pods, nodes[i].name));
    }
}

/// The pods on `node` are the pods of the listing at increasing positions
/// `idx`, which are exactly the positions of the pods scheduled on `node`.
proof fn lemma_on_node_positions(pods: Seq<PodDataView>, node: Seq<char>) -> (idx: Seq<int>)
    ensures
        idx.len() == pods_on_node(pods, node).len(),
        forall|j: int|
            0 <= j < idx.len() ==> 0 <= #[trigger] idx[j] < pods.len() && pods[idx[j]].node_name == Some(node)
                && pods_on_node(pods, node)[j] == pods[idx[j]],
        forall|j: int, j2: int| 0 <= j < j2 < idx.len() ==> #[trigger] idx[j] < #[trigger] idx[j2],
        forall|k: int|
            0 <= k < pods.len() && (#[trigger] pods[k]).node_name == Some(node) ==> exists|j: int|
                0 <= j < idx.len() && #[trigger] idx[j] == k,
    decreases pods.len(),
{
    if pods.len() == 0 {
        Seq::empty()
    } else {
        let t = pods.drop_last();
        let last = (pods.len() - 1) as int;
        let prev = lemma_on_node_positions(t, node);
        assert forall|j: int| 0 <= j < prev.len() implies pods[#[trigger] prev[j]] == t[prev[j]] by {}
        if pods.last().node_name == Some(node) {
            let idx = prev.push(last);
            assert forall|j: int|
                0 <= j < idx.len() implies 0 <= #[trigger] idx[j] < pods.len() && pods[idx[j]].node_name == Some(
                node,
            ) && pods_on_node(pods, node)[j] == pods[idx[j]] by {
                if j < prev.len() {
                    assert(idx[j] == prev[j]);
                    assert(pods[prev[j]] == t[prev[j]]);
                }
            }
            assert forall|k: int|
                0 <= k < pods.len() && (#[trigger] pods[k]).node_name == Some(node) implies exists|j: int|
                    0 <= j < idx.len() && #[trigger] idx[j] == k by {
                if k < last {
                    assert(t[k] == pods[k]);
                    let j = choose|j: int| 0 <= j < prev.len() && #[trigger] prev[j] == k;
                    assert(idx[j] == k);
                } else {
                    assert(idx[prev.len() as int] == k);
                }
            }
            idx
        } else {
            assert forall|j: int|
                0 <= j < prev.len() implies 0 <= #[trigger] prev[j] < pods.len() && pods[prev[j]].node_name == Some(
                node,
            ) && pods_on_node(pods, node)[j] == pods[prev[j]] by {
                assert(pods[prev[j]] == t[prev[j]]);
            }
            assert forall|k: int|
                0 <= k < pods.len() && (#[trigger] pods[k]).node_name == Some(node) implies exists|j: int|
                    0 <= j < prev.len() && #[trigger] prev[j] == k by {
                assert(k < last);
                assert(t[k] == pods[k]);
            }
            prev
        }
    }
}

/// The pods that the cluster information reports on node `i` are exactly
/// the listed pods scheduled on that node, in listing order (at the
/// increasing listing positions `idx`), each reported with its own name,
/// its namespace (empty when none is given), the node and cluster names,
/// its labels, and its containers in order, each with its own name and its
/// image (empty only when none is given).
pub proof fn lemma_node_pods_are_its_listed_pods(
    name: Seq<char>,
    nodes: Seq<NodeDataView>,
    pods: Seq<PodDataView>,
    i: int,
) -> (idx: Seq<int>)
    requires
        0 <= i < nodes.len(),
    ensures
        idx.len() == cluster_model(name, nodes, pods).nodes[i].pods.len(),
        forall|j: int, j2: int| 0 <= j < j2 < idx.len() ==> #[trigger] idx[j] < #[trigger] idx[j2],
        forall|k: int|
            0 <= k < pods.len() && (#[trigger] pods[k]).node_name == Some(nodes[i].name) ==> exists|j: int|
                0 <= j < idx.len() && #[trigger] idx[j] == k,
        forall|j: int|
            0 <= j < idx.len() ==> {
                let out = #[trigger] cluster_model(name, nodes, pods).nodes[i].pods[j];
                let p = pods[idx[j]];
                &&& 0 <= idx[j] < pods.len()
                &&& p.node_name == Some(nodes[i].name)
                &&& out.name == p.name
                &&& out.namespace == match p.namespace {
                    Some(ns) => ns,
                    None => Seq::<char>::empty(),
                }
                &&& out.node_name == nodes[i].name
                &&& out.cluster_name == name
                &&& out.labels == p.labels
                &&& out.containers.len() == p.containers.len()
                &&& forall|c: int|
                    0 <= c < p.containers.len() ==> (#[trigger] out.containers[c]).name == p.containers[c].name
                        && out.containers[c].image == match p.containers[c].image {
                        Some(image) => image,
                        None => Seq::<char>::empty(),
                    }
            },
{
    let d = nodes[i];
    let on = pods_on_node(pods, d.name);
    let idx = lemma_on_node_positions(pods, d.name);
    let n = cluster_model(name, nodes, pods).nodes[i];
    assert(n == node_model(name, d, pods));
    assert(n.pods == pod_models(name, d.name, on));
    assert forall|j: int| 0 <= j < idx.len() implies {
        let out = #[trigger] cluster_model(name, nodes, pods).nodes[i].pods[j];
        let p = pods[idx[j]];
        &&& 0 <= idx[j] < pods.len()
        &&& p.node_name == Some(nodes[i].name)
        &&& out.name == p.name
        &&& out.namespace == match p.namespace {
            Some(ns) => ns,
            None => Seq::<char>::empty(),
        }
        &&& out.node_name == nodes[i].name
        &&& out.cluster_name == name
        &&& out.labels == p.labels
        &&& out.containers.len() == p.containers.len()
        &&& forall|c: int|
            0 <= c < p.containers.len() ==> (#[trigger] out.containers[c]).name == p.containers[c].name
                && out.containers[c].image == match p.containers[c].image {
                Some(image) => image,
                None => Seq::<char>::empty(),
            }
    } by {
        assert(on[j] == pods[idx[j]]);
        assert(n.pods[j] == pod_model(name, d.name, on[j]));
    }
    idx
}

/// Each node of the cluster information reports its own listing: its name,
/// the cluster's name, its system information ("N/A" when the status has
/// none), its CPU and memory capacity ("N/A" when not reported), its GPU
/// model from the `nvidia.com/gpu.product` label ("N/A" without it), its
/// GPU count from the `nvidia.com/gpu` capacity ("0" without it), its
/// labels, and, for a capacity with distinct keys, MIG profile `k` with the
/// quantity of `nvidia.com/mig-` followed by `k` (no MIG devices without a
/// capacity).
pub proof fn lemma_node_reports_its_listing(name: Seq<char>, nodes: Seq<NodeDataView>, pods: Seq<PodDataView>, i: int)
    requires
        0 <= i < nodes.len(),
    ensures
        ({
            let n = cluster_model(name, nodes, pods).nodes[i];
            let d = nodes[i];
            &&& n.name == d.name
            &&& n.cluster_name == name
            &&& n.os_image == match d.system_info {
                Some(info) => info.os_image,
                None => "N/A"@,
            }
            &&& n.kubelet_version == match d.system_info {
                Some(info) => info.kubelet_version,
                None => "N/A"@,
            }
            &&& n.architecture == match d.system_info {
                Some(info) => info.architecture,
                None => "N/A"@,
            }
            &&& n.capacity_cpu == match d.capacity {
                Some(c) => match lookup(c, "cpu"@) {
                    Some(q) => q,
                    None => "N/A"@,
                },
                None => "N/A"@,
            }
            &&& n.capacity_memory == match d.capacity {
                Some(c) => match lookup(c, "memory"@) {
                    Some(q) => q,
                    None => "N/A"@,
                },
                None => "N/A"@,
            }
            &&& n.gpu_count == match d.capacity {
                Some(c) => match lookup(c, "nvidia.com/gpu"@) {
                    Some(q) => q,
                    None => "0"@,
                },
                None => "0"@,
            }
            &&& n.gpu_model == match lookup(d.labels, "nvidia.com/gpu.product"@) {
                Some(m) => m,
                None => "N/A"@,
            }
            &&& n.labels == d.labels
            &&& d.capacity is None ==> n.mig_devices.len() == 0
            &&& (d.capacity matches Some(c) ==> (strictly_sorted(c) ==> forall|k: Seq<char>|
                #[trigger] lookup(n.mig_devices, k) == lookup(c, mig_prefix() + k)))
        }),
{
    let d = nodes[i];
    assert(cluster_model(name, nodes, pods).nodes[i] == node_model(name, d, pods));
    if let Some(c) = d.capacity {
        if strictly_sorted(c) {
            assert forall|k: Seq<char>| #[trigger]
                lookup(mig_devices_model(d.capacity), k) == lookup(c, mig_prefix() + k) by {
                lemma_mig_devices_lookup(c, k);
            }
        }
    }
}

/// Whether a pod is scheduled on node `node`.
pub open spec fn scheduled_on(node: Seq<char>) -> spec_fn(PodDataView) -> bool {
    |p: PodDataView| p.node_name == Some(node)
}

/// Whether a pod is scheduled on some node.
pub open spec fn is_scheduled() -> spec_fn(PodDataView) -> bool {
    |p: PodDataView| p.node_name is Some
}

proof fn lemma_on_node_filter(pods: Seq<PodDataView>, node: Seq<char>)
    ensures
        pods_on_node(pods, node) == pods.filter(scheduled_on(node)),
    decreases pods.len(),
{
    if pods.len() > 0 {
        let pred = scheduled_on(node);
        reveal(Seq::filter);
        lemma_on_node_filter(pods.drop_last(), node);
        let f = pods.drop_last().filter(pred);
        assert(pods.filter(pred) == if pred(pods.last()) {
            f.push(pods.last())
        } else {
            f
        });
        assert(pred(pods.last()) == (pods.last().node_name == Some(node)));
    }
}

proof fn lemma_scheduled_filter(pods: Seq<PodDataView>)
    ensures
        scheduled_pods(pods) == pods.filter(is_scheduled()),
    decreases pods.len(),
{
    if pods.len() > 0 {
        let pred = is_scheduled();
        reveal(Seq::filter);
        lemma_scheduled_filter(pods.drop_last());
        let f = pods.drop_last().filter(pred);
        assert(pods.filter(pred) == if pred(pods.last()) {
            f.push(pods.last())
        } else {
            f
        });
        assert(pred(pods.last()) == (pods.last().node_name is Some));
    }
}

/// The cluster information carries the cluster's name and one node per
/// listed node, in listing order; its pod count is the number of listed
/// pods scheduled on some node, and each node's pod count the number of
/// listed pods scheduled on that node.
pub proof fn lemma_cluster_counts(name: Seq<char>, nodes: Seq<NodeDataView>, pods: Seq<PodDataView>)
    ensures
        cluster_model(name, nodes, pods).name == name,
        cluster_model(name, nodes, pods).node_count == nodes.len(),
        cluster_model(name, nodes, pods).nodes.len() == nodes.len(),
        cluster_model(name, nodes, pods).pod_count == pods.filter(is_scheduled()).len(),
        forall|i: int|
            0 <= i < nodes.len() ==> (#[trigger] cluster_model(name, nodes, pods).nodes[i]).name == nodes[i].name
                && cluster_model(name, nodes, pods).nodes[i].pod_count == pods.filter(scheduled_on(nodes[i].name)).len(),
{
    lemma_scheduled_filter(pods);
    assert forall|i: int| 0 <= i < nodes.len() implies (#[trigger] cluster_model(name, nodes, pods).nodes[i]).name
        == nodes[i].name && cluster_model(name, nodes, pods).nodes[i].pod_count == pods.filter(scheduled_on(nodes[i].name)).len() by {
        lemma_on_node_filter(pods, nodes[i].name);
    }
}

proof fn lemma_prefix_key(x: Seq<char>, p: Seq<char>, k: Seq<char>)
    ensures
        (has_prefix(x, p) && x.skip(p.len() as int) == k) <==> x == p + k,
{
    if x == p + k {
        assert(x.take(p.len() as int) =~= p);
        assert(x.skip(p.len() as int) =~= k);
    }
    if has_prefix(x, p) && x.skip(p.len() as int) == k {
        assert(x =~= x.take(p.len() as int) + x.skip(p.len() as int));
    }
}

/// The MIG devices of a node are exactly its capacity entries named with
/// the MIG prefix: profile `k` maps to the quantity of resource
/// `nvidia.com/mig-` followed by `k` (capacity keys being distinct, as in
/// a map).
pub proof fn lemma_mig_devices_lookup(capacity: Seq<Entry>, k: Seq<char>)
    requires
        strictly_sorted(capacity),
    ensures
        lookup(from_inserts(mig_pairs(capacity)), k) == lookup(capacity, mig_prefix() + k),
    decreases capacity.len(),
{
    let key = mig_prefix() + k;
    if capacity.len() > 0 {
        let s = capacity.drop_last();
        let e = capacity.last();
        assert(s.push(e) =~= capacity);
        assert(strictly_sorted(s)) by {
            assert forall|a: int, b: int| 0 <= a < b < s.len() implies crate::string_map::key_less(
                #[trigger] s[a].0,
                #[trigger] s[b].0,
            ) by {
                assert(s[a] == capacity[a] && s[b] == capacity[b]);
            }
        }
        lemma_mig_devices_lookup(s, k);
        lemma_lookup_push(s, e, key);
        lemma_prefix_key(e.0, mig_prefix(), k);
        let prev = mig_pairs(s);
        if has_prefix(e.0, mig_prefix()) {
            let profile = e.0.skip(mig_prefix().len() as int);
            assert(prev.push((profile, e.1)).drop_last() =~= prev);
            if profile == k {
                lemma_lookup_inserted(from_inserts(prev), profile, e.1);
                lemma_sorted_last_key_new(s, e);
            } else {
                lemma_lookup_other(from_inserts(prev), profile, e.1, k);
            }
        }
    }
}

/// The number of pods of `pods` on each of `nodes`, added up.
pub open spec fn pods_on_nodes(nodes: Seq<NodeDataView>, pods: Seq<PodDataView>) -> nat
    decreases nodes.len(),
{
    if nodes.len() == 0 {
        0
    } else {
        pods_on_nodes(nodes.drop_last(), pods) + pods_on_node(pods, nodes.last().name).len()
    }
}

/// How many of `nodes` have the name `node` (when there is one).
pub open spec fn nodes_named(nodes: Seq<NodeDataView>, node: Option<Seq<char>>) -> nat
    decreases nodes.len(),
{
    if nodes.len() == 0 {
        0
    } else {
        nodes_named(nodes.drop_last(), node) + if node == Some(nodes.last().name) {
            1nat
        } else {
            0nat
        }
    }
}

proof fn lemma_node_pod_total_models(name: Seq<char>, nodes: Seq<NodeDataView>, pods: Seq<PodDataView>)
    ensures
        node_pod_total(nodes.map_values(|n: NodeDataView| node_model(name, n, pods))) == pods_on_nodes(
            nodes,
            pods,
        ),
    decreases nodes.len(),
{
    if nodes.len() > 0 {
        lemma_node_pod_total_models(name, nodes.drop_last(), pods);
        assert(nodes.map_values(|n: NodeDataView| node_model(name, n, pods)).drop_last()
            =~= nodes.drop_last().map_values(|n: NodeDataView| node_model(name, n, pods)));
    }
}

proof fn lemma_pods_on_nodes_push(nodes: Seq<NodeDataView>, pods: Seq<PodDataView>, p: PodDataView)
    ensures
        pods_on_nodes(nodes, pods.push(p)) == pods_on_nodes(nodes, pods) + nodes_named(nodes, p.node_name),
    decreases nodes.len(),
{
    assert(pods.push(p).drop_last() =~= pods);
    if nodes.len() > 0 {
        lemma_pods_on_nodes_push(nodes.drop_last(), pods, p);
    }
}

proof fn lemma_nodes_named(nodes: Seq<NodeDataView>, node: Option<Seq<char>>)
    requires
        forall|i: int, j: int| 0 <= i < j < nodes.len() ==> (#[trigger] nodes[i]).name != (#[trigger] nodes[j]).name,
    ensures
        nodes_named(nodes, node) == (if exists|i: int| 0 <= i < nodes.len() && node == Some((#[trigger] nodes[i]).name) {
            1nat
        } else {
            0nat
        }),
    decreases nodes.len(),
{
    if nodes.len() > 0 {
        let t = nodes.drop_last();
        assert forall|i: int, j: int| 0 <= i < j < t.len() implies (#[trigger] t[i]).name != (#[trigger] t[j]).name by {
            assert(t[i] == nodes[i] && t[j] == nodes[j]);
        }
        lemma_nodes_named(t, node);
        if exists|i: int| 0 <= i < t.len() && node == Some((#[trigger] t[i]).name) {
            let i = choose|i: int| 0 <= i < t.len() && node == Some((#[trigger] t[i]).name);
            assert(nodes[i] == t[i]);
            assert(node != Some(nodes.last().name));
        }
        if exists|i: int| 0 <= i < nodes.len() && node == Some((#[trigger] nodes[i]).name) {
            let i = choose|i: int| 0 <= i < nodes.len() && node == Some((#[trigger] nodes[i]).name);
            if i < t.len() {
                assert(t[i] == nodes[i]);
            }
        }
    }
}

/// When the nodes listed have distinct names and every scheduled pod is on
/// a listed node, the pod counts of the nodes add up to the cluster's pod
/// count.
pub proof fn lemma_pod_counts_add_up(name: Seq<char>, nodes: Seq<NodeDataView>, pods: Seq<PodDataView>)
    requires
        forall|i: int, j: int| 0 <= i < j < nodes.len() ==> (#[trigger] nodes[i]).name != (#[trigger] nodes[j]).name,
        forall|k: int|
            0 <= k < pods.len() && (#[trigger] pods[k]).node_name is Some ==> exists|i: int|
                0 <= i < nodes.len() && pods[k].node_name == Some((#[trigger] nodes[i]).name),
    ensures
        node_pod_total(cluster_model(name, nodes, pods).nodes) == cluster_model(name, nodes, pods).pod_count,
{
    lemma_node_pod_total_models(name, nodes, pods);
    lemma_pods_on_nodes_scheduled(nodes, pods);
}

proof fn lemma_pods_on_nodes_scheduled(nodes: Seq<NodeDataView>, pods: Seq<PodDataView>)
    requires
        forall|i: int, j: int| 0 <= i < j < nodes.len() ==> (#[trigger] nodes[i]).name != (#[trigger] nodes[j]).name,
        forall|k: int|
            0 <= k < pods.len() && (#[trigger] pods[k]).node_name is Some ==> exists|i: int|
                0 <= i < nodes.len() && pods[k].node_name == Some((#[trigger] nodes[i]).name),
    ensures
        pods_on_nodes(nodes, pods) == scheduled_pods(pods).len(),
    decreases pods.len(),
{
    if pods.len() == 0 {
        lemma_pods_on_nodes_empty(nodes, pods);
    } else {
        let t = pods.drop_last();
        let p = pods.last();
        assert(t.push(p) =~= pods);
        assert forall|k: int|
            0 <= k < t.len() && (#[trigger] t[k]).node_name is Some implies exists|i: int|
                0 <= i < nodes.len() && t[k].node_name == Some((#[trigger] nodes[i]).name) by {
            assert(t[k] == pods[k]);
        }
        lemma_pods_on_nodes_scheduled(nodes, t);
        lemma_pods_on_nodes_push(nodes, t, p);
        lemma_nodes_named(nodes, p.node_name);
        if p.node_name is Some {
            assert(pods[pods.len() - 1] == p);
            let i = choose|i: int| 0 <= i < nodes.len() && pods[pods.len() - 1].node_name == Some((#[trigger] nodes[i]).name);
            assert(p.node_name == Some(nodes[i].name));
            assert(scheduled_pods(t).push(p).len() == scheduled_pods(t).len() + 1);
        } else {
            assert(!(exists|i: int| 0 <= i < nodes.len() && p.node_name == Some((#[trigger] nodes[i]).name)));
        }
    }
}

proof fn lemma_pods_on_nodes_empty(nodes: Seq<NodeDataView>, pods: Seq<PodDataView>)
    requires
        pods.len() == 0,
    ensures
        pods_on_nodes(nodes, pods) == 0,
    decreases nodes.len(),
{
    if nodes.len() > 0 {
        lemma_pods_on_nodes_empty(nodes.drop_last(), pods);
    }
}

} // verus!
