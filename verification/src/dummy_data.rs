//! The sample clusters the dashboard shows when it runs without a
//! Kubernetes configuration.

use vstd::prelude::*;
use crate::model::{
    ClusterInfo, ClusterView, ContainerInfo, ContainerView, NodeInfo, NodeView, PodInfo, PodView, node_pod_total,
};
use crate::string_map::{Entry, StringMap, lemma_lookup_inserted, lemma_lookup_other, lookup, sorted_insert};
use crate::text::owned;

verus! {

/// The entries after storing `v` under `k`.
pub open spec fn ins(m: Seq<Entry>, k: &str, v: &str) -> Seq<Entry> {
    sorted_insert(m, k@, v@)
}

/// A container with the given name and image.
pub open spec fn container_view(name: &str, image: &str) -> ContainerView {
    ContainerView { name: name@, image: image@ }
}

fn insert_text(m: &mut StringMap, k: &str, v: &str)
    ensures
        final(m)@ == ins(old(m)@, k, v),
{
    m.insert(owned(k), owned(v));
}

fn push_container(cs: &mut Vec<ContainerInfo>, name: &str, image: &str)
    ensures
        final(cs)@.map_values(|c: ContainerInfo| c@) == old(cs)@.map_values(|c: ContainerInfo| c@).push(
            container_view(name, image),
        ),
{
    let ghost before = cs@;
    cs.push(ContainerInfo { name: owned(name), image: owned(image) });
    assert(cs@.map_values(|c: ContainerInfo| c@) =~= before.map_values(|c: ContainerInfo| c@).push(
        container_view(name, image),
    ));
}

/// Pod `ml-training-job-7f8g9h` of node `gpu-node-01`.
pub open spec fn gpu_node_01_pod_0_view() -> PodView {
    PodView {
        name: "ml-training-job-7f8g9h"@,
        namespace: "ml-workloads"@,
        node_name: "gpu-node-01"@,
        cluster_name: "production-cluster-01"@,
        labels: ins(ins(ins(Seq::<Entry>::empty(), "app", "pytorch-training"), "version", "v2.1.0"), "tier", "compute"),
        containers: Seq::<ContainerView>::empty().push(container_view("pytorch-trainer", "pytorch/pytorch:2.1.0-cuda11.8-cudnn8-runtime")).push(container_view("data-loader", "busybox:1.36")),
    }
}

fn gpu_node_01_pod_0() -> (p: PodInfo)
    ensures
        p@ == gpu_node_01_pod_0_view(),
{
    let mut labels = StringMap::new();
    insert_text(&mut labels, "app", "pytorch-training");
    insert_text(&mut labels, "version", "v2.1.0");
    insert_text(&mut labels, "tier", "compute");
    let mut containers: Vec<ContainerInfo> = Vec::new();
    assert(containers@.map_values(|c: ContainerInfo| c@) =~= Seq::<ContainerView>::empty());
    push_container(&mut containers, "pytorch-trainer", "pytorch/pytorch:2.1.0-cuda11.8-cudnn8-runtime");
    push_container(&mut containers, "data-loader", "busybox:1.36");
    PodInfo {
        name: owned("ml-training-job-7f8g9h"),
        namespace: owned("ml-workloads"),
        node_name: owned("gpu-node-01"),
        cluster_name: owned("production-cluster-01"),
        labels,
        containers,
    }
}

/// Pod `inference-server-a1b2c3` of node `gpu-node-01`.
pub open spec fn gpu_node_01_pod_1_view() -> PodView {
    PodView {
        name: "inference-server-a1b2c3"@,
        namespace: "inference"@,
        node_name: "gpu-node-01"@,
        cluster_name: "production-cluster-01"@,
        labels: ins(ins(ins(Seq::<Entry>::empty(), "app", "triton-inference"), "version", "v23.04"), "tier", "serving"),
        containers: Seq::<ContainerView>::empty().push(container_view("triton-server", "nvcr.io/nvidia/tritonserver:23.04-py3")),
    }
}

fn gpu_node_01_pod_1() -> (p: PodInfo)
    ensures
        p@ == gpu_node_01_pod_1_view(),
{
    let mut labels = StringMap::new();
    insert_text(&mut labels, "app", "triton-inference");
    insert_text(&mut labels, "version", "v23.04");
    insert_text(&mut labels, "tier", "serving");
    let mut containers: Vec<ContainerInfo> = Vec::new();
    assert(containers@.map_values(|c: ContainerInfo| c@) =~= Seq::<ContainerView>::empty());
    push_container(&mut containers, "triton-server", "nvcr.io/nvidia/tritonserver:23.04-py3");
    PodInfo {
        name: owned("inference-server-a1b2c3"),
        namespace: owned("inference"),
        node_name: owned("gpu-node-01"),
        cluster_name: owned("production-cluster-01"),
        labels,
        containers,
    }
}

/// Node `gpu-node-01` of cluster `production-cluster-01`.
pub open spec fn gpu_node_01_view() -> NodeView {
    NodeView {
        name: "gpu-node-01"@,
        cluster_name: "production-cluster-01"@,
        os_image: "Ubuntu 20.04.6 LTS"@,
        kubelet_version: "v1.28.2"@,
        architecture: "amd64"@,
        capacity_cpu: "32"@,
        capacity_memory: "128Gi"@,
        gpu_model: "NVIDIA A100-SXM4-80GB"@,
        gpu_count: "8"@,
        pod_count: 12,
        container_count: 28,
        labels: ins(ins(ins(ins(ins(ins(Seq::<Entry>::empty(), "kubernetes.io/arch", "amd64"), "kubernetes.io/os", "linux"), "node.kubernetes.io/instance-type", "gpu.8xlarge"), "topology.kubernetes.io/zone", "us-west-2a"), "nvidia.com/gpu.present", "true"), "nvidia.com/gpu.count", "8"),
        mig_devices: ins(ins(ins(Seq::<Entry>::empty(), "1g.10gb", "4"), "2g.20gb", "2"), "3g.40gb", "1"),
        pods: Seq::<PodView>::empty().push(gpu_node_01_pod_0_view()).push(gpu_node_01_pod_1_view()),
    }
}

fn gpu_node_01() -> (n: NodeInfo)
    ensures
        n@ == gpu_node_01_view(),
{
    let mut labels = StringMap::new();
    insert_text(&mut labels, "kubernetes.io/arch", "amd64");
    insert_text(&mut labels, "kubernetes.io/os", "linux");
    insert_text(&mut labels, "node.kubernetes.io/instance-type", "gpu.8xlarge");
    insert_text(&mut labels, "topology.kubernetes.io/zone", "us-west-2a");
    insert_text(&mut labels, "nvidia.com/gpu.present", "true");
    insert_text(&mut labels, "nvidia.com/gpu.count", "8");
    let mut mig_devices = StringMap::new();
    insert_text(&mut mig_devices, "1g.10gb", "4");
    insert_text(&mut mig_devices, "2g.20gb", "2");
    insert_text(&mut mig_devices, "3g.40gb", "1");
    let mut pods: Vec<PodInfo> = Vec::new();
    assert(pods@.map_values(|p: PodInfo| p@) =~= Seq::<PodView>::empty());
    let ghost before = pods@;
    let p = gpu_node_01_pod_0();
    pods.push(p);
    assert(pods@.map_values(|p: PodInfo| p@) =~= before.map_values(|p: PodInfo| p@).push(p@));
    let ghost before = pods@;
    let p = gpu_node_01_pod_1();
    pods.push(p);
    assert(pods@.map_values(|p: PodInfo| p@) =~= before.map_values(|p: PodInfo| p@).push(p@));
    NodeInfo {
        name: owned("gpu-node-01"),
        cluster_name: owned("production-cluster-01"),
        os_image: owned("Ubuntu 20.04.6 LTS"),
        kubelet_version: owned("v1.28.2"),
        architecture: owned("amd64"),
        capacity_cpu: owned("32"),
        capacity_memory: owned("128Gi"),
        gpu_model: owned("NVIDIA A100-SXM4-80GB"),
        gpu_count: owned("8"),
        pod_count: 12,
        container_count: 28,
        labels,
        mig_devices,
        pods,
    }
}

/// Pod `jupyter-notebook-x9y8z7` of node `gpu-node-02`.
pub open spec fn gpu_node_02_pod_0_view() -> PodView {
    PodView {
        name: "jupyter-notebook-x9y8z7"@,
        namespace: "research"@,
        node_name: "gpu-node-02"@,
        cluster_name: "production-cluster-01"@,
        labels: ins(ins(ins(Seq::<Entry>::empty(), "app", "jupyter"), "user", "data-scientist-01"), "tier", "development"),
        containers: Seq::<ContainerView>::empty().push(container_view("jupyter-server", "jupyter/tensorflow-notebook:latest")),
    }
}

fn gpu_node_02_pod_0() -> (p: PodInfo)
    ensures
        p@ == gpu_node_02_pod_0_view(),
{
    let mut labels = StringMap::new();
    insert_text(&mut labels, "app", "jupyter");
    insert_text(&mut labels, "user", "data-scientist-01");
    insert_text(&mut labels, "tier", "development");
    let mut containers: Vec<ContainerInfo> = Vec::new();
    assert(containers@.map_values(|c: ContainerInfo| c@) =~= Seq::<ContainerView>::empty());
    push_container(&mut containers, "jupyter-server", "jupyter/tensorflow-notebook:latest");
    PodInfo {
        name: owned("jupyter-notebook-x9y8z7"),
        namespace: owned("research"),
        node_name: owned("gpu-node-02"),
        cluster_name: owned("production-cluster-01"),
        labels,
        containers,
    }
}

/// Node `gpu-node-02` of cluster `production-cluster-01`.
pub open spec fn gpu_node_02_view() -> NodeView {
    NodeView {
        name: "gpu-node-02"@,
        cluster_name: "production-cluster-01"@,
        os_image: "Ubuntu 20.04.6 LTS"@,
        kubelet_version: "v1.28.2"@,
        architecture: "amd64"@,
        capacity_cpu: "32"@,
        capacity_memory: "128Gi"@,
        gpu_model: "NVIDIA V100-SXM2-32GB"@,
        gpu_count: "4"@,
        pod_count: 8,
        container_count: 15,
        labels: ins(ins(ins(ins(ins(ins(Seq::<Entry>::empty(), "kubernetes.io/arch", "amd64"), "kubernetes.io/os", "linux"), "node.kubernetes.io/instance-type", "gpu.4xlarge"), "topology.kubernetes.io/zone", "us-west-2b"), "nvidia.com/gpu.present", "true"), "nvidia.com/gpu.count", "4"),
        mig_devices: ins(ins(Seq::<Entry>::empty(), "1g.5gb", "2"), "2g.10gb", "1"),
        pods: Seq::<PodView>::empty().push(gpu_node_02_pod_0_view()),
    }
}

fn gpu_node_02() -> (n: NodeInfo)
    ensures
        n@ == gpu_node_02_view(),
{
    let mut labels = StringMap::new();
    insert_text(&mut labels, "kubernetes.io/arch", "amd64");
    insert_text(&mut labels, "kubernetes.io/os", "linux");
    insert_text(&mut labels, "node.kubernetes.io/instance-type", "gpu.4xlarge");
    insert_text(&mut labels, "topology.kubernetes.io/zone", "us-west-2b");
    insert_text(&mut labels, "nvidia.com/gpu.present", "true");
    insert_text(&mut labels, "nvidia.com/gpu.count", "4");
    let mut mig_devices = StringMap::new();
    insert_text(&mut mig_devices, "1g.5gb", "2");
    insert_text(&mut mig_devices, "2g.10gb", "1");
    let mut pods: Vec<PodInfo> = Vec::new();
    assert(pods@.map_values(|p: PodInfo| p@) =~= Seq::<PodView>::empty());
    let ghost before = pods@;
    let p = gpu_node_02_pod_0();
    pods.push(p);
    assert(pods@.map_values(|p: PodInfo| p@) =~= before.map_values(|p: PodInfo| p@).push(p@));
    NodeInfo {
        name: owned("gpu-node-02"),
        cluster_name: owned("production-cluster-01"),
        os_image: owned("Ubuntu 20.04.6 LTS"),
        kubelet_version: owned("v1.28.2"),
        architecture: owned("amd64"),
        capacity_cpu: owned("32"),
        capacity_memory: owned("128Gi"),
        gpu_model: owned("NVIDIA V100-SXM2-32GB"),
        gpu_count: owned("4"),
        pod_count: 8,
        container_count: 15,
        labels,
        mig_devices,
        pods,
    }
}

/// Pod `web-frontend-deployment-7d8e9f` of node `worker-node-01`.
pub open spec fn worker_node_01_pod_0_view() -> PodView {
    PodView {
        name: "web-frontend-deployment-7d8e9f"@,
        namespace: "default"@,
        node_name: "worker-node-01"@,
        cluster_name: "production-cluster-01"@,
        labels: ins(ins(ins(Seq::<Entry>::empty(), "app", "web-frontend"), "version", "v1.2.3"), "tier", "frontend"),
        containers: Seq::<ContainerView>::empty().push(container_view("nginx", "nginx:1.21")).push(container_view("app-server", "node:18-alpine")),
    }
}

fn worker_node_01_pod_0() -> (p: PodInfo)
    ensures
        p@ == worker_node_01_pod_0_view(),
{
    let mut labels = StringMap::new();
    insert_text(&mut labels, "app", "web-frontend");
    insert_text(&mut labels, "version", "v1.2.3");
    insert_text(&mut labels, "tier", "frontend");
    let mut containers: Vec<ContainerInfo> = Vec::new();
    assert(containers@.map_values(|c: ContainerInfo| c@) =~= Seq::<ContainerView>::empty());
    push_container(&mut containers, "nginx", "nginx:1.21");
    push_container(&mut containers, "app-server", "node:18-alpine");
    PodInfo {
        name: owned("web-frontend-deployment-7d8e9f"),
        namespace: owned("default"),
        node_name: owned("worker-node-01"),
        cluster_name: owned("production-cluster-01"),
        labels,
        containers,
    }
}

/// Node `worker-node-01` of cluster `production-cluster-01`.
pub open spec fn worker_node_01_view() -> NodeView {
    NodeView {
        name: "worker-node-01"@,
        cluster_name: "production-cluster-01"@,
        os_image: "Ubuntu 20.04.6 LTS"@,
        kubelet_version: "v1.28.2"@,
        architecture: "amd64"@,
        capacity_cpu: "16"@,
        capacity_memory: "64Gi"@,
        gpu_model: "N/A"@,
        gpu_count: "0"@,
        pod_count: 5,
        container_count: 12,
        labels: ins(ins(ins(ins(Seq::<Entry>::empty(), "kubernetes.io/arch", "amd64"), "kubernetes.io/os", "linux"), "node.kubernetes.io/instance-type", "c5.4xlarge"), "topology.kubernetes.io/zone", "us-west-2c"),
        mig_devices: Seq::<Entry>::empty(),
        pods: Seq::<PodView>::empty().push(worker_node_01_pod_0_view()),
    }
}

fn worker_node_01() -> (n: NodeInfo)
    ensures
        n@ == worker_node_01_view(),
{
    let mut labels = StringMap::new();
    insert_text(&mut labels, "kubernetes.io/arch", "amd64");
    insert_text(&mut labels, "kubernetes.io/os", "linux");
    insert_text(&mut labels, "node.kubernetes.io/instance-type", "c5.4xlarge");
    insert_text(&mut labels, "topology.kubernetes.io/zone", "us-west-2c");
    let mut mig_devices = StringMap::new();
    let mut pods: Vec<PodInfo> = Vec::new();
    assert(pods@.map_values(|p: PodInfo| p@) =~= Seq::<PodView>::empty());
    let ghost before = pods@;
    let p = worker_node_01_pod_0();
    pods.push(p);
    assert(pods@.map_values(|p: PodInfo| p@) =~= before.map_values(|p: PodInfo| p@).push(p@));
    NodeInfo {
        name: owned("worker-node-01"),
        cluster_name: owned("production-cluster-01"),
        os_image: owned("Ubuntu 20.04.6 LTS"),
        kubelet_version: owned("v1.28.2"),
        architecture: owned("amd64"),
        capacity_cpu: owned("16"),
        capacity_memory: owned("64Gi"),
        gpu_model: owned("N/A"),
        gpu_count: owned("0"),
        pod_count: 5,
        container_count: 12,
        labels,
        mig_devices,
        pods,
    }
}

/// Pod `dev-training-pod-a1b2c3` of node `dev-gpu-node-01`.
pub open spec fn dev_gpu_node_01_pod_0_view() -> PodView {
    PodView {
        name: "dev-training-pod-a1b2c3"@,
        namespace: "dev-ml"@,
        node_name: "dev-gpu-node-01"@,
        cluster_name: "development-cluster-02"@,
        labels: ins(ins(ins(Seq::<Entry>::empty(), "app", "model-training"), "env", "development"), "framework", "tensorflow"),
        containers: Seq::<ContainerView>::empty().push(container_view("tensorflow-trainer", "tensorflow/tensorflow:2.13.0-gpu")),
    }
}

fn dev_gpu_node_01_pod_0() -> (p: PodInfo)
    ensures
        p@ == dev_gpu_node_01_pod_0_view(),
{
    let mut labels = StringMap::new();
    insert_text(&mut labels, "app", "model-training");
    insert_text(&mut labels, "env", "development");
    insert_text(&mut labels, "framework", "tensorflow");
    let mut containers: Vec<ContainerInfo> = Vec::new();
    assert(containers@.map_values(|c: ContainerInfo| c@) =~= Seq::<ContainerView>::empty());
    push_container(&mut containers, "tensorflow-trainer", "tensorflow/tensorflow:2.13.0-gpu");
    PodInfo {
        name: owned("dev-training-pod-a1b2c3"),
        namespace: owned("dev-ml"),
        node_name: owned("dev-gpu-node-01"),
        cluster_name: owned("development-cluster-02"),
        labels,
        containers,
    }
}

/// Node `dev-gpu-node-01` of cluster `development-cluster-02`.
pub open spec fn dev_gpu_node_01_view() -> NodeView {
    NodeView {
        name: "dev-gpu-node-01"@,
        cluster_name: "development-cluster-02"@,
        os_image: "Ubuntu 22.04.3 LTS"@,
        kubelet_version: "v1.29.0"@,
        architecture: "amd64"@,
        capacity_cpu: "24"@,
        capacity_memory: "96Gi"@,
        gpu_model: "NVIDIA RTX 4090"@,
        gpu_count: "2"@,
        pod_count: 6,
        container_count: 12,
        labels: ins(ins(ins(ins(ins(ins(ins(Seq::<Entry>::empty(), "kubernetes.io/arch", "amd64"), "kubernetes.io/os", "linux"), "node.kubernetes.io/instance-type", "gpu.2xlarge"), "topology.kubernetes.io/zone", "us-east-1a"), "nvidia.com/gpu.present", "true"), "nvidia.com/gpu.count", "2"), "environment", "development"),
        mig_devices: Seq::<Entry>::empty(),
        pods: Seq::<PodView>::empty().push(dev_gpu_node_01_pod_0_view()),
    }
}

fn dev_gpu_node_01() -> (n: NodeInfo)
    ensures
        n@ == dev_gpu_node_01_view(),
{
    let mut labels = StringMap::new();
    insert_text(&mut labels, "kubernetes.io/arch", "amd64");
    insert_text(&mut labels, "kubernetes.io/os", "linux");
    insert_text(&mut labels, "node.kubernetes.io/instance-type", "gpu.2xlarge");
    insert_text(&mut labels, "topology.kubernetes.io/zone", "us-east-1a");
    insert_text(&mut labels, "nvidia.com/gpu.present", "true");
    insert_text(&mut labels, "nvidia.com/gpu.count", "2");
    insert_text(&mut labels, "environment", "development");
    let mut mig_devices = StringMap::new();
    let mut pods: Vec<PodInfo> = Vec::new();
    assert(pods@.map_values(|p: PodInfo| p@) =~= Seq::<PodView>::empty());
    let ghost before = pods@;
    let p = dev_gpu_node_01_pod_0();
    pods.push(p);
    assert(pods@.map_values(|p: PodInfo| p@) =~= before.map_values(|p: PodInfo| p@).push(p@));
    NodeInfo {
        name: owned("dev-gpu-node-01"),
        cluster_name: owned("development-cluster-02"),
        os_image: owned("Ubuntu 22.04.3 LTS"),
        kubelet_version: owned("v1.29.0"),
        architecture: owned("amd64"),
        capacity_cpu: owned("24"),
        capacity_memory: owned("96Gi"),
        gpu_model: owned("NVIDIA RTX 4090"),
        gpu_count: owned("2"),
        pod_count: 6,
        container_count: 12,
        labels,
        mig_devices,
        pods,
    }
}

/// Pod `api-server-dev-x1y2z3` of node `dev-worker-node-01`.
pub open spec fn dev_worker_node_01_pod_0_view() -> PodView {
    PodView {
        name: "api-server-dev-x1y2z3"@,
        namespace: "api"@,
        node_name: "dev-worker-node-01"@,
        cluster_name: "development-cluster-02"@,
        labels: ins(ins(ins(Seq::<Entry>::empty(), "app", "api-server"), "env", "development"), "version", "v0.8.1"),
        containers: Seq::<ContainerView>::empty().push(container_view("api-container", "python:3.11-slim")),
    }
}

fn dev_worker_node_01_pod_0() -> (p: PodInfo)
    ensures
        p@ == dev_worker_node_01_pod_0_view(),
{
    let mut labels = StringMap::new();
    insert_text(&mut labels, "app", "api-server");
    insert_text(&mut labels, "env", "development");
    insert_text(&mut labels, "version", "v0.8.1");
    let mut containers: Vec<ContainerInfo> = Vec::new();
    assert(containers@.map_values(|c: ContainerInfo| c@) =~= Seq::<ContainerView>::empty());
    push_container(&mut containers, "api-container", "python:3.11-slim");
    PodInfo {
        name: owned("api-server-dev-x1y2z3"),
        namespace: owned("api"),
        node_name: owned("dev-worker-node-01"),
        cluster_name: owned("development-cluster-02"),
        labels,
        containers,
    }
}

/// Node `dev-worker-node-01` of cluster `development-cluster-02`.
pub open spec fn dev_worker_node_01_view() -> NodeView {
    NodeView {
        name: "dev-worker-node-01"@,
        cluster_name: "development-cluster-02"@,
        os_image: "Ubuntu 22.04.3 LTS"@,
        kubelet_version: "v1.29.0"@,
        architecture: "amd64"@,
        capacity_cpu: "8"@,
        capacity_memory: "32Gi"@,
        gpu_model: "N/A"@,
        gpu_count: "0"@,
        pod_count: 6,
        container_count: 16,
        labels: ins(ins(ins(ins(ins(Seq::<Entry>::empty(), "kubernetes.io/arch", "amd64"), "kubernetes.io/os", "linux"), "node.kubernetes.io/instance-type", "c5.2xlarge"), "topology.kubernetes.io/zone", "us-east-1b"), "environment", "development"),
        mig_devices: Seq::<Entry>::empty(),
        pods: Seq::<PodView>::empty().push(dev_worker_node_01_pod_0_view()),
    }
}

fn dev_worker_node_01() -> (n: NodeInfo)
    ensures
        n@ == dev_worker_node_01_view(),
{
    let mut labels = StringMap::new();
    insert_text(&mut labels, "kubernetes.io/arch", "amd64");
    insert_text(&mut labels, "kubernetes.io/os", "linux");
    insert_text(&mut labels, "node.kubernetes.io/instance-type", "c5.2xlarge");
    insert_text(&mut labels, "topology.kubernetes.io/zone", "us-east-1b");
    insert_text(&mut labels, "environment", "development");
    let mut mig_devices = StringMap::new();
    let mut pods: Vec<PodInfo> = Vec::new();
    assert(pods@.map_values(|p: PodInfo| p@) =~= Seq::<PodView>::empty());
    let ghost before = pods@;
    let p = dev_worker_node_01_pod_0();
    pods.push(p);
    assert(pods@.map_values(|p: PodInfo| p@) =~= before.map_values(|p: PodInfo| p@).push(p@));
    NodeInfo {
        name: owned("dev-worker-node-01"),
        cluster_name: owned("development-cluster-02"),
        os_image: owned("Ubuntu 22.04.3 LTS"),
        kubelet_version: owned("v1.29.0"),
        architecture: owned("amd64"),
        capacity_cpu: owned("8"),
        capacity_memory: owned("32Gi"),
        gpu_model: owned("N/A"),
        gpu_count: owned("0"),
        pod_count: 6,
        container_count: 16,
        labels,
        mig_devices,
        pods,
    }
}

/// Cluster `production-cluster-01`.
pub open spec fn cluster_0_view() -> ClusterView {
    ClusterView { name: "production-cluster-01"@, node_count: 3, pod_count: 25, nodes: Seq::<NodeView>::empty().push(gpu_node_01_view()).push(gpu_node_02_view()).push(worker_node_01_view()) }
}

fn cluster_0() -> (c: ClusterInfo)
    ensures
        c@ == cluster_0_view(),
{
    let mut nodes: Vec<NodeInfo> = Vec::new();
    assert(nodes@.map_values(|n: NodeInfo| n@) =~= Seq::<NodeView>::empty());
    let ghost before = nodes@;
    let n = gpu_node_01();
    nodes.push(n);
    assert(nodes@.map_values(|n: NodeInfo| n@) =~= before.map_values(|n: NodeInfo| n@).push(n@));
    let ghost before = nodes@;
    let n = gpu_node_02();
    nodes.push(n);
    assert(nodes@.map_values(|n: NodeInfo| n@) =~= before.map_values(|n: NodeInfo| n@).push(n@));
    let ghost before = nodes@;
    let n = worker_node_01();
    nodes.push(n);
    assert(nodes@.map_values(|n: NodeInfo| n@) =~= before.map_values(|n: NodeInfo| n@).push(n@));
    ClusterInfo { name: owned("production-cluster-01"), node_count: 3, pod_count: 25, nodes }
}

/// Cluster `development-cluster-02`.
pub open spec fn cluster_1_view() -> ClusterView {
    ClusterView { name: "development-cluster-02"@, node_count: 2, pod_count: 12, nodes: Seq::<NodeView>::empty().push(dev_gpu_node_01_view()).push(dev_worker_node_01_view()) }
}

fn cluster_1() -> (c: ClusterInfo)
    ensures
        c@ == cluster_1_view(),
{
    let mut nodes: Vec<NodeInfo> = Vec::new();
    assert(nodes@.map_values(|n: NodeInfo| n@) =~= Seq::<NodeView>::empty());
    let ghost before = nodes@;
    let n = dev_gpu_node_01();
    nodes.push(n);
    assert(nodes@.map_values(|n: NodeInfo| n@) =~= before.map_values(|n: NodeInfo| n@).push(n@));
    let ghost before = nodes@;
    let n = dev_worker_node_01();
    nodes.push(n);
    assert(nodes@.map_values(|n: NodeInfo| n@) =~= before.map_values(|n: NodeInfo| n@).push(n@));
    ClusterInfo { name: owned("development-cluster-02"), node_count: 2, pod_count: 12, nodes }
}

/// The sample clusters: a production cluster with two GPU nodes and a
/// worker node, and a development cluster with a GPU node and a worker node.
pub open spec fn dummy_clusters_view() -> Seq<ClusterView> {
    Seq::<ClusterView>::empty().push(cluster_0_view()).push(cluster_1_view())
}

/// The sample clusters shown in place of live cluster data.
pub fn generate_dummy_clusters() -> (r: Vec<ClusterInfo>)
    ensures
        r@.map_values(|c: ClusterInfo| c@) == dummy_clusters_view(),
{
    let mut r: Vec<ClusterInfo> = Vec::new();
    assert(r@.map_values(|c: ClusterInfo| c@) =~= Seq::<ClusterView>::empty());
    let c0 = cluster_0();
    r.push(c0);
    assert(r@.map_values(|c: ClusterInfo| c@) =~= Seq::<ClusterView>::empty().push(c0@));
    let ghost before = r@;
    let c1 = cluster_1();
    r.push(c1);
    assert(r@.map_values(|c: ClusterInfo| c@) =~= before.map_values(|c: ClusterInfo| c@).push(c1@));
    r
}

proof fn lemma_node_pod_total_push(nodes: Seq<NodeView>, n: NodeView)
    ensures
        node_pod_total(nodes.push(n)) == node_pod_total(nodes) + n.pod_count,
{
    assert(nodes.push(n).drop_last() =~= nodes);
}

/// In each sample cluster, the node count is the number of its nodes and
/// the pod count is the sum of its nodes' pod counts.
pub proof fn lemma_sample_clusters_consistent()
    ensures
        forall|i: int|
            0 <= i < dummy_clusters_view().len() ==> (#[trigger] dummy_clusters_view()[i]).node_count
                == dummy_clusters_view()[i].nodes.len() && dummy_clusters_view()[i].pod_count
                == node_pod_total(dummy_clusters_view()[i].nodes),
{
    let e = Seq::<NodeView>::empty();
    lemma_node_pod_total_push(e, gpu_node_01_view());
    lemma_node_pod_total_push(e.push(gpu_node_01_view()), gpu_node_02_view());
    lemma_node_pod_total_push(e.push(gpu_node_01_view()).push(gpu_node_02_view()), worker_node_01_view());
    lemma_node_pod_total_push(e, dev_gpu_node_01_view());
    lemma_node_pod_total_push(e.push(dev_gpu_node_01_view()), dev_worker_node_01_view());
}

/// The sample clusters hold the sample data: production-cluster-01 with
/// the GPU nodes gpu-node-01 (NVIDIA A100-SXM4-80GB, 8 GPUs) and gpu-node-02
/// (NVIDIA V100-SXM2-32GB, 4 GPUs) and the worker node worker-node-01, and
/// development-cluster-02 with dev-gpu-node-01 (NVIDIA RTX 4090, 2 GPUs) and
/// dev-worker-node-01; each node with its system information, capacity,
/// counts and pods, each pod with its namespace and containers.
pub proof fn lemma_sample_data()
    ensures
        dummy_clusters_view().len() == 2,
        dummy_clusters_view()[0].name == "production-cluster-01"@ && dummy_clusters_view()[0].node_count == 3 && dummy_clusters_view()[0].pod_count == 25 && dummy_clusters_view()[0].nodes.len() == 3,
        dummy_clusters_view()[0].nodes[0].name == "gpu-node-01"@ && dummy_clusters_view()[0].nodes[0].cluster_name == "production-cluster-01"@ && dummy_clusters_view()[0].nodes[0].os_image == "Ubuntu 20.04.6 LTS"@ && dummy_clusters_view()[0].nodes[0].kubelet_version == "v1.28.2"@ && dummy_clusters_view()[0].nodes[0].architecture == "amd64"@,
        dummy_clusters_view()[0].nodes[0].capacity_cpu == "32"@ && dummy_clusters_view()[0].nodes[0].capacity_memory == "128Gi"@ && dummy_clusters_view()[0].nodes[0].gpu_model == "NVIDIA A100-SXM4-80GB"@ && dummy_clusters_view()[0].nodes[0].gpu_count == "8"@ && dummy_clusters_view()[0].nodes[0].pod_count == 12 && dummy_clusters_view()[0].nodes[0].container_count == 28 && dummy_clusters_view()[0].nodes[0].pods.len() == 2,
        dummy_clusters_view()[0].nodes[0].pods[0].name == "ml-training-job-7f8g9h"@ && dummy_clusters_view()[0].nodes[0].pods[0].namespace == "ml-workloads"@ && dummy_clusters_view()[0].nodes[0].pods[0].node_name == "gpu-node-01"@ && dummy_clusters_view()[0].nodes[0].pods[0].cluster_name == "production-cluster-01"@ && dummy_clusters_view()[0].nodes[0].pods[0].containers.len() == 2,
        dummy_clusters_view()[0].nodes[0].pods[0].containers[0] == (ContainerView { name: "pytorch-trainer"@, image: "pytorch/pytorch:2.1.0-cuda11.8-cudnn8-runtime"@ }),
        dummy_clusters_view()[0].nodes[0].pods[0].containers[1] == (ContainerView { name: "data-loader"@, image: "busybox:1.36"@ }),
        dummy_clusters_view()[0].nodes[0].pods[1].name == "inference-server-a1b2c3"@ && dummy_clusters_view()[0].nodes[0].pods[1].namespace == "inference"@ && dummy_clusters_view()[0].nodes[0].pods[1].node_name == "gpu-node-01"@ && dummy_clusters_view()[0].nodes[0].pods[1].cluster_name == "production-cluster-01"@ && dummy_clusters_view()[0].nodes[0].pods[1].containers.len() == 1,
        dummy_clusters_view()[0].nodes[0].pods[1].containers[0] == (ContainerView { name: "triton-server"@, image: "nvcr.io/nvidia/tritonserver:23.04-py3"@ }),
        dummy_clusters_view()[0].nodes[1].name == "gpu-node-02"@ && dummy_clusters_view()[0].nodes[1].cluster_name == "production-cluster-01"@ && dummy_clusters_view()[0].nodes[1].os_image == "Ubuntu 20.04.6 LTS"@ && dummy_clusters_view()[0].nodes[1].kubelet_version == "v1.28.2"@ && dummy_clusters_view()[0].nodes[1].architecture == "amd64"@,
        dummy_clusters_view()[0].nodes[1].capacity_cpu == "32"@ && dummy_clusters_view()[0].nodes[1].capacity_memory == "128Gi"@ && dummy_clusters_view()[0].nodes[1].gpu_model == "NVIDIA V100-SXM2-32GB"@ && dummy_clusters_view()[0].nodes[1].gpu_count == "4"@ && dummy_clusters_view()[0].nodes[1].pod_count == 8 && dummy_clusters_view()[0].nodes[1].container_count == 15 && dummy_clusters_view()[0].nodes[1].pods.len() == 1,
        dummy_clusters_view()[0].nodes[1].pods[0].name == "jupyter-notebook-x9y8z7"@ && dummy_clusters_view()[0].nodes[1].pods[0].namespace == "research"@ && dummy_clusters_view()[0].nodes[1].pods[0].node_name == "gpu-node-02"@ && dummy_clusters_view()[0].nodes[1].pods[0].cluster_name == "production-cluster-01"@ && dummy_clusters_view()[0].nodes[1].pods[0].containers.len() == 1,
        dummy_clusters_view()[0].nodes[1].pods[0].containers[0] == (ContainerView { name: "jupyter-server"@, image: "jupyter/tensorflow-notebook:latest"@ }),
        dummy_clusters_view()[0].nodes[2].name == "worker-node-01"@ && dummy_clusters_view()[0].nodes[2].cluster_name == "production-cluster-01"@ && dummy_clusters_view()[0].nodes[2].os_image == "Ubuntu 20.04.6 LTS"@ && dummy_clusters_view()[0].nodes[2].kubelet_version == "v1.28.2"@ && dummy_clusters_view()[0].nodes[2].architecture == "amd64"@,
        dummy_clusters_view()[0].nodes[2].capacity_cpu == "16"@ && dummy_clusters_view()[0].nodes[2].capacity_memory == "64Gi"@ && dummy_clusters_view()[0].nodes[2].gpu_model == "N/A"@ && dummy_clusters_view()[0].nodes[2].gpu_count == "0"@ && dummy_clusters_view()[0].nodes[2].pod_count == 5 && dummy_clusters_view()[0].nodes[2].container_count == 12 && dummy_clusters_view()[0].nodes[2].pods.len() == 1,
        dummy_clusters_view()[0].nodes[2].pods[0].name == "web-frontend-deployment-7d8e9f"@ && dummy_clusters_view()[0].nodes[2].pods[0].namespace == "default"@ && dummy_clusters_view()[0].nodes[2].pods[0].node_name == "worker-node-01"@ && dummy_clusters_view()[0].nodes[2].pods[0].cluster_name == "production-cluster-01"@ && dummy_clusters_view()[0].nodes[2].pods[0].containers.len() == 2,
        dummy_clusters_view()[0].nodes[2].pods[0].containers[0] == (ContainerView { name: "nginx"@, image: "nginx:1.21"@ }),
        dummy_clusters_view()[0].nodes[2].pods[0].containers[1] == (ContainerView { name: "app-server"@, image: "node:18-alpine"@ }),
        dummy_clusters_view()[1].name == "development-cluster-02"@ && dummy_clusters_view()[1].node_count == 2 && dummy_clusters_view()[1].pod_count == 12 && dummy_clusters_view()[1].nodes.len() == 2,
        dummy_clusters_view()[1].nodes[0].name == "dev-gpu-node-01"@ && dummy_clusters_view()[1].nodes[0].cluster_name == "development-cluster-02"@ && dummy_clusters_view()[1].nodes[0].os_image == "Ubuntu 22.04.3 LTS"@ && dummy_clusters_view()[1].nodes[0].kubelet_version == "v1.29.0"@ && dummy_clusters_view()[1].nodes[0].architecture == "amd64"@,
        dummy_clusters_view()[1].nodes[0].capacity_cpu == "24"@ && dummy_clusters_view()[1].nodes[0].capacity_memory == "96Gi"@ && dummy_clusters_view()[1].nodes[0].gpu_model == "NVIDIA RTX 4090"@ && dummy_clusters_view()[1].nodes[0].gpu_count == "2"@ && dummy_clusters_view()[1].nodes[0].pod_count == 6 && dummy_clusters_view()[1].nodes[0].container_count == 12 && dummy_clusters_view()[1].nodes[0].pods.len() == 1,
        dummy_clusters_view()[1].nodes[0].pods[0].name == "dev-training-pod-a1b2c3"@ && dummy_clusters_view()[1].nodes[0].pods[0].namespace == "dev-ml"@ && dummy_clusters_view()[1].nodes[0].pods[0].node_name == "dev-gpu-node-01"@ && dummy_clusters_view()[1].nodes[0].pods[0].cluster_name == "development-cluster-02"@ && dummy_clusters_view()[1].nodes[0].pods[0].containers.len() == 1,
        dummy_clusters_view()[1].nodes[0].pods[0].containers[0] == (ContainerView { name: "tensorflow-trainer"@, image: "tensorflow/tensorflow:2.13.0-gpu"@ }),
        dummy_clusters_view()[1].nodes[1].name == "dev-worker-node-01"@ && dummy_clusters_view()[1].nodes[1].cluster_name == "development-cluster-02"@ && dummy_clusters_view()[1].nodes[1].os_image == "Ubuntu 22.04.3 LTS"@ && dummy_clusters_view()[1].nodes[1].kubelet_version == "v1.29.0"@ && dummy_clusters_view()[1].nodes[1].architecture == "amd64"@,
        dummy_clusters_view()[1].nodes[1].capacity_cpu == "8"@ && dummy_clusters_view()[1].nodes[1].capacity_memory == "32Gi"@ && dummy_clusters_view()[1].nodes[1].gpu_model == "N/A"@ && dummy_clusters_view()[1].nodes[1].gpu_count == "0"@ && dummy_clusters_view()[1].nodes[1].pod_count == 6 && dummy_clusters_view()[1].nodes[1].container_count == 16 && dummy_clusters_view()[1].nodes[1].pods.len() == 1,
        dummy_clusters_view()[1].nodes[1].pods[0].name == "api-server-dev-x1y2z3"@ && dummy_clusters_view()[1].nodes[1].pods[0].namespace == "api"@ && dummy_clusters_view()[1].nodes[1].pods[0].node_name == "dev-worker-node-01"@ && dummy_clusters_view()[1].nodes[1].pods[0].cluster_name == "development-cluster-02"@ && dummy_clusters_view()[1].nodes[1].pods[0].containers.len() == 1,
        dummy_clusters_view()[1].nodes[1].pods[0].containers[0] == (ContainerView { name: "api-container"@, image: "python:3.11-slim"@ }),
{
}

/// In the sample clusters every node names the cluster it belongs to, and
/// every pod names the node and the cluster it is listed under.
pub proof fn lemma_sample_pods_name_their_node()
    ensures
        forall|c: int, i: int, j: int|
            0 <= c < dummy_clusters_view().len() && 0 <= i < dummy_clusters_view()[c].nodes.len() && 0 <= j
                < dummy_clusters_view()[c].nodes[i].pods.len() ==> {
                let n = dummy_clusters_view()[c].nodes[i];
                &&& n.cluster_name == dummy_clusters_view()[c].name
                &&& (#[trigger] dummy_clusters_view()[c].nodes[i].pods[j]).node_name == n.name
                &&& n.pods[j].cluster_name == n.cluster_name
            },
{
}

proof fn lemma_sample_map_0()
    ensures
        lookup(dummy_clusters_view()[0].nodes[0].labels, "kubernetes.io/arch"@) == Some("amd64"@),
        lookup(dummy_clusters_view()[0].nodes[0].labels, "kubernetes.io/os"@) == Some("linux"@),
        lookup(dummy_clusters_view()[0].nodes[0].labels, "node.kubernetes.io/instance-type"@) == Some("gpu.8xlarge"@),
        lookup(dummy_clusters_view()[0].nodes[0].labels, "topology.kubernetes.io/zone"@) == Some("us-west-2a"@),
        lookup(dummy_clusters_view()[0].nodes[0].labels, "nvidia.com/gpu.present"@) == Some("true"@),
        lookup(dummy_clusters_view()[0].nodes[0].labels, "nvidia.com/gpu.count"@) == Some("8"@),
        forall|k: Seq<char>| k != "kubernetes.io/arch"@ && k != "kubernetes.io/os"@ && k != "node.kubernetes.io/instance-type"@ && k != "topology.kubernetes.io/zone"@ && k != "nvidia.com/gpu.present"@ && k != "nvidia.com/gpu.count"@ ==> #[trigger] lookup(dummy_clusters_view()[0].nodes[0].labels, k) is None,
{
    let m0 = Seq::<Entry>::empty();
    let m1 = ins(m0, "kubernetes.io/arch", "amd64");
    let m2 = ins(m1, "kubernetes.io/os", "linux");
    let m3 = ins(m2, "node.kubernetes.io/instance-type", "gpu.8xlarge");
    let m4 = ins(m3, "topology.kubernetes.io/zone", "us-west-2a");
    let m5 = ins(m4, "nvidia.com/gpu.present", "true");
    let m6 = ins(m5, "nvidia.com/gpu.count", "8");
    assert(dummy_clusters_view()[0].nodes[0].labels == m6);
    reveal_strlit("8");
    reveal_strlit("amd64");
    reveal_strlit("gpu.8xlarge");
    reveal_strlit("kubernetes.io/arch");
    reveal_strlit("kubernetes.io/os");
    reveal_strlit("linux");
    reveal_strlit("node.kubernetes.io/instance-type");
    reveal_strlit("nvidia.com/gpu.count");
    reveal_strlit("nvidia.com/gpu.present");
    reveal_strlit("topology.kubernetes.io/zone");
    reveal_strlit("true");
    reveal_strlit("us-west-2a");
    lemma_lookup_inserted(m0, "kubernetes.io/arch"@, "amd64"@);
    assert("kubernetes.io/os"@[14] != "kubernetes.io/arch"@[14]);
    lemma_lookup_other(m1, "kubernetes.io/os"@, "linux"@, "kubernetes.io/arch"@);
    assert("node.kubernetes.io/instance-type"@[0] != "kubernetes.io/arch"@[0]);
    lemma_lookup_other(m2, "node.kubernetes.io/instance-type"@, "gpu.8xlarge"@, "kubernetes.io/arch"@);
    assert("topology.kubernetes.io/zone"@[0] != "kubernetes.io/arch"@[0]);
    lemma_lookup_other(m3, "topology.kubernetes.io/zone"@, "us-west-2a"@, "kubernetes.io/arch"@);
    assert("nvidia.com/gpu.present"@[0] != "kubernetes.io/arch"@[0]);
    lemma_lookup_other(m4, "nvidia.com/gpu.present"@, "true"@, "kubernetes.io/arch"@);
    assert("nvidia.com/gpu.count"@[0] != "kubernetes.io/arch"@[0]);
    lemma_lookup_other(m5, "nvidia.com/gpu.count"@, "8"@, "kubernetes.io/arch"@);
    lemma_lookup_inserted(m1, "kubernetes.io/os"@, "linux"@);
    assert("node.kubernetes.io/instance-type"@[0] != "kubernetes.io/os"@[0]);
    lemma_lookup_other(m2, "node.kubernetes.io/instance-type"@, "gpu.8xlarge"@, "kubernetes.io/os"@);
    assert("topology.kubernetes.io/zone"@[0] != "kubernetes.io/os"@[0]);
    lemma_lookup_other(m3, "topology.kubernetes.io/zone"@, "us-west-2a"@, "kubernetes.io/os"@);
    assert("nvidia.com/gpu.present"@[0] != "kubernetes.io/os"@[0]);
    lemma_lookup_other(m4, "nvidia.com/gpu.present"@, "true"@, "kubernetes.io/os"@);
    assert("nvidia.com/gpu.count"@[0] != "kubernetes.io/os"@[0]);
    lemma_lookup_other(m5, "nvidia.com/gpu.count"@, "8"@, "kubernetes.io/os"@);
    lemma_lookup_inserted(m2, "node.kubernetes.io/instance-type"@, "gpu.8xlarge"@);
    assert("topology.kubernetes.io/zone"@[0] != "node.kubernetes.io/instance-type"@[0]);
    lemma_lookup_other(m3, "topology.kubernetes.io/zone"@, "us-west-2a"@, "node.kubernetes.io/instance-type"@);
    assert("nvidia.com/gpu.present"@[1] != "node.kubernetes.io/instance-type"@[1]);
    lemma_lookup_other(m4, "nvidia.com/gpu.present"@, "true"@, "node.kubernetes.io/instance-type"@);
    assert("nvidia.com/gpu.count"@[1] != "node.kubernetes.io/instance-type"@[1]);
    lemma_lookup_other(m5, "nvidia.com/gpu.count"@, "8"@, "node.kubernetes.io/instance-type"@);
    lemma_lookup_inserted(m3, "topology.kubernetes.io/zone"@, "us-west-2a"@);
    assert("nvidia.com/gpu.present"@[0] != "topology.kubernetes.io/zone"@[0]);
    lemma_lookup_other(m4, "nvidia.com/gpu.present"@, "true"@, "topology.kubernetes.io/zone"@);
    assert("nvidia.com/gpu.count"@[0] != "topology.kubernetes.io/zone"@[0]);
    lemma_lookup_other(m5, "nvidia.com/gpu.count"@, "8"@, "topology.kubernetes.io/zone"@);
    lemma_lookup_inserted(m4, "nvidia.com/gpu.present"@, "true"@);
    assert("nvidia.com/gpu.count"@[15] != "nvidia.com/gpu.present"@[15]);
    lemma_lookup_other(m5, "nvidia.com/gpu.count"@, "8"@, "nvidia.com/gpu.present"@);
    lemma_lookup_inserted(m5, "nvidia.com/gpu.count"@, "8"@);
    assert forall|k: Seq<char>| k != "kubernetes.io/arch"@ && k != "kubernetes.io/os"@ && k != "node.kubernetes.io/instance-type"@ && k != "topology.kubernetes.io/zone"@ && k != "nvidia.com/gpu.present"@ && k != "nvidia.com/gpu.count"@ implies #[trigger] lookup(dummy_clusters_view()[0].nodes[0].labels, k) is None by {
        lemma_lookup_other(m0, "kubernetes.io/arch"@, "amd64"@, k);
        lemma_lookup_other(m1, "kubernetes.io/os"@, "linux"@, k);
        lemma_lookup_other(m2, "node.kubernetes.io/instance-type"@, "gpu.8xlarge"@, k);
        lemma_lookup_other(m3, "topology.kubernetes.io/zone"@, "us-west-2a"@, k);
        lemma_lookup_other(m4, "nvidia.com/gpu.present"@, "true"@, k);
        lemma_lookup_other(m5, "nvidia.com/gpu.count"@, "8"@, k);
    }
}

proof fn lemma_sample_map_1()
    ensures
        lookup(dummy_clusters_view()[0].nodes[0].mig_devices, "1g.10gb"@) == Some("4"@),
        lookup(dummy_clusters_view()[0].nodes[0].mig_devices, "2g.20gb"@) == Some("2"@),
        lookup(dummy_clusters_view()[0].nodes[0].mig_devices, "3g.40gb"@) == Some("1"@),
        forall|k: Seq<char>| k != "1g.10gb"@ && k != "2g.20gb"@ && k != "3g.40gb"@ ==> #[trigger] lookup(dummy_clusters_view()[0].nodes[0].mig_devices, k) is None,
{
    let m0 = Seq::<Entry>::empty();
    let m1 = ins(m0, "1g.10gb", "4");
    let m2 = ins(m1, "2g.20gb", "2");
    let m3 = ins(m2, "3g.40gb", "1");
    assert(dummy_clusters_view()[0].nodes[0].mig_devices == m3);
    reveal_strlit("1");
    reveal_strlit("1g.10gb");
    reveal_strlit("2");
    reveal_strlit("2g.20gb");
    reveal_strlit("3g.40gb");
    reveal_strlit("4");
    lemma_lookup_inserted(m0, "1g.10gb"@, "4"@);
    assert("2g.20gb"@[0] != "1g.10gb"@[0]);
    lemma_lookup_other(m1, "2g.20gb"@, "2"@, "1g.10gb"@);
    assert("3g.40gb"@[0] != "1g.10gb"@[0]);
    lemma_lookup_other(m2, "3g.40gb"@, "1"@, "1g.10gb"@);
    lemma_lookup_inserted(m1, "2g.20gb"@, "2"@);
    assert("3g.40gb"@[0] != "2g.20gb"@[0]);
    lemma_lookup_other(m2, "3g.40gb"@, "1"@, "2g.20gb"@);
    lemma_lookup_inserted(m2, "3g.40gb"@, "1"@);
    assert forall|k: Seq<char>| k != "1g.10gb"@ && k != "2g.20gb"@ && k != "3g.40gb"@ implies #[trigger] lookup(dummy_clusters_view()[0].nodes[0].mig_devices, k) is None by {
        lemma_lookup_other(m0, "1g.10gb"@, "4"@, k);
        lemma_lookup_other(m1, "2g.20gb"@, "2"@, k);
        lemma_lookup_other(m2, "3g.40gb"@, "1"@, k);
    }
}

proof fn lemma_sample_map_2()
    ensures
        lookup(dummy_clusters_view()[0].nodes[0].pods[0].labels, "app"@) == Some("pytorch-training"@),
        lookup(dummy_clusters_view()[0].nodes[0].pods[0].labels, "version"@) == Some("v2.1.0"@),
        lookup(dummy_clusters_view()[0].nodes[0].pods[0].labels, "tier"@) == Some("compute"@),
        forall|k: Seq<char>| k != "app"@ && k != "version"@ && k != "tier"@ ==> #[trigger] lookup(dummy_clusters_view()[0].nodes[0].pods[0].labels, k) is None,
{
    let m0 = Seq::<Entry>::empty();
    let m1 = ins(m0, "app", "pytorch-training");
    let m2 = ins(m1, "version", "v2.1.0");
    let m3 = ins(m2, "tier", "compute");
    assert(dummy_clusters_view()[0].nodes[0].pods[0].labels == m3);
    reveal_strlit("app");
    reveal_strlit("compute");
    reveal_strlit("pytorch-training");
    reveal_strlit("tier");
    reveal_strlit("v2.1.0");
    reveal_strlit("version");
    lemma_lookup_inserted(m0, "app"@, "pytorch-training"@);
    assert("version"@[0] != "app"@[0]);
    lemma_lookup_other(m1, "version"@, "v2.1.0"@, "app"@);
    assert("tier"@[0] != "app"@[0]);
    lemma_lookup_other(m2, "tier"@, "compute"@, "app"@);
    lemma_lookup_inserted(m1, "version"@, "v2.1.0"@);
    assert("tier"@[0] != "version"@[0]);
    lemma_lookup_other(m2, "tier"@, "compute"@, "version"@);
    lemma_lookup_inserted(m2, "tier"@, "compute"@);
    assert forall|k: Seq<char>| k != "app"@ && k != "version"@ && k != "tier"@ implies #[trigger] lookup(dummy_clusters_view()[0].nodes[0].pods[0].labels, k) is None by {
        lemma_lookup_other(m0, "app"@, "pytorch-training"@, k);
        lemma_lookup_other(m1, "version"@, "v2.1.0"@, k);
        lemma_lookup_other(m2, "tier"@, "compute"@, k);
    }
}

proof fn lemma_sample_map_3()
    ensures
        lookup(dummy_clusters_view()[0].nodes[0].pods[1].labels, "app"@) == Some("triton-inference"@),
        lookup(dummy_clusters_view()[0].nodes[0].pods[1].labels, "version"@) == Some("v23.04"@),
        lookup(dummy_clusters_view()[0].nodes[0].pods[1].labels, "tier"@) == Some("serving"@),
        forall|k: Seq<char>| k != "app"@ && k != "version"@ && k != "tier"@ ==> #[trigger] lookup(dummy_clusters_view()[0].nodes[0].pods[1].labels, k) is None,
{
    let m0 = Seq::<Entry>::empty();
    let m1 = ins(m0, "app", "triton-inference");
    let m2 = ins(m1, "version", "v23.04");
    let m3 = ins(m2, "tier", "serving");
    assert(dummy_clusters_view()[0].nodes[0].pods[1].labels == m3);
    reveal_strlit("app");
    reveal_strlit("serving");
    reveal_strlit("tier");
    reveal_strlit("triton-inference");
    reveal_strlit("v23.04");
    reveal_strlit("version");
    lemma_lookup_inserted(m0, "app"@, "triton-inference"@);
    assert("version"@[0] != "app"@[0]);
    lemma_lookup_other(m1, "version"@, "v23.04"@, "app"@);
    assert("tier"@[0] != "app"@[0]);
    lemma_lookup_other(m2, "tier"@, "serving"@, "app"@);
    lemma_lookup_inserted(m1, "version"@, "v23.04"@);
    assert("tier"@[0] != "version"@[0]);
    lemma_lookup_other(m2, "tier"@, "serving"@, "version"@);
    lemma_lookup_inserted(m2, "tier"@, "serving"@);
    assert forall|k: Seq<char>| k != "app"@ && k != "version"@ && k != "tier"@ implies #[trigger] lookup(dummy_clusters_view()[0].nodes[0].pods[1].labels, k) is None by {
        lemma_lookup_other(m0, "app"@, "triton-inference"@, k);
        lemma_lookup_other(m1, "version"@, "v23.04"@, k);
        lemma_lookup_other(m2, "tier"@, "serving"@, k);
    }
}

proof fn lemma_sample_map_4()
    ensures
        lookup(dummy_clusters_view()[0].nodes[1].labels, "kubernetes.io/arch"@) == Some("amd64"@),
        lookup(dummy_clusters_view()[0].nodes[1].labels, "kubernetes.io/os"@) == Some("linux"@),
        lookup(dummy_clusters_view()[0].nodes[1].labels, "node.kubernetes.io/instance-type"@) == Some("gpu.4xlarge"@),
        lookup(dummy_clusters_view()[0].nodes[1].labels, "topology.kubernetes.io/zone"@) == Some("us-west-2b"@),
        lookup(dummy_clusters_view()[0].nodes[1].labels, "nvidia.com/gpu.present"@) == Some("true"@),
        lookup(dummy_clusters_view()[0].nodes[1].labels, "nvidia.com/gpu.count"@) == Some("4"@),
        forall|k: Seq<char>| k != "kubernetes.io/arch"@ && k != "kubernetes.io/os"@ && k != "node.kubernetes.io/instance-type"@ && k != "topology.kubernetes.io/zone"@ && k != "nvidia.com/gpu.present"@ && k != "nvidia.com/gpu.count"@ ==> #[trigger] lookup(dummy_clusters_view()[0].nodes[1].labels, k) is None,
{
    let m0 = Seq::<Entry>::empty();
    let m1 = ins(m0, "kubernetes.io/arch", "amd64");
    let m2 = ins(m1, "kubernetes.io/os", "linux");
    let m3 = ins(m2, "node.kubernetes.io/instance-type", "gpu.4xlarge");
    let m4 = ins(m3, "topology.kubernetes.io/zone", "us-west-2b");
    let m5 = ins(m4, "nvidia.com/gpu.present", "true");
    let m6 = ins(m5, "nvidia.com/gpu.count", "4");
    assert(dummy_clusters_view()[0].nodes[1].labels == m6);
    reveal_strlit("4");
    reveal_strlit("amd64");
    reveal_strlit("gpu.4xlarge");
    reveal_strlit("kubernetes.io/arch");
    reveal_strlit("kubernetes.io/os");
    reveal_strlit("linux");
    reveal_strlit("node.kubernetes.io/instance-type");
    reveal_strlit("nvidia.com/gpu.count");
    reveal_strlit("nvidia.com/gpu.present");
    reveal_strlit("topology.kubernetes.io/zone");
    reveal_strlit("true");
    reveal_strlit("us-west-2b");
    lemma_lookup_inserted(m0, "kubernetes.io/arch"@, "amd64"@);
    assert("kubernetes.io/os"@[14] != "kubernetes.io/arch"@[14]);
    lemma_lookup_other(m1, "kubernetes.io/os"@, "linux"@, "kubernetes.io/arch"@);
    assert("node.kubernetes.io/instance-type"@[0] != "kubernetes.io/arch"@[0]);
    lemma_lookup_other(m2, "node.kubernetes.io/instance-type"@, "gpu.4xlarge"@, "kubernetes.io/arch"@);
    assert("topology.kubernetes.io/zone"@[0] != "kubernetes.io/arch"@[0]);
    lemma_lookup_other(m3, "topology.kubernetes.io/zone"@, "us-west-2b"@, "kubernetes.io/arch"@);
    assert("nvidia.com/gpu.present"@[0] != "kubernetes.io/arch"@[0]);
    lemma_lookup_other(m4, "nvidia.com/gpu.present"@, "true"@, "kubernetes.io/arch"@);
    assert("nvidia.com/gpu.count"@[0] != "kubernetes.io/arch"@[0]);
    lemma_lookup_other(m5, "nvidia.com/gpu.count"@, "4"@, "kubernetes.io/arch"@);
    lemma_lookup_inserted(m1, "kubernetes.io/os"@, "linux"@);
    assert("node.kubernetes.io/instance-type"@[0] != "kubernetes.io/os"@[0]);
    lemma_lookup_other(m2, "node.kubernetes.io/instance-type"@, "gpu.4xlarge"@, "kubernetes.io/os"@);
    assert("topology.kubernetes.io/zone"@[0] != "kubernetes.io/os"@[0]);
    lemma_lookup_other(m3, "topology.kubernetes.io/zone"@, "us-west-2b"@, "kubernetes.io/os"@);
    assert("nvidia.com/gpu.present"@[0] != "kubernetes.io/os"@[0]);
    lemma_lookup_other(m4, "nvidia.com/gpu.present"@, "true"@, "kubernetes.io/os"@);
    assert("nvidia.com/gpu.count"@[0] != "kubernetes.io/os"@[0]);
    lemma_lookup_other(m5, "nvidia.com/gpu.count"@, "4"@, "kubernetes.io/os"@);
    lemma_lookup_inserted(m2, "node.kubernetes.io/instance-type"@, "gpu.4xlarge"@);
    assert("topology.kubernetes.io/zone"@[0] != "node.kubernetes.io/instance-type"@[0]);
    lemma_lookup_other(m3, "topology.kubernetes.io/zone"@, "us-west-2b"@, "node.kubernetes.io/instance-type"@);
    assert("nvidia.com/gpu.present"@[1] != "node.kubernetes.io/instance-type"@[1]);
    lemma_lookup_other(m4, "nvidia.com/gpu.present"@, "true"@, "node.kubernetes.io/instance-type"@);
    assert("nvidia.com/gpu.count"@[1] != "node.kubernetes.io/instance-type"@[1]);
    lemma_lookup_other(m5, "nvidia.com/gpu.count"@, "4"@, "node.kubernetes.io/instance-type"@);
    lemma_lookup_inserted(m3, "topology.kubernetes.io/zone"@, "us-west-2b"@);
    assert("nvidia.com/gpu.present"@[0] != "topology.kubernetes.io/zone"@[0]);
    lemma_lookup_other(m4, "nvidia.com/gpu.present"@, "true"@, "topology.kubernetes.io/zone"@);
    assert("nvidia.com/gpu.count"@[0] != "topology.kubernetes.io/zone"@[0]);
    lemma_lookup_other(m5, "nvidia.com/gpu.count"@, "4"@, "topology.kubernetes.io/zone"@);
    lemma_lookup_inserted(m4, "nvidia.com/gpu.present"@, "true"@);
    assert("nvidia.com/gpu.count"@[15] != "nvidia.com/gpu.present"@[15]);
    lemma_lookup_other(m5, "nvidia.com/gpu.count"@, "4"@, "nvidia.com/gpu.present"@);
    lemma_lookup_inserted(m5, "nvidia.com/gpu.count"@, "4"@);
    assert forall|k: Seq<char>| k != "kubernetes.io/arch"@ && k != "kubernetes.io/os"@ && k != "node.kubernetes.io/instance-type"@ && k != "topology.kubernetes.io/zone"@ && k != "nvidia.com/gpu.present"@ && k != "nvidia.com/gpu.count"@ implies #[trigger] lookup(dummy_clusters_view()[0].nodes[1].labels, k) is None by {
        lemma_lookup_other(m0, "kubernetes.io/arch"@, "amd64"@, k);
        lemma_lookup_other(m1, "kubernetes.io/os"@, "linux"@, k);
        lemma_lookup_other(m2, "node.kubernetes.io/instance-type"@, "gpu.4xlarge"@, k);
        lemma_lookup_other(m3, "topology.kubernetes.io/zone"@, "us-west-2b"@, k);
        lemma_lookup_other(m4, "nvidia.com/gpu.present"@, "true"@, k);
        lemma_lookup_other(m5, "nvidia.com/gpu.count"@, "4"@, k);
    }
}

proof fn lemma_sample_map_5()
    ensures
        lookup(dummy_clusters_view()[0].nodes[1].mig_devices, "1g.5gb"@) == Some("2"@),
        lookup(dummy_clusters_view()[0].nodes[1].mig_devices, "2g.10gb"@) == Some("1"@),
        forall|k: Seq<char>| k != "1g.5gb"@ && k != "2g.10gb"@ ==> #[trigger] lookup(dummy_clusters_view()[0].nodes[1].mig_devices, k) is None,
{
    let m0 = Seq::<Entry>::empty();
    let m1 = ins(m0, "1g.5gb", "2");
    let m2 = ins(m1, "2g.10gb", "1");
    assert(dummy_clusters_view()[0].nodes[1].mig_devices == m2);
    reveal_strlit("1");
    reveal_strlit("1g.5gb");
    reveal_strlit("2");
    reveal_strlit("2g.10gb");
    lemma_lookup_inserted(m0, "1g.5gb"@, "2"@);
    assert("2g.10gb"@[0] != "1g.5gb"@[0]);
    lemma_lookup_other(m1, "2g.10gb"@, "1"@, "1g.5gb"@);
    lemma_lookup_inserted(m1, "2g.10gb"@, "1"@);
    assert forall|k: Seq<char>| k != "1g.5gb"@ && k != "2g.10gb"@ implies #[trigger] lookup(dummy_clusters_view()[0].nodes[1].mig_devices, k) is None by {
        lemma_lookup_other(m0, "1g.5gb"@, "2"@, k);
        lemma_lookup_other(m1, "2g.10gb"@, "1"@, k);
    }
}

proof fn lemma_sample_map_6()
    ensures
        lookup(dummy_clusters_view()[0].nodes[1].pods[0].labels, "app"@) == Some("jupyter"@),
        lookup(dummy_clusters_view()[0].nodes[1].pods[0].labels, "user"@) == Some("data-scientist-01"@),
        lookup(dummy_clusters_view()[0].nodes[1].pods[0].labels, "tier"@) == Some("development"@),
        forall|k: Seq<char>| k != "app"@ && k != "user"@ && k != "tier"@ ==> #[trigger] lookup(dummy_clusters_view()[0].nodes[1].pods[0].labels, k) is None,
{
    let m0 = Seq::<Entry>::empty();
    let m1 = ins(m0, "app", "jupyter");
    let m2 = ins(m1, "user", "data-scientist-01");
    let m3 = ins(m2, "tier", "development");
    assert(dummy_clusters_view()[0].nodes[1].pods[0].labels == m3);
    reveal_strlit("app");
    reveal_strlit("data-scientist-01");
    reveal_strlit("development");
    reveal_strlit("jupyter");
    reveal_strlit("tier");
    reveal_strlit("user");
    lemma_lookup_inserted(m0, "app"@, "jupyter"@);
    assert("user"@[0] != "app"@[0]);
    lemma_lookup_other(m1, "user"@, "data-scientist-01"@, "app"@);
    assert("tier"@[0] != "app"@[0]);
    lemma_lookup_other(m2, "tier"@, "development"@, "app"@);
    lemma_lookup_inserted(m1, "user"@, "data-scientist-01"@);
    assert("tier"@[0] != "user"@[0]);
    lemma_lookup_other(m2, "tier"@, "development"@, "user"@);
    lemma_lookup_inserted(m2, "tier"@, "development"@);
    assert forall|k: Seq<char>| k != "app"@ && k != "user"@ && k != "tier"@ implies #[trigger] lookup(dummy_clusters_view()[0].nodes[1].pods[0].labels, k) is None by {
        lemma_lookup_other(m0, "app"@, "jupyter"@, k);
        lemma_lookup_other(m1, "user"@, "data-scientist-01"@, k);
        lemma_lookup_other(m2, "tier"@, "development"@, k);
    }
}

proof fn lemma_sample_map_7()
    ensures
        lookup(dummy_clusters_view()[0].nodes[2].labels, "kubernetes.io/arch"@) == Some("amd64"@),
        lookup(dummy_clusters_view()[0].nodes[2].labels, "kubernetes.io/os"@) == Some("linux"@),
        lookup(dummy_clusters_view()[0].nodes[2].labels, "node.kubernetes.io/instance-type"@) == Some("c5.4xlarge"@),
        lookup(dummy_clusters_view()[0].nodes[2].labels, "topology.kubernetes.io/zone"@) == Some("us-west-2c"@),
        forall|k: Seq<char>| k != "kubernetes.io/arch"@ && k != "kubernetes.io/os"@ && k != "node.kubernetes.io/instance-type"@ && k != "topology.kubernetes.io/zone"@ ==> #[trigger] lookup(dummy_clusters_view()[0].nodes[2].labels, k) is None,
{
    let m0 = Seq::<Entry>::empty();
    let m1 = ins(m0, "kubernetes.io/arch", "amd64");
    let m2 = ins(m1, "kubernetes.io/os", "linux");
    let m3 = ins(m2, "node.kubernetes.io/instance-type", "c5.4xlarge");
    let m4 = ins(m3, "topology.kubernetes.io/zone", "us-west-2c");
    assert(dummy_clusters_view()[0].nodes[2].labels == m4);
    reveal_strlit("amd64");
    reveal_strlit("c5.4xlarge");
    reveal_strlit("kubernetes.io/arch");
    reveal_strlit("kubernetes.io/os");
    reveal_strlit("linux");
    reveal_strlit("node.kubernetes.io/instance-type");
    reveal_strlit("topology.kubernetes.io/zone");
    reveal_strlit("us-west-2c");
    lemma_lookup_inserted(m0, "kubernetes.io/arch"@, "amd64"@);
    assert("kubernetes.io/os"@[14] != "kubernetes.io/arch"@[14]);
    lemma_lookup_other(m1, "kubernetes.io/os"@, "linux"@, "kubernetes.io/arch"@);
    assert("node.kubernetes.io/instance-type"@[0] != "kubernetes.io/arch"@[0]);
    lemma_lookup_other(m2, "node.kubernetes.io/instance-type"@, "c5.4xlarge"@, "kubernetes.io/arch"@);
    assert("topology.kubernetes.io/zone"@[0] != "kubernetes.io/arch"@[0]);
    lemma_lookup_other(m3, "topology.kubernetes.io/zone"@, "us-west-2c"@, "kubernetes.io/arch"@);
    lemma_lookup_inserted(m1, "kubernetes.io/os"@, "linux"@);
    assert("node.kubernetes.io/instance-type"@[0] != "kubernetes.io/os"@[0]);
    lemma_lookup_other(m2, "node.kubernetes.io/instance-type"@, "c5.4xlarge"@, "kubernetes.io/os"@);
    assert("topology.kubernetes.io/zone"@[0] != "kubernetes.io/os"@[0]);
    lemma_lookup_other(m3, "topology.kubernetes.io/zone"@, "us-west-2c"@, "kubernetes.io/os"@);
    lemma_lookup_inserted(m2, "node.kubernetes.io/instance-type"@, "c5.4xlarge"@);
    assert("topology.kubernetes.io/zone"@[0] != "node.kubernetes.io/instance-type"@[0]);
    lemma_lookup_other(m3, "topology.kubernetes.io/zone"@, "us-west-2c"@, "node.kubernetes.io/instance-type"@);
    lemma_lookup_inserted(m3, "topology.kubernetes.io/zone"@, "us-west-2c"@);
    assert forall|k: Seq<char>| k != "kubernetes.io/arch"@ && k != "kubernetes.io/os"@ && k != "node.kubernetes.io/instance-type"@ && k != "topology.kubernetes.io/zone"@ implies #[trigger] lookup(dummy_clusters_view()[0].nodes[2].labels, k) is None by {
        lemma_lookup_other(m0, "kubernetes.io/arch"@, "amd64"@, k);
        lemma_lookup_other(m1, "kubernetes.io/os"@, "linux"@, k);
        lemma_lookup_other(m2, "node.kubernetes.io/instance-type"@, "c5.4xlarge"@, k);
        lemma_lookup_other(m3, "topology.kubernetes.io/zone"@, "us-west-2c"@, k);
    }
}

proof fn lemma_sample_map_8()
    ensures
        lookup(dummy_clusters_view()[0].nodes[2].pods[0].labels, "app"@) == Some("web-frontend"@),
        lookup(dummy_clusters_view()[0].nodes[2].pods[0].labels, "version"@) == Some("v1.2.3"@),
        lookup(dummy_clusters_view()[0].nodes[2].pods[0].labels, "tier"@) == Some("frontend"@),
        forall|k: Seq<char>| k != "app"@ && k != "version"@ && k != "tier"@ ==> #[trigger] lookup(dummy_clusters_view()[0].nodes[2].pods[0].labels, k) is None,
{
    let m0 = Seq::<Entry>::empty();
    let m1 = ins(m0, "app", "web-frontend");
    let m2 = ins(m1, "version", "v1.2.3");
    let m3 = ins(m2, "tier", "frontend");
    assert(dummy_clusters_view()[0].nodes[2].pods[0].labels == m3);
    reveal_strlit("app");
    reveal_strlit("frontend");
    reveal_strlit("tier");
    reveal_strlit("v1.2.3");
    reveal_strlit("version");
    reveal_strlit("web-frontend");
    lemma_lookup_inserted(m0, "app"@, "web-frontend"@);
    assert("version"@[0] != "app"@[0]);
    lemma_lookup_other(m1, "version"@, "v1.2.3"@, "app"@);
    assert("tier"@[0] != "app"@[0]);
    lemma_lookup_other(m2, "tier"@, "frontend"@, "app"@);
    lemma_lookup_inserted(m1, "version"@, "v1.2.3"@);
    assert("tier"@[0] != "version"@[0]);
    lemma_lookup_other(m2, "tier"@, "frontend"@, "version"@);
    lemma_lookup_inserted(m2, "tier"@, "frontend"@);
    assert forall|k: Seq<char>| k != "app"@ && k != "version"@ && k != "tier"@ implies #[trigger] lookup(dummy_clusters_view()[0].nodes[2].pods[0].labels, k) is None by {
        lemma_lookup_other(m0, "app"@, "web-frontend"@, k);
        lemma_lookup_other(m1, "version"@, "v1.2.3"@, k);
        lemma_lookup_other(m2, "tier"@, "frontend"@, k);
    }
}

proof fn lemma_sample_map_9()
    ensures
        lookup(dummy_clusters_view()[1].nodes[0].labels, "kubernetes.io/arch"@) == Some("amd64"@),
        lookup(dummy_clusters_view()[1].nodes[0].labels, "kubernetes.io/os"@) == Some("linux"@),
        lookup(dummy_clusters_view()[1].nodes[0].labels, "node.kubernetes.io/instance-type"@) == Some("gpu.2xlarge"@),
        lookup(dummy_clusters_view()[1].nodes[0].labels, "topology.kubernetes.io/zone"@) == Some("us-east-1a"@),
        lookup(dummy_clusters_view()[1].nodes[0].labels, "nvidia.com/gpu.present"@) == Some("true"@),
        lookup(dummy_clusters_view()[1].nodes[0].labels, "nvidia.com/gpu.count"@) == Some("2"@),
        lookup(dummy_clusters_view()[1].nodes[0].labels, "environment"@) == Some("development"@),
        forall|k: Seq<char>| k != "kubernetes.io/arch"@ && k != "kubernetes.io/os"@ && k != "node.kubernetes.io/instance-type"@ && k != "topology.kubernetes.io/zone"@ && k != "nvidia.com/gpu.present"@ && k != "nvidia.com/gpu.count"@ && k != "environment"@ ==> #[trigger] lookup(dummy_clusters_view()[1].nodes[0].labels, k) is None,
{
    let m0 = Seq::<Entry>::empty();
    let m1 = ins(m0, "kubernetes.io/arch", "amd64");
    let m2 = ins(m1, "kubernetes.io/os", "linux");
    let m3 = ins(m2, "node.kubernetes.io/instance-type", "gpu.2xlarge");
    let m4 = ins(m3, "topology.kubernetes.io/zone", "us-east-1a");
    let m5 = ins(m4, "nvidia.com/gpu.present", "true");
    let m6 = ins(m5, "nvidia.com/gpu.count", "2");
    let m7 = ins(m6, "environment", "development");
    assert(dummy_clusters_view()[1].nodes[0].labels == m7);
    reveal_strlit("2");
    reveal_strlit("amd64");
    reveal_strlit("development");
    reveal_strlit("environment");
    reveal_strlit("gpu.2xlarge");
    reveal_strlit("kubernetes.io/arch");
    reveal_strlit("kubernetes.io/os");
    reveal_strlit("linux");
    reveal_strlit("node.kubernetes.io/instance-type");
    reveal_strlit("nvidia.com/gpu.count");
    reveal_strlit("nvidia.com/gpu.present");
    reveal_strlit("topology.kubernetes.io/zone");
    reveal_strlit("true");
    reveal_strlit("us-east-1a");
    lemma_lookup_inserted(m0, "kubernetes.io/arch"@, "amd64"@);
    assert("kubernetes.io/os"@[14] != "kubernetes.io/arch"@[14]);
    lemma_lookup_other(m1, "kubernetes.io/os"@, "linux"@, "kubernetes.io/arch"@);
    assert("node.kubernetes.io/instance-type"@[0] != "kubernetes.io/arch"@[0]);
    lemma_lookup_other(m2, "node.kubernetes.io/instance-type"@, "gpu.2xlarge"@, "kubernetes.io/arch"@);
    assert("topology.kubernetes.io/zone"@[0] != "kubernetes.io/arch"@[0]);
    lemma_lookup_other(m3, "topology.kubernetes.io/zone"@, "us-east-1a"@, "kubernetes.io/arch"@);
    assert("nvidia.com/gpu.present"@[0] != "kubernetes.io/arch"@[0]);
    lemma_lookup_other(m4, "nvidia.com/gpu.present"@, "true"@, "kubernetes.io/arch"@);
    assert("nvidia.com/gpu.count"@[0] != "kubernetes.io/arch"@[0]);
    lemma_lookup_other(m5, "nvidia.com/gpu.count"@, "2"@, "kubernetes.io/arch"@);
    assert("environment"@[0] != "kubernetes.io/arch"@[0]);
    lemma_lookup_other(m6, "environment"@, "development"@, "kubernetes.io/arch"@);
    lemma_lookup_inserted(m1, "kubernetes.io/os"@, "linux"@);
    assert("node.kubernetes.io/instance-type"@[0] != "kubernetes.io/os"@[0]);
    lemma_lookup_other(m2, "node.kubernetes.io/instance-type"@, "gpu.2xlarge"@, "kubernetes.io/os"@);
    assert("topology.kubernetes.io/zone"@[0] != "kubernetes.io/os"@[0]);
    lemma_lookup_other(m3, "topology.kubernetes.io/zone"@, "us-east-1a"@, "kubernetes.io/os"@);
    assert("nvidia.com/gpu.present"@[0] != "kubernetes.io/os"@[0]);
    lemma_lookup_other(m4, "nvidia.com/gpu.present"@, "true"@, "kubernetes.io/os"@);
    assert("nvidia.com/gpu.count"@[0] != "kubernetes.io/os"@[0]);
    lemma_lookup_other(m5, "nvidia.com/gpu.count"@, "2"@, "kubernetes.io/os"@);
    assert("environment"@[0] != "kubernetes.io/os"@[0]);
    lemma_lookup_other(m6, "environment"@, "development"@, "kubernetes.io/os"@);
    lemma_lookup_inserted(m2, "node.kubernetes.io/instance-type"@, "gpu.2xlarge"@);
    assert("topology.kubernetes.io/zone"@[0] != "node.kubernetes.io/instance-type"@[0]);
    lemma_lookup_other(m3, "topology.kubernetes.io/zone"@, "us-east-1a"@, "node.kubernetes.io/instance-type"@);
    assert("nvidia.com/gpu.present"@[1] != "node.kubernetes.io/instance-type"@[1]);
    lemma_lookup_other(m4, "nvidia.com/gpu.present"@, "true"@, "node.kubernetes.io/instance-type"@);
    assert("nvidia.com/gpu.count"@[1] != "node.kubernetes.io/instance-type"@[1]);
    lemma_lookup_other(m5, "nvidia.com/gpu.count"@, "2"@, "node.kubernetes.io/instance-type"@);
    assert("environment"@[0] != "node.kubernetes.io/instance-type"@[0]);
    lemma_lookup_other(m6, "environment"@, "development"@, "node.kubernetes.io/instance-type"@);
    lemma_lookup_inserted(m3, "topology.kubernetes.io/zone"@, "us-east-1a"@);
    assert("nvidia.com/gpu.present"@[0] != "topology.kubernetes.io/zone"@[0]);
    lemma_lookup_other(m4, "nvidia.com/gpu.present"@, "true"@, "topology.kubernetes.io/zone"@);
    assert("nvidia.com/gpu.count"@[0] != "topology.kubernetes.io/zone"@[0]);
    lemma_lookup_other(m5, "nvidia.com/gpu.count"@, "2"@, "topology.kubernetes.io/zone"@);
    assert("environment"@[0] != "topology.kubernetes.io/zone"@[0]);
    lemma_lookup_other(m6, "environment"@, "development"@, "topology.kubernetes.io/zone"@);
    lemma_lookup_inserted(m4, "nvidia.com/gpu.present"@, "true"@);
    assert("nvidia.com/gpu.count"@[15] != "nvidia.com/gpu.present"@[15]);
    lemma_lookup_other(m5, "nvidia.com/gpu.count"@, "2"@, "nvidia.com/gpu.present"@);
    assert("environment"@[0] != "nvidia.com/gpu.present"@[0]);
    lemma_lookup_other(m6, "environment"@, "development"@, "nvidia.com/gpu.present"@);
    lemma_lookup_inserted(m5, "nvidia.com/gpu.count"@, "2"@);
    assert("environment"@[0] != "nvidia.com/gpu.count"@[0]);
    lemma_lookup_other(m6, "environment"@, "development"@, "nvidia.com/gpu.count"@);
    lemma_lookup_inserted(m6, "environment"@, "development"@);
    assert forall|k: Seq<char>| k != "kubernetes.io/arch"@ && k != "kubernetes.io/os"@ && k != "node.kubernetes.io/instance-type"@ && k != "topology.kubernetes.io/zone"@ && k != "nvidia.com/gpu.present"@ && k != "nvidia.com/gpu.count"@ && k != "environment"@ implies #[trigger] lookup(dummy_clusters_view()[1].nodes[0].labels, k) is None by {
        lemma_lookup_other(m0, "kubernetes.io/arch"@, "amd64"@, k);
        lemma_lookup_other(m1, "kubernetes.io/os"@, "linux"@, k);
        lemma_lookup_other(m2, "node.kubernetes.io/instance-type"@, "gpu.2xlarge"@, k);
        lemma_lookup_other(m3, "topology.kubernetes.io/zone"@, "us-east-1a"@, k);
        lemma_lookup_other(m4, "nvidia.com/gpu.present"@, "true"@, k);
        lemma_lookup_other(m5, "nvidia.com/gpu.count"@, "2"@, k);
        lemma_lookup_other(m6, "environment"@, "development"@, k);
    }
}

proof fn lemma_sample_map_10()
    ensures
        lookup(dummy_clusters_view()[1].nodes[0].pods[0].labels, "app"@) == Some("model-training"@),
        lookup(dummy_clusters_view()[1].nodes[0].pods[0].labels, "env"@) == Some("development"@),
        lookup(dummy_clusters_view()[1].nodes[0].pods[0].labels, "framework"@) == Some("tensorflow"@),
        forall|k: Seq<char>| k != "app"@ && k != "env"@ && k != "framework"@ ==> #[trigger] lookup(dummy_clusters_view()[1].nodes[0].pods[0].labels, k) is None,
{
    let m0 = Seq::<Entry>::empty();
    let m1 = ins(m0, "app", "model-training");
    let m2 = ins(m1, "env", "development");
    let m3 = ins(m2, "framework", "tensorflow");
    assert(dummy_clusters_view()[1].nodes[0].pods[0].labels == m3);
    reveal_strlit("app");
    reveal_strlit("development");
    reveal_strlit("env");
    reveal_strlit("framework");
    reveal_strlit("model-training");
    reveal_strlit("tensorflow");
    lemma_lookup_inserted(m0, "app"@, "model-training"@);
    assert("env"@[0] != "app"@[0]);
    lemma_lookup_other(m1, "env"@, "development"@, "app"@);
    assert("framework"@[0] != "app"@[0]);
    lemma_lookup_other(m2, "framework"@, "tensorflow"@, "app"@);
    lemma_lookup_inserted(m1, "env"@, "development"@);
    assert("framework"@[0] != "env"@[0]);
    lemma_lookup_other(m2, "framework"@, "tensorflow"@, "env"@);
    lemma_lookup_inserted(m2, "framework"@, "tensorflow"@);
    assert forall|k: Seq<char>| k != "app"@ && k != "env"@ && k != "framework"@ implies #[trigger] lookup(dummy_clusters_view()[1].nodes[0].pods[0].labels, k) is None by {
        lemma_lookup_other(m0, "app"@, "model-training"@, k);
        lemma_lookup_other(m1, "env"@, "development"@, k);
        lemma_lookup_other(m2, "framework"@, "tensorflow"@, k);
    }
}

proof fn lemma_sample_map_11()
    ensures
        lookup(dummy_clusters_view()[1].nodes[1].labels, "kubernetes.io/arch"@) == Some("amd64"@),
        lookup(dummy_clusters_view()[1].nodes[1].labels, "kubernetes.io/os"@) == Some("linux"@),
        lookup(dummy_clusters_view()[1].nodes[1].labels, "node.kubernetes.io/instance-type"@) == Some("c5.2xlarge"@),
        lookup(dummy_clusters_view()[1].nodes[1].labels, "topology.kubernetes.io/zone"@) == Some("us-east-1b"@),
        lookup(dummy_clusters_view()[1].nodes[1].labels, "environment"@) == Some("development"@),
        forall|k: Seq<char>| k != "kubernetes.io/arch"@ && k != "kubernetes.io/os"@ && k != "node.kubernetes.io/instance-type"@ && k != "topology.kubernetes.io/zone"@ && k != "environment"@ ==> #[trigger] lookup(dummy_clusters_view()[1].nodes[1].labels, k) is None,
{
    let m0 = Seq::<Entry>::empty();
    let m1 = ins(m0, "kubernetes.io/arch", "amd64");
    let m2 = ins(m1, "kubernetes.io/os", "linux");
    let m3 = ins(m2, "node.kubernetes.io/instance-type", "c5.2xlarge");
    let m4 = ins(m3, "topology.kubernetes.io/zone", "us-east-1b");
    let m5 = ins(m4, "environment", "development");
    assert(dummy_clusters_view()[1].nodes[1].labels == m5);
    reveal_strlit("amd64");
    reveal_strlit("c5.2xlarge");
    reveal_strlit("development");
    reveal_strlit("environment");
    reveal_strlit("kubernetes.io/arch");
    reveal_strlit("kubernetes.io/os");
    reveal_strlit("linux");
    reveal_strlit("node.kubernetes.io/instance-type");
    reveal_strlit("topology.kubernetes.io/zone");
    reveal_strlit("us-east-1b");
    lemma_lookup_inserted(m0, "kubernetes.io/arch"@, "amd64"@);
    assert("kubernetes.io/os"@[14] != "kubernetes.io/arch"@[14]);
    lemma_lookup_other(m1, "kubernetes.io/os"@, "linux"@, "kubernetes.io/arch"@);
    assert("node.kubernetes.io/instance-type"@[0] != "kubernetes.io/arch"@[0]);
    lemma_lookup_other(m2, "node.kubernetes.io/instance-type"@, "c5.2xlarge"@, "kubernetes.io/arch"@);
    assert("topology.kubernetes.io/zone"@[0] != "kubernetes.io/arch"@[0]);
    lemma_lookup_other(m3, "topology.kubernetes.io/zone"@, "us-east-1b"@, "kubernetes.io/arch"@);
    assert("environment"@[0] != "kubernetes.io/arch"@[0]);
    lemma_lookup_other(m4, "environment"@, "development"@, "kubernetes.io/arch"@);
    lemma_lookup_inserted(m1, "kubernetes.io/os"@, "linux"@);
    assert("node.kubernetes.io/instance-type"@[0] != "kubernetes.io/os"@[0]);
    lemma_lookup_other(m2, "node.kubernetes.io/instance-type"@, "c5.2xlarge"@, "kubernetes.io/os"@);
    assert("topology.kubernetes.io/zone"@[0] != "kubernetes.io/os"@[0]);
    lemma_lookup_other(m3, "topology.kubernetes.io/zone"@, "us-east-1b"@, "kubernetes.io/os"@);
    assert("environment"@[0] != "kubernetes.io/os"@[0]);
    lemma_lookup_other(m4, "environment"@, "development"@, "kubernetes.io/os"@);
    lemma_lookup_inserted(m2, "node.kubernetes.io/instance-type"@, "c5.2xlarge"@);
    assert("topology.kubernetes.io/zone"@[0] != "node.kubernetes.io/instance-type"@[0]);
    lemma_lookup_other(m3, "topology.kubernetes.io/zone"@, "us-east-1b"@, "node.kubernetes.io/instance-type"@);
    assert("environment"@[0] != "node.kubernetes.io/instance-type"@[0]);
    lemma_lookup_other(m4, "environment"@, "development"@, "node.kubernetes.io/instance-type"@);
    lemma_lookup_inserted(m3, "topology.kubernetes.io/zone"@, "us-east-1b"@);
    assert("environment"@[0] != "topology.kubernetes.io/zone"@[0]);
    lemma_lookup_other(m4, "environment"@, "development"@, "topology.kubernetes.io/zone"@);
    lemma_lookup_inserted(m4, "environment"@, "development"@);
    assert forall|k: Seq<char>| k != "kubernetes.io/arch"@ && k != "kubernetes.io/os"@ && k != "node.kubernetes.io/instance-type"@ && k != "topology.kubernetes.io/zone"@ && k != "environment"@ implies #[trigger] lookup(dummy_clusters_view()[1].nodes[1].labels, k) is None by {
        lemma_lookup_other(m0, "kubernetes.io/arch"@, "amd64"@, k);
        lemma_lookup_other(m1, "kubernetes.io/os"@, "linux"@, k);
        lemma_lookup_other(m2, "node.kubernetes.io/instance-type"@, "c5.2xlarge"@, k);
        lemma_lookup_other(m3, "topology.kubernetes.io/zone"@, "us-east-1b"@, k);
        lemma_lookup_other(m4, "environment"@, "development"@, k);
    }
}

proof fn lemma_sample_map_12()
    ensures
        lookup(dummy_clusters_view()[1].nodes[1].pods[0].labels, "app"@) == Some("api-server"@),
        lookup(dummy_clusters_view()[1].nodes[1].pods[0].labels, "env"@) == Some("development"@),
        lookup(dummy_clusters_view()[1].nodes[1].pods[0].labels, "version"@) == Some("v0.8.1"@),
        forall|k: Seq<char>| k != "app"@ && k != "env"@ && k != "version"@ ==> #[trigger] lookup(dummy_clusters_view()[1].nodes[1].pods[0].labels, k) is None,
{
    let m0 = Seq::<Entry>::empty();
    let m1 = ins(m0, "app", "api-server");
    let m2 = ins(m1, "env", "development");
    let m3 = ins(m2, "version", "v0.8.1");
    assert(dummy_clusters_view()[1].nodes[1].pods[0].labels == m3);
    reveal_strlit("api-server");
    reveal_strlit("app");
    reveal_strlit("development");
    reveal_strlit("env");
    reveal_strlit("v0.8.1");
    reveal_strlit("version");
    lemma_lookup_inserted(m0, "app"@, "api-server"@);
    assert("env"@[0] != "app"@[0]);
    lemma_lookup_other(m1, "env"@, "development"@, "app"@);
    assert("version"@[0] != "app"@[0]);
    lemma_lookup_other(m2, "version"@, "v0.8.1"@, "app"@);
    lemma_lookup_inserted(m1, "env"@, "development"@);
    assert("version"@[0] != "env"@[0]);
    lemma_lookup_other(m2, "version"@, "v0.8.1"@, "env"@);
    lemma_lookup_inserted(m2, "version"@, "v0.8.1"@);
    assert forall|k: Seq<char>| k != "app"@ && k != "env"@ && k != "version"@ implies #[trigger] lookup(dummy_clusters_view()[1].nodes[1].pods[0].labels, k) is None by {
        lemma_lookup_other(m0, "app"@, "api-server"@, k);
        lemma_lookup_other(m1, "env"@, "development"@, k);
        lemma_lookup_other(m2, "version"@, "v0.8.1"@, k);
    }
}

/// The labels of every sample node and pod, and the MIG devices of every
/// sample node, are those of the sample data: each key has its sample
/// value, and no other key is present. Only gpu-node-01 (profiles 1g.10gb,
/// 2g.20gb, 3g.40gb) and gpu-node-02 (1g.5gb, 2g.10gb) have MIG devices.
pub proof fn lemma_sample_labels_and_mig()
    ensures
        lookup(dummy_clusters_view()[0].nodes[0].labels, "kubernetes.io/arch"@) == Some("amd64"@),
        lookup(dummy_clusters_view()[0].nodes[0].labels, "kubernetes.io/os"@) == Some("linux"@),
        lookup(dummy_clusters_view()[0].nodes[0].labels, "node.kubernetes.io/instance-type"@) == Some("gpu.8xlarge"@),
        lookup(dummy_clusters_view()[0].nodes[0].labels, "topology.kubernetes.io/zone"@) == Some("us-west-2a"@),
        lookup(dummy_clusters_view()[0].nodes[0].labels, "nvidia.com/gpu.present"@) == Some("true"@),
        lookup(dummy_clusters_view()[0].nodes[0].labels, "nvidia.com/gpu.count"@) == Some("8"@),
        forall|k: Seq<char>| k != "kubernetes.io/arch"@ && k != "kubernetes.io/os"@ && k != "node.kubernetes.io/instance-type"@ && k != "topology.kubernetes.io/zone"@ && k != "nvidia.com/gpu.present"@ && k != "nvidia.com/gpu.count"@ ==> #[trigger] lookup(dummy_clusters_view()[0].nodes[0].labels, k) is None,
        lookup(dummy_clusters_view()[0].nodes[0].mig_devices, "1g.10gb"@) == Some("4"@),
        lookup(dummy_clusters_view()[0].nodes[0].mig_devices, "2g.20gb"@) == Some("2"@),
        lookup(dummy_clusters_view()[0].nodes[0].mig_devices, "3g.40gb"@) == Some("1"@),
        forall|k: Seq<char>| k != "1g.10gb"@ && k != "2g.20gb"@ && k != "3g.40gb"@ ==> #[trigger] lookup(dummy_clusters_view()[0].nodes[0].mig_devices, k) is None,
        lookup(dummy_clusters_view()[0].nodes[0].pods[0].labels, "app"@) == Some("pytorch-training"@),
        lookup(dummy_clusters_view()[0].nodes[0].pods[0].labels, "version"@) == Some("v2.1.0"@),
        lookup(dummy_clusters_view()[0].nodes[0].pods[0].labels, "tier"@) == Some("compute"@),
        forall|k: Seq<char>| k != "app"@ && k != "version"@ && k != "tier"@ ==> #[trigger] lookup(dummy_clusters_view()[0].nodes[0].pods[0].labels, k) is None,
        lookup(dummy_clusters_view()[0].nodes[0].pods[1].labels, "app"@) == Some("triton-inference"@),
        lookup(dummy_clusters_view()[0].nodes[0].pods[1].labels, "version"@) == Some("v23.04"@),
        lookup(dummy_clusters_view()[0].nodes[0].pods[1].labels, "tier"@) == Some("serving"@),
        forall|k: Seq<char>| k != "app"@ && k != "version"@ && k != "tier"@ ==> #[trigger] lookup(dummy_clusters_view()[0].nodes[0].pods[1].labels, k) is None,
        lookup(dummy_clusters_view()[0].nodes[1].labels, "kubernetes.io/arch"@) == Some("amd64"@),
        lookup(dummy_clusters_view()[0].nodes[1].labels, "kubernetes.io/os"@) == Some("linux"@),
        lookup(dummy_clusters_view()[0].nodes[1].labels, "node.kubernetes.io/instance-type"@) == Some("gpu.4xlarge"@),
        lookup(dummy_clusters_view()[0].nodes[1].labels, "topology.kubernetes.io/zone"@) == Some("us-west-2b"@),
        lookup(dummy_clusters_view()[0].nodes[1].labels, "nvidia.com/gpu.present"@) == Some("true"@),
        lookup(dummy_clusters_view()[0].nodes[1].labels, "nvidia.com/gpu.count"@) == Some("4"@),
        forall|k: Seq<char>| k != "kubernetes.io/arch"@ && k != "kubernetes.io/os"@ && k != "node.kubernetes.io/instance-type"@ && k != "topology.kubernetes.io/zone"@ && k != "nvidia.com/gpu.present"@ && k != "nvidia.com/gpu.count"@ ==> #[trigger] lookup(dummy_clusters_view()[0].nodes[1].labels, k) is None,
        lookup(dummy_clusters_view()[0].nodes[1].mig_devices, "1g.5gb"@) == Some("2"@),
        lookup(dummy_clusters_view()[0].nodes[1].mig_devices, "2g.10gb"@) == Some("1"@),
        forall|k: Seq<char>| k != "1g.5gb"@ && k != "2g.10gb"@ ==> #[trigger] lookup(dummy_clusters_view()[0].nodes[1].mig_devices, k) is None,
        lookup(dummy_clusters_view()[0].nodes[1].pods[0].labels, "app"@) == Some("jupyter"@),
        lookup(dummy_clusters_view()[0].nodes[1].pods[0].labels, "user"@) == Some("data-scientist-01"@),
        lookup(dummy_clusters_view()[0].nodes[1].pods[0].labels, "tier"@) == Some("development"@),
        forall|k: Seq<char>| k != "app"@ && k != "user"@ && k != "tier"@ ==> #[trigger] lookup(dummy_clusters_view()[0].nodes[1].pods[0].labels, k) is None,
        lookup(dummy_clusters_view()[0].nodes[2].labels, "kubernetes.io/arch"@) == Some("amd64"@),
        lookup(dummy_clusters_view()[0].nodes[2].labels, "kubernetes.io/os"@) == Some("linux"@),
        lookup(dummy_clusters_view()[0].nodes[2].labels, "node.kubernetes.io/instance-type"@) == Some("c5.4xlarge"@),
        lookup(dummy_clusters_view()[0].nodes[2].labels, "topology.kubernetes.io/zone"@) == Some("us-west-2c"@),
        forall|k: Seq<char>| k != "kubernetes.io/arch"@ && k != "kubernetes.io/os"@ && k != "node.kubernetes.io/instance-type"@ && k != "topology.kubernetes.io/zone"@ ==> #[trigger] lookup(dummy_clusters_view()[0].nodes[2].labels, k) is None,
        lookup(dummy_clusters_view()[0].nodes[2].pods[0].labels, "app"@) == Some("web-frontend"@),
        lookup(dummy_clusters_view()[0].nodes[2].pods[0].labels, "version"@) == Some("v1.2.3"@),
        lookup(dummy_clusters_view()[0].nodes[2].pods[0].labels, "tier"@) == Some("frontend"@),
        forall|k: Seq<char>| k != "app"@ && k != "version"@ && k != "tier"@ ==> #[trigger] lookup(dummy_clusters_view()[0].nodes[2].pods[0].labels, k) is None,
        lookup(dummy_clusters_view()[1].nodes[0].labels, "kubernetes.io/arch"@) == Some("amd64"@),
        lookup(dummy_clusters_view()[1].nodes[0].labels, "kubernetes.io/os"@) == Some("linux"@),
        lookup(dummy_clusters_view()[1].nodes[0].labels, "node.kubernetes.io/instance-type"@) == Some("gpu.2xlarge"@),
        lookup(dummy_clusters_view()[1].nodes[0].labels, "topology.kubernetes.io/zone"@) == Some("us-east-1a"@),
        lookup(dummy_clusters_view()[1].nodes[0].labels, "nvidia.com/gpu.present"@) == Some("true"@),
        lookup(dummy_clusters_view()[1].nodes[0].labels, "nvidia.com/gpu.count"@) == Some("2"@),
        lookup(dummy_clusters_view()[1].nodes[0].labels, "environment"@) == Some("development"@),
        forall|k: Seq<char>| k != "kubernetes.io/arch"@ && k != "kubernetes.io/os"@ && k != "node.kubernetes.io/instance-type"@ && k != "topology.kubernetes.io/zone"@ && k != "nvidia.com/gpu.present"@ && k != "nvidia.com/gpu.count"@ && k != "environment"@ ==> #[trigger] lookup(dummy_clusters_view()[1].nodes[0].labels, k) is None,
        lookup(dummy_clusters_view()[1].nodes[0].pods[0].labels, "app"@) == Some("model-training"@),
        lookup(dummy_clusters_view()[1].nodes[0].pods[0].labels, "env"@) == Some("development"@),
        lookup(dummy_clusters_view()[1].nodes[0].pods[0].labels, "framework"@) == Some("tensorflow"@),
        forall|k: Seq<char>| k != "app"@ && k != "env"@ && k != "framework"@ ==> #[trigger] lookup(dummy_clusters_view()[1].nodes[0].pods[0].labels, k) is None,
        lookup(dummy_clusters_view()[1].nodes[1].labels, "kubernetes.io/arch"@) == Some("amd64"@),
        lookup(dummy_clusters_view()[1].nodes[1].labels, "kubernetes.io/os"@) == Some("linux"@),
        lookup(dummy_clusters_view()[1].nodes[1].labels, "node.kubernetes.io/instance-type"@) == Some("c5.2xlarge"@),
        lookup(dummy_clusters_view()[1].nodes[1].labels, "topology.kubernetes.io/zone"@) == Some("us-east-1b"@),
        lookup(dummy_clusters_view()[1].nodes[1].labels, "environment"@) == Some("development"@),
        forall|k: Seq<char>| k != "kubernetes.io/arch"@ && k != "kubernetes.io/os"@ && k != "node.kubernetes.io/instance-type"@ && k != "topology.kubernetes.io/zone"@ && k != "environment"@ ==> #[trigger] lookup(dummy_clusters_view()[1].nodes[1].labels, k) is None,
        lookup(dummy_clusters_view()[1].nodes[1].pods[0].labels, "app"@) == Some("api-server"@),
        lookup(dummy_clusters_view()[1].nodes[1].pods[0].labels, "env"@) == Some("development"@),
        lookup(dummy_clusters_view()[1].nodes[1].pods[0].labels, "version"@) == Some("v0.8.1"@),
        forall|k: Seq<char>| k != "app"@ && k != "env"@ && k != "version"@ ==> #[trigger] lookup(dummy_clusters_view()[1].nodes[1].pods[0].labels, k) is None,
        dummy_clusters_view()[0].nodes[2].mig_devices.len() == 0,
        dummy_clusters_view()[1].nodes[0].mig_devices.len() == 0,
        dummy_clusters_view()[1].nodes[1].mig_devices.len() == 0,
{
    lemma_sample_map_0();
    lemma_sample_map_1();
    lemma_sample_map_2();
    lemma_sample_map_3();
    lemma_sample_map_4();
    lemma_sample_map_5();
    lemma_sample_map_6();
    lemma_sample_map_7();
    lemma_sample_map_8();
    lemma_sample_map_9();
    lemma_sample_map_10();
    lemma_sample_map_11();
    lemma_sample_map_12();
}

} // verus!
