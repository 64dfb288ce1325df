use k8s_node_server::dummy_data::generate_dummy_clusters;
use k8s_node_server::string_map::StringMap;

fn keys(m: &StringMap) -> Vec<String> {
    (0..m.len()).map(|i| m.key_at(i).clone()).collect()
}

#[test]
fn sample_clusters_have_expected_shape() {
    let clusters = generate_dummy_clusters();
    assert_eq!(clusters.len(), 2);
    assert_eq!(clusters[0].name, "production-cluster-01");
    assert_eq!(clusters[0].node_count, 3);
    assert_eq!(clusters[0].pod_count, 25);
    assert_eq!(clusters[0].nodes.len(), 3);
    assert_eq!(clusters[1].name, "development-cluster-02");
    assert_eq!(clusters[1].node_count, 2);
    assert_eq!(clusters[1].pod_count, 12);
    assert_eq!(clusters[1].nodes.len(), 2);
}

#[test]
fn sample_counts_add_up() {
    for c in generate_dummy_clusters() {
        assert_eq!(c.node_count, c.nodes.len());
        assert_eq!(c.pod_count, c.nodes.iter().map(|n| n.pod_count).sum::<usize>());
    }
}

#[test]
fn sample_gpu_node() {
    let clusters = generate_dummy_clusters();
    let n = &clusters[0].nodes[0];
    assert_eq!(n.name, "gpu-node-01");
    assert_eq!(n.gpu_model, "NVIDIA A100-SXM4-80GB");
    assert_eq!(n.gpu_count, "8");
    assert_eq!(n.pod_count, 12);
    assert_eq!(n.container_count, 28);
    assert_eq!(n.mig_devices.get("2g.20gb").map(|s| s.as_str()), Some("2"));
    assert_eq!(
        keys(&n.labels),
        vec![
            "kubernetes.io/arch",
            "kubernetes.io/os",
            "node.kubernetes.io/instance-type",
            "nvidia.com/gpu.count",
            "nvidia.com/gpu.present",
            "topology.kubernetes.io/zone",
        ]
    );
    assert_eq!(n.pods.len(), 2);
    assert_eq!(n.pods[0].name, "ml-training-job-7f8g9h");
    assert_eq!(n.pods[0].containers[0].image, "pytorch/pytorch:2.1.0-cuda11.8-cudnn8-runtime");
    assert_eq!(keys(&n.pods[0].labels), vec!["app", "tier", "version"]);
}

#[test]
fn sample_worker_nodes_have_no_gpu() {
    let clusters = generate_dummy_clusters();
    let w = &clusters[0].nodes[2];
    assert_eq!(w.name, "worker-node-01");
    assert_eq!(w.gpu_model, "N/A");
    assert_eq!(w.gpu_count, "0");
    assert!(w.mig_devices.is_empty());
    let d = &clusters[1].nodes[1];
    assert_eq!(d.name, "dev-worker-node-01");
    assert_eq!(d.capacity_memory, "32Gi");
    assert_eq!(d.container_count, 16);
    assert_eq!(d.pods[0].containers[0].image, "python:3.11-slim");
}
