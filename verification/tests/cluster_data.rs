use k8s_node_server::cluster_data::{
    build_cluster_info, mig_devices, node_info, pod_info, ContainerData, NodeData, NodeSystemInfo, PodData,
};
use k8s_node_server::string_map::StringMap;

fn map(pairs: &[(&str, &str)]) -> StringMap {
    let mut m = StringMap::new();
    for (k, v) in pairs {
        m.insert(k.to_string(), v.to_string());
    }
    m
}

fn entries(m: &StringMap) -> Vec<(String, String)> {
    (0..m.len()).map(|i| (m.key_at(i).clone(), m.value_at(i).clone())).collect()
}

fn pod(name: &str, ns: Option<&str>, node: Option<&str>, containers: &[(&str, Option<&str>)]) -> PodData {
    PodData {
        name: name.to_string(),
        namespace: ns.map(|s| s.to_string()),
        node_name: node.map(|s| s.to_string()),
        labels: map(&[("app", name)]),
        containers: containers
            .iter()
            .map(|(n, i)| ContainerData { name: n.to_string(), image: i.map(|s| s.to_string()) })
            .collect(),
    }
}

fn gpu_node() -> NodeData {
    NodeData {
        name: "gpu-1".to_string(),
        labels: map(&[("nvidia.com/gpu.product", "NVIDIA A100"), ("kubernetes.io/os", "linux")]),
        system_info: Some(NodeSystemInfo {
            os_image: "Ubuntu".to_string(),
            kubelet_version: "v1.29.0".to_string(),
            architecture: "amd64".to_string(),
        }),
        capacity: Some(map(&[
            ("cpu", "32"),
            ("memory", "128Gi"),
            ("nvidia.com/gpu", "8"),
            ("nvidia.com/mig-1g.10gb", "4"),
            ("nvidia.com/mig-2g.20gb", "2"),
        ])),
    }
}

fn bare_node(name: &str) -> NodeData {
    NodeData { name: name.to_string(), labels: StringMap::new(), system_info: None, capacity: None }
}

#[test]
fn pods_are_grouped_onto_their_nodes_in_listing_order() {
    let nodes = vec![gpu_node(), bare_node("cpu-1")];
    let pods = vec![
        pod("a", Some("ns1"), Some("gpu-1"), &[("c1", Some("img1")), ("c2", None)]),
        pod("b", None, Some("cpu-1"), &[("c3", Some("img3"))]),
        pod("c", Some("ns2"), Some("gpu-1"), &[("c4", Some("img4"))]),
        pod("pending", Some("ns3"), None, &[("c5", Some("img5"))]),
        pod("elsewhere", Some("ns4"), Some("gone"), &[("c6", Some("img6"))]),
    ];
    let cluster = build_cluster_info(&"prod".to_string(), &nodes, &pods);
    assert_eq!(cluster.name, "prod");
    assert_eq!(cluster.node_count, 2);
    // every pod with a node counts, even one on a node not listed
    assert_eq!(cluster.pod_count, 4);
    let gpu = &cluster.nodes[0];
    assert_eq!(gpu.name, "gpu-1");
    assert_eq!(gpu.cluster_name, "prod");
    assert_eq!(gpu.pod_count, 2);
    assert_eq!(gpu.container_count, 3);
    let names: Vec<&str> = gpu.pods.iter().map(|p| p.name.as_str()).collect();
    assert_eq!(names, vec!["a", "c"]);
    assert_eq!(gpu.pods[0].namespace, "ns1");
    assert_eq!(gpu.pods[0].node_name, "gpu-1");
    assert_eq!(gpu.pods[0].cluster_name, "prod");
    assert_eq!(gpu.pods[0].containers[1].name, "c2");
    assert_eq!(gpu.pods[0].containers[1].image, "");
    let cpu = &cluster.nodes[1];
    assert_eq!(cpu.pod_count, 1);
    assert_eq!(cpu.container_count, 1);
    assert_eq!(cpu.pods[0].namespace, "");
}

#[test]
fn node_properties_come_from_status_and_labels() {
    let pods: Vec<PodData> = vec![];
    let n = node_info(&"prod".to_string(), &gpu_node(), &pods);
    assert_eq!(n.os_image, "Ubuntu");
    assert_eq!(n.kubelet_version, "v1.29.0");
    assert_eq!(n.architecture, "amd64");
    assert_eq!(n.capacity_cpu, "32");
    assert_eq!(n.capacity_memory, "128Gi");
    assert_eq!(n.gpu_model, "NVIDIA A100");
    assert_eq!(n.gpu_count, "8");
    assert_eq!(n.pod_count, 0);
    assert_eq!(n.container_count, 0);
    assert_eq!(
        entries(&n.mig_devices),
        vec![("1g.10gb".to_string(), "4".to_string()), ("2g.20gb".to_string(), "2".to_string())]
    );
    assert_eq!(entries(&n.labels), entries(&gpu_node().labels));
}

#[test]
fn missing_node_status_gives_defaults() {
    let pods: Vec<PodData> = vec![];
    let n = node_info(&"dev".to_string(), &bare_node("x"), &pods);
    assert_eq!(n.os_image, "N/A");
    assert_eq!(n.kubelet_version, "N/A");
    assert_eq!(n.architecture, "N/A");
    assert_eq!(n.capacity_cpu, "N/A");
    assert_eq!(n.capacity_memory, "N/A");
    assert_eq!(n.gpu_model, "N/A");
    assert_eq!(n.gpu_count, "0");
    assert!(n.mig_devices.is_empty());
}

#[test]
fn capacity_without_gpu_keys() {
    let node = NodeData {
        name: "n".to_string(),
        labels: StringMap::new(),
        system_info: None,
        capacity: Some(map(&[("cpu", "4")])),
    };
    let pods: Vec<PodData> = vec![];
    let n = node_info(&"c".to_string(), &node, &pods);
    assert_eq!(n.capacity_cpu, "4");
    assert_eq!(n.capacity_memory, "N/A");
    assert_eq!(n.gpu_count, "0");
}

#[test]
fn mig_devices_strip_the_prefix() {
    let cap = map(&[("cpu", "8"), ("nvidia.com/mig-3g.40gb", "1"), ("nvidia.com/mig-", "9"), ("nvidia.com/gpu", "1")]);
    let m = mig_devices(&cap);
    assert_eq!(entries(&m), vec![("".to_string(), "9".to_string()), ("3g.40gb".to_string(), "1".to_string())]);
}

#[test]
fn pod_info_fills_defaults() {
    let p = pod("p", None, Some("n"), &[("c", None)]);
    let info = pod_info(&"cl".to_string(), &"n".to_string(), &p);
    assert_eq!(info.name, "p");
    assert_eq!(info.namespace, "");
    assert_eq!(info.node_name, "n");
    assert_eq!(info.cluster_name, "cl");
    assert_eq!(info.containers[0].image, "");
    assert_eq!(info.labels.get("app").map(|s| s.as_str()), Some("p"));
}

#[test]
fn empty_listings_give_an_empty_cluster() {
    let nodes: Vec<NodeData> = vec![];
    let pods: Vec<PodData> = vec![];
    let c = build_cluster_info(&"e".to_string(), &nodes, &pods);
    assert_eq!(c.node_count, 0);
    assert_eq!(c.pod_count, 0);
    assert!(c.nodes.is_empty());
}

#[test]
fn node_pod_counts_add_up_when_every_pod_is_on_a_listed_node() {
    let nodes = vec![bare_node("n1"), bare_node("n2"), bare_node("n3")];
    let pods = vec![
        pod("a", None, Some("n2"), &[]),
        pod("b", None, Some("n1"), &[("c", None)]),
        pod("c", None, None, &[]),
        pod("d", None, Some("n2"), &[]),
    ];
    let c = build_cluster_info(&"x".to_string(), &nodes, &pods);
    assert_eq!(c.pod_count, 3);
    assert_eq!(c.nodes.iter().map(|n| n.pod_count).sum::<usize>(), 3);
    for n in &c.nodes {
        assert_eq!(n.pod_count, n.pods.len());
        assert!(n.pods.iter().all(|p| p.node_name == n.name && p.cluster_name == "x"));
    }
}

#[test]
fn mig_profile_lookup_matches_capacity() {
    let cap = map(&[("cpu", "8"), ("nvidia.com/mig-3g.40gb", "1"), ("nvidia.com/mig-1g.5gb", "7"), ("nvidia.com/gpu", "1")]);
    let m = mig_devices(&cap);
    for profile in ["3g.40gb", "1g.5gb", "gpu", "cpu", ""] {
        let full = format!("nvidia.com/mig-{}", profile);
        assert_eq!(m.get(profile), cap.get(&full));
    }
    assert_eq!(m.get("1g.5gb"), Some(&"7".to_string()));
}
