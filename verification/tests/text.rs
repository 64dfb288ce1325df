use k8s_node_server::text::{decimal_string, starts_with, strip_prefix};

#[test]
fn decimal_string_matches_to_string() {
    for n in [0usize, 7, 9, 10, 11, 99, 100, 12345, usize::MAX] {
        assert_eq!(decimal_string(n), n.to_string());
    }
}

#[test]
fn prefix_checks() {
    assert!(starts_with("nvidia.com/mig-1g.10gb", "nvidia.com/mig-"));
    assert!(!starts_with("nvidia.com/gpu", "nvidia.com/mig-"));
    assert!(!starts_with("nv", "nvidia.com/mig-"));
    assert!(starts_with("abc", ""));
    assert_eq!(strip_prefix("nvidia.com/mig-1g.10gb", "nvidia.com/mig-"), "1g.10gb");
    assert_eq!(strip_prefix("가나다", "가"), "나다");
}
