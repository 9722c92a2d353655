use flowchart_mcp::stencils::{catalog, drawio_base, list_matches, resolve, Library};

#[test]
fn stencils_resolves_aws_with_resicon() {
    let r = resolve("aws.ec2").unwrap();
    assert!(r.shape.contains("resourceIcon"));
    assert!(r.shape.contains("resIcon=mxgraph.aws4.ec2"));
    assert_eq!(r.library, Library::Aws);
    assert!(drawio_base(&r).contains("aws4"));
}

#[test]
fn stencils_resolves_kubernetes_key() {
    let r = resolve("k8s.pod").unwrap();
    assert_eq!(r.shape, "shape=mxgraph.kubernetes.pod");
    assert_eq!(r.library, Library::Kubernetes);
}

#[test]
fn stencils_raw_passthrough() {
    let r = resolve("mxgraph.azure.load_balancer").unwrap();
    assert_eq!(r.shape, "shape=mxgraph.azure.load_balancer");
    assert_eq!(r.library, Library::Azure);
    assert_eq!(resolve("umlActor").unwrap().shape, "umlActor");
}

#[test]
fn mod_resolves_aws_with_resicon() {
    let r = resolve("aws.ec2").unwrap();
    assert!(r.shape.contains("resourceIcon"));
    assert!(r.shape.contains("resIcon=mxgraph.aws4.ec2"));
    assert_eq!(r.library, Library::Aws);
    assert!(drawio_base(&r).contains("aws4"));
}

#[test]
fn mod_resolves_kubernetes_key() {
    let r = resolve("k8s.pod").unwrap();
    assert_eq!(r.shape, "shape=mxgraph.kubernetes.pod");
    assert_eq!(r.library, Library::Kubernetes);
}

#[test]
fn mod_raw_passthrough() {
    let r = resolve("mxgraph.azure.load_balancer").unwrap();
    assert_eq!(r.shape, "shape=mxgraph.azure.load_balancer");
    assert_eq!(r.library, Library::Azure);
    assert_eq!(resolve("umlActor").unwrap().shape, "umlActor");
}

#[test]
fn stencils_list_filters() {
    let v = list_matches(Some("aws"), None);
    assert!(v.len() >= 5);
    let v = list_matches(None, Some("lambda"));
    assert_eq!(v.len(), 1);
}

#[test]
fn mod_list_filters() {
    let v = list_matches(Some("aws"), None);
    assert!(v.len() >= 20);
    let v = list_matches(None, Some("lambda"));
    assert_eq!(v.len(), 1);
}

#[test]
fn catalog_is_substantial_and_unique() {
    let all: Vec<&str> = catalog().iter().map(|e| e.key).collect();
    assert!(all.len() >= 150, "catalog has {} entries", all.len());
    let mut sorted = all.clone();
    sorted.sort_unstable();
    sorted.dedup();
    assert_eq!(sorted.len(), all.len(), "duplicate stencil keys present");
}

#[test]
fn resolve_edge_cases() {
    assert!(resolve("   ").is_none());
    // Case-insensitive catalog hit, surrounding blanks trimmed.
    assert_eq!(resolve("  AWS.S3 ").unwrap().shape, "shape=mxgraph.aws4.resourceIcon;resIcon=mxgraph.aws4.s3");
    // `shape=` prefix dropped from raw tokens.
    let r = resolve("shape=mxgraph.bpmn.task").unwrap();
    assert_eq!(r.shape, "shape=mxgraph.bpmn.task");
    assert_eq!(r.library, Library::Bpmn);
    assert_eq!(Library::from_path("cisco19.router"), Library::Network);
    assert_eq!(Library::from_path("whatever"), Library::Other);
    assert_eq!(Library::Gcp.label(), "gcp");
    let r = resolve("k8s.pod").unwrap();
    assert_eq!(drawio_base(&r), "shape=mxgraph.kubernetes.pod;html=1;align=center;verticalLabelPosition=bottom;verticalAlign=top;");
}
