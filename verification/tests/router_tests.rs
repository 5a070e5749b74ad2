use my_cache::router::{extract_single_pair, RouteTarget};
use my_cache::{AppError, Cluster, RpcClientError, Settings, StatusKind};

fn settings_for(nodes: &[&str], my_addr: &str) -> Settings {
    Settings::from_values(
        None,
        None,
        my_addr.to_string(),
        nodes.iter().map(|n| n.to_string()).collect(),
        None,
        None,
        None,
    )
    .unwrap()
}

const NODES: [&str; 3] = ["http://node-a:50051", "http://node-b:50051", "http://node-c:50051"];

#[test]
fn test_route_local_when_owner() {
    let probe = Cluster::new(&settings_for(&NODES, NODES[0]));
    let key = "some-key";
    let owner = probe.get_node_for_key(key);
    let at_owner = Cluster::new(&settings_for(&NODES, &owner));
    assert!(matches!(at_owner.route_for_key(key), RouteTarget::Local));
}

#[test]
fn test_route_remote_when_not_owner() {
    // A node whose own address is outside the membership never owns a key.
    let routing_only = Cluster::new(&settings_for(&NODES, "http://outsider:50051"));
    let key = "some-key";
    match routing_only.route_for_key(key) {
        RouteTarget::Remote(addr) => {
            assert_eq!(addr, routing_only.get_node_for_key(key));
        }
        RouteTarget::Local => panic!("an outsider address must never be the owner"),
    }
}

#[test]
fn test_extract_single_pair() {
    let one = vec![("k".to_string(), "1".to_string())];
    let (key, value) = extract_single_pair(one).unwrap();
    assert_eq!(key, "k");
    assert_eq!(value, "1");
}

#[test]
fn test_extract_single_pair_rejects_other_sizes() {
    let none: Vec<(String, String)> = Vec::new();
    match extract_single_pair(none) {
        Err(AppError::InvalidInput(m)) => {
            assert_eq!(m, "JSON body must contain exactly one key-value pair")
        }
        _ => panic!("an empty body must be rejected"),
    }
    let two = vec![
        ("a".to_string(), "1".to_string()),
        ("b".to_string(), "2".to_string()),
    ];
    assert!(matches!(extract_single_pair(two), Err(AppError::InvalidInput(_))));
}

#[test]
fn test_app_error_http_mapping() {
    assert_eq!(AppError::KeyNotFound.http_status(), 404);
    assert!(AppError::KeyNotFound.public_message().is_none());

    let invalid = AppError::InvalidInput("bad body".to_string());
    assert_eq!(invalid.http_status(), 400);
    assert_eq!(invalid.public_message().unwrap(), "bad body");

    let rpc = AppError::RpcError(RpcClientError::Status(
        StatusKind::Unavailable,
        "connection refused".to_string(),
    ));
    assert_eq!(rpc.http_status(), 500);
    assert_eq!(rpc.public_message().unwrap(), "Internal cluster communication failed");

    let internal = AppError::InternalError("invariant broken".to_string());
    assert_eq!(internal.http_status(), 500);
    assert_eq!(internal.public_message().unwrap(), "An internal error occurred");
}
