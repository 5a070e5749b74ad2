use my_cache::{Cluster, Settings};

fn settings_for(nodes: &[&str], my_addr: &str) -> Settings {
    Settings::from_values(
        None,
        None,
        my_addr.to_string(),
        nodes.iter().map(|n| n.to_string()).collect(),
        None,
        None,
        None,
    )
    .unwrap()
}

const NODES: [&str; 3] = ["http://node-a:50051", "http://node-b:50051", "http://node-c:50051"];

#[test]
fn test_node_for_key_is_deterministic() {
    // Two independently constructed rings over the same membership agree on
    // every key, and repeated lookups on one ring agree with themselves.
    let a = Cluster::new(&settings_for(&NODES, NODES[0]));
    let b = Cluster::new(&settings_for(&NODES, NODES[1]));
    for key in ["alpha", "beta", "gamma", "delta", "", "a key with spaces"] {
        let owner = a.get_node_for_key(key);
        assert_eq!(owner, a.get_node_for_key(key));
        assert_eq!(owner, b.get_node_for_key(key));
    }
}

#[test]
fn test_node_for_key_is_a_member() {
    let cluster = Cluster::new(&settings_for(&NODES, NODES[0]));
    for i in 0..100 {
        let key = format!("key-{}", i);
        let owner = cluster.get_node_for_key(&key);
        assert!(NODES.contains(&owner.as_str()), "owner {} not in membership", owner);
    }
}

#[test]
fn test_keys_spread_over_nodes() {
    // Not a uniformity proof, just a sanity check: with 100 keys and 3
    // nodes, no node owns everything.
    let cluster = Cluster::new(&settings_for(&NODES, NODES[0]));
    let mut owners: Vec<String> = Vec::new();
    for i in 0..100 {
        let owner = cluster.get_node_for_key(&format!("key-{}", i));
        if !owners.contains(&owner) {
            owners.push(owner);
        }
    }
    assert!(owners.len() >= 2);
}

#[test]
fn test_is_key_local_matches_owner() {
    let cluster = Cluster::new(&settings_for(&NODES, NODES[1]));
    for i in 0..20 {
        let key = format!("key-{}", i);
        let owner = cluster.get_node_for_key(&key);
        assert_eq!(cluster.is_key_local(&key), owner == NODES[1]);
    }
}

#[test]
fn test_single_node_owns_everything() {
    let one = ["http://solo:50051"];
    let cluster = Cluster::new(&settings_for(&one, one[0]));
    for key in ["x", "y", "z"] {
        assert_eq!(cluster.get_node_for_key(key), one[0]);
        assert!(cluster.is_key_local(key));
    }
}
