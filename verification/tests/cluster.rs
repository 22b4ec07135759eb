use game_cluster::cluster::{
    resolve_reachable_addresses, to_external_address, ClusterState, Node, NodeStatus,
};

fn node_with_status(id: &str, external_url: &str, local_url: &str) -> Node {
    Node {
        id: id.to_string(),
        status: Some(NodeStatus {
            external_url: external_url.to_string(),
            local_url: local_url.to_string(),
        }),
    }
}

#[test]
fn lookup_returns_known_node_and_nothing_for_unknown() {
    let mut state = ClusterState::new();
    state.register_node(node_with_status("n1", "http://1.2.3.4:8000", "ws://10.0.0.5:4001"));
    state.register_node(Node { id: "n2".to_string(), status: None });

    let found = state.get_node_by_id("n1").expect("known id must resolve");
    assert_eq!(found.id, "n1");
    assert_eq!(found.status.as_ref().unwrap().external_url, "http://1.2.3.4:8000");
    assert_eq!(found.status.as_ref().unwrap().local_url, "ws://10.0.0.5:4001");

    let second = state.get_node_by_id("n2").expect("known id must resolve");
    assert_eq!(second.id, "n2");
    assert!(second.status.is_none());

    assert!(state.get_node_by_id("missing").is_none());
    assert!(state.get_node_by_id("").is_none());
}

#[test]
fn translation_rewrites_scheme_and_port_only() {
    assert_eq!(to_external_address("ws://host:4001/path"), "http://host:8000/path");
    assert_eq!(to_external_address("ws://10.0.0.5:4001"), "http://10.0.0.5:8000");
    assert_eq!(to_external_address("ws://10.0.0.5:4001/x?y=z"), "http://10.0.0.5:8000/x?y=z");
}

#[test]
fn translation_leaves_host_and_path_untouched() {
    assert_eq!(to_external_address("ws://4001:4001"), "http://4001:8000");
    assert_eq!(to_external_address("ws://host:4001/game/4001"), "http://host:8000/game/4001");
    assert_eq!(
        to_external_address("ws://4001.example:4001/ws://x"),
        "http://4001.example:8000/ws://x"
    );
}

#[test]
fn translation_leaves_other_addresses_unchanged() {
    assert_eq!(to_external_address("ws://host:40011/x"), "ws://host:40011/x");
    assert_eq!(to_external_address("ws://host:9000/x"), "ws://host:9000/x");
    assert_eq!(to_external_address(""), "");
}

#[test]
fn translation_is_idempotent_on_external_addresses() {
    let already_external = "http://1.2.3.4:8000/game";
    assert_eq!(to_external_address(already_external), already_external);
    let once = to_external_address("ws://host:4001/path");
    assert_eq!(to_external_address(&once), once);
}

#[test]
fn resolve_uses_status_and_translates_local_address() {
    let node = node_with_status("n1", "http://1.2.3.4:8000", "ws://10.0.0.5:4001");
    let (external_url, local_url) = resolve_reachable_addresses(&node);
    assert_eq!(external_url, "http://1.2.3.4:8000");
    assert_eq!(local_url, "http://10.0.0.5:8000");
}

#[test]
fn resolve_defaults_to_empty_for_statusless_node() {
    let node = Node { id: "n3".to_string(), status: None };
    let (external_url, local_url) = resolve_reachable_addresses(&node);
    assert_eq!(external_url, "");
    assert_eq!(local_url, "");
}
