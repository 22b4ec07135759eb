use game_cluster::cluster::{ClusterState, Node, NodeStatus};
use game_cluster::routing::{
    assemble_response, build_forward_url, http_status_of, plan_add_player, AddPlayerLocalResponse,
    RouteError,
};

fn cluster_with_n1() -> ClusterState {
    let mut state = ClusterState::new();
    state.register_node(Node {
        id: "n1".to_string(),
        status: Some(NodeStatus {
            external_url: "http://1.2.3.4:8000".to_string(),
            local_url: "ws://10.0.0.5:4001".to_string(),
        }),
    });
    state
}

#[test]
fn known_node_yields_forwarding_plan_and_response() {
    let state = cluster_with_n1();
    let plan = plan_add_player(&state, "addr_x", "n1").expect("known reachable node");
    assert_eq!(plan.forward_url, "http://10.0.0.5:8000/game/add_player?address=addr_x");
    assert_eq!(plan.external_url, "http://1.2.3.4:8000");

    let local = AddPlayerLocalResponse {
        player_state: "active".to_string(),
        admin_pkh: "abc123".to_string(),
    };
    let response = assemble_response(plan.external_url, local);
    assert_eq!(response.ip, "http://1.2.3.4:8000");
    assert_eq!(response.player_state, "active");
    assert_eq!(response.admin_pkh, "abc123");
}

#[test]
fn unknown_node_is_not_found_before_any_call() {
    let state = cluster_with_n1();
    let outcome = plan_add_player(&state, "addr_x", "missing");
    assert_eq!(outcome.unwrap_err(), RouteError::NotFound);
}

#[test]
fn statusless_node_is_unreachable() {
    let mut state = ClusterState::new();
    state.register_node(Node { id: "n9".to_string(), status: None });
    let outcome = plan_add_player(&state, "addr_x", "n9");
    assert_eq!(outcome.unwrap_err(), RouteError::Unreachable);
}

#[test]
fn empty_local_address_is_unreachable() {
    let mut state = ClusterState::new();
    state.register_node(Node {
        id: "n4".to_string(),
        status: Some(NodeStatus {
            external_url: "http://1.2.3.4:8000".to_string(),
            local_url: "".to_string(),
        }),
    });
    let outcome = plan_add_player(&state, "addr_x", "n4");
    assert_eq!(outcome.unwrap_err(), RouteError::Unreachable);
}

#[test]
fn each_failure_maps_to_its_own_status() {
    assert_eq!(http_status_of(&RouteError::NotFound), 404);
    assert_eq!(http_status_of(&RouteError::Unreachable), 502);
    assert_eq!(http_status_of(&RouteError::MalformedUpstream), 500);
}

#[test]
fn forward_url_is_local_address_plus_fixed_path_and_player() {
    let url = build_forward_url("http://10.0.0.5:8000", "addr_x");
    assert_eq!(url, "http://10.0.0.5:8000/game/add_player?address=addr_x");
}
