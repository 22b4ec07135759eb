//! Request routing for the add-player boundary operation: resolving a
//! logical node identity to a forwarding plan, the fixed mapping of each
//! failure to its HTTP status, and the shaping of the client-facing
//! response from the node's answer.

use vstd::prelude::*;
use vstd::string::StringExecFns;
use crate::cluster::{ClusterState, spec_to_external, resolve_reachable_addresses};

verus! {

/// The distinct boundary failures of a routing request. Each carries a
/// different remediation, so they are never conflated.
#[derive(Clone, Copy, PartialEq, Eq, Structural, Debug)]
pub enum RouteError {
    /// The node identity is unknown.
    NotFound,
    /// The node has no usable address, or the transport failed to reach it.
    Unreachable,
    /// The node answered with a body that does not parse.
    MalformedUpstream,
}

/// The HTTP status code that reports each routing failure.
pub open spec fn spec_http_status(e: RouteError) -> u16 {
    match e {
        RouteError::NotFound => 404,
        RouteError::Unreachable => 502,
        RouteError::MalformedUpstream => 500,
    }
}

/// Maps a routing failure to the HTTP status code it is reported as.
pub fn http_status_of(e: &RouteError) -> (s: u16)
    ensures
        s == spec_http_status(*e),
{
    match e {
        RouteError::NotFound => 404,
        RouteError::Unreachable => 502,
        RouteError::MalformedUpstream => 500,
    }
}

/// The response shape the node-local game service answers with.
pub struct AddPlayerLocalResponse {
    pub player_state: String,
    pub admin_pkh: String,
}

/// The client-facing response of the add-player operation.
pub struct AddPlayerResponse {
    pub ip: String,
    pub player_state: String,
    pub admin_pkh: String,
}

/// The query path appended to a node-local address when forwarding an
/// add-player request.
pub open spec fn add_player_query_prefix() -> Seq<char> {
    "/game/add_player?address="@
}

/// The URL an add-player request is forwarded to: the node's local
/// address in externally callable form, the fixed game path, and the
/// player address.
pub open spec fn spec_forward_url(local_url: Seq<char>, address: Seq<char>) -> Seq<char> {
    local_url + add_player_query_prefix() + address
}

/// Builds the outbound URL for an add-player request.
pub fn build_forward_url(local_url: &str, address: &str) -> (r: String)
    ensures
        r@ == spec_forward_url(local_url@, address@),
{
    let mut r = local_url.to_owned();
    r.append("/game/add_player?address=");
    r.append(address);
    r
}

/// Everything the boundary needs to forward an add-player request: the
/// node's externally visible address, to be echoed in the response, and
/// the outbound URL to call.
#[derive(Debug)]
pub struct ForwardPlan {
    pub external_url: String,
    pub forward_url: String,
}

/// Decides an add-player request up to the outbound call: an unknown node
/// identity is not found; a node whose derived local address is empty
/// (in particular one that has not reported a status) is unreachable; any
/// other node yields the forwarding plan. No other outcome is possible.
pub fn plan_add_player(state: &ClusterState, address: &str, id: &str) -> (r: Result<
    ForwardPlan,
    RouteError,
>)
    requires
        state.wf(),
    ensures
        !state@.contains_key(id@) ==> r == Err::<ForwardPlan, RouteError>(RouteError::NotFound),
        state@.contains_key(id@) && state@[id@].status is None ==> r == Err::<
            ForwardPlan,
            RouteError,
        >(RouteError::Unreachable),
        state@.contains_key(id@) ==> (state@[id@].status matches Some(st) ==> (
        if spec_to_external(st.local_url).len() == 0 {
            r == Err::<ForwardPlan, RouteError>(RouteError::Unreachable)
        } else {
            &&& r matches Ok(p)
            &&& p.external_url@ == st.external_url
            &&& p.forward_url@ == spec_forward_url(spec_to_external(st.local_url), address@)
        })),
{
    let node = match state.get_node_by_id(id) {
        Some(n) => n,
        None => {
            return Err(RouteError::NotFound);
        },
    };
    let (external_url, local_url) = resolve_reachable_addresses(&node);
    if local_url.as_str().is_empty() {
        return Err(RouteError::Unreachable);
    }
    let forward_url = build_forward_url(local_url.as_str(), address);
    Ok(ForwardPlan { external_url, forward_url })
}

/// Assembles the client-facing response: the node's externally visible
/// address together with the fields of the decoded node-local answer,
/// whatever the upstream returned.
pub fn assemble_response(external_url: String, local: AddPlayerLocalResponse) -> (r:
    AddPlayerResponse)
    ensures
        r.ip@ == external_url@,
        r.player_state@ == local.player_state@,
        r.admin_pkh@ == local.admin_pkh@,
{
    AddPlayerResponse {
        ip: external_url,
        player_state: local.player_state,
        admin_pkh: local.admin_pkh,
    }
}

} // verus!
