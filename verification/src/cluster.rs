//! Cluster membership: the registry of known nodes keyed by identity,
//! exact-match lookup, and translation of a node's cluster-internal
//! address into its externally callable form.

use vstd::prelude::*;
use vstd::map::*;
use crate::text::{starts_with, str_to_chars, chars_to_string, str_eq, push_all};

verus! {

/// The intra-cluster transport scheme token of a node-local address.
pub open spec fn internal_scheme() -> Seq<char> {
    seq!['w', 's', ':', '/', '/']
}

/// The standard web scheme token of an externally callable address.
pub open spec fn external_scheme() -> Seq<char> {
    seq!['h', 't', 't', 'p', ':', '/', '/']
}

/// The fixed intra-cluster port token that ends the host of a node-local
/// address.
pub open spec fn internal_port_token() -> Seq<char> {
    seq![':', '4', '0', '0', '1']
}

/// The fixed public port token of an externally callable address.
pub open spec fn external_port_token() -> Seq<char> {
    seq![':', '8', '0', '0', '0']
}

/// An ASCII decimal digit.
pub open spec fn is_ascii_digit(c: char) -> bool {
    48 <= c as u32 && c as u32 <= 57
}

/// The sequence begins with a digit, so a port token cut here would be
/// only part of a longer port number.
pub open spec fn continues_with_digit(after: Seq<char>) -> bool {
    after.len() > 0 && is_ascii_digit(after[0])
}

/// The length of the host component at the front of `rest` (the address
/// after its scheme): the maximal prefix free of ':' and '/'.
pub open spec fn host_len(rest: Seq<char>) -> int
    decreases rest.len(),
{
    if rest.len() == 0 {
        0
    } else if rest[0] == ':' || rest[0] == '/' {
        0
    } else {
        1 + host_len(rest.skip(1))
    }
}

/// An address in the cluster's internal convention: the internal scheme,
/// then a host, then exactly the internal port token (not a longer port
/// number), then the rest of the address (path and the like).
pub open spec fn is_internal_form(s: Seq<char>) -> bool {
    let rest = s.skip(internal_scheme().len() as int);
    let h = host_len(rest);
    &&& starts_with(s, internal_scheme())
    &&& starts_with(rest.skip(h), internal_port_token())
    &&& !continues_with_digit(rest.skip(h + internal_port_token().len()))
}

/// A cluster-internal address rewritten into externally callable form:
/// only the leading scheme token and the port token after the host are
/// replaced by their external counterparts; host and path come through
/// unchanged. An address not in the internal convention — in particular
/// one already in external form — is returned as it is.
pub open spec fn spec_to_external(s: Seq<char>) -> Seq<char> {
    if is_internal_form(s) {
        let rest = s.skip(internal_scheme().len() as int);
        let h = host_len(rest);
        external_scheme() + rest.take(h) + external_port_token() + rest.skip(
            h + internal_port_token().len(),
        )
    } else {
        s
    }
}

/// `host_len` is exactly the position of the first ':' or '/' (or the
/// whole length when there is none).
proof fn lemma_host_len_characterization(rest: Seq<char>, n: int)
    requires
        0 <= n <= rest.len(),
        forall|k: int| 0 <= k < n ==> rest[k] != ':' && rest[k] != '/',
        n == rest.len() || rest[n] == ':' || rest[n] == '/',
    ensures
        host_len(rest) == n,
    decreases n,
{
    if n == 0 {
    } else {
        assert(rest[0] != ':' && rest[0] != '/');
        assert forall|k: int| 0 <= k < n - 1 implies rest.skip(1)[k] != ':' && rest.skip(1)[k]
            != '/' by {
            assert(rest.skip(1)[k] == rest[k + 1]);
        }
        assert(n - 1 == rest.skip(1).len() || rest.skip(1)[n - 1] == ':' || rest.skip(1)[n - 1]
            == '/') by {
            if n < rest.len() {
                assert(rest.skip(1)[n - 1] == rest[n]);
            }
        }
        lemma_host_len_characterization(rest.skip(1), n - 1);
    }
}

/// Law: translating an address in the internal convention rewrites only
/// the scheme token and the port token; the host (any run free of ':'
/// and '/') and the path come through byte-identical. The path must not
/// begin with a digit — otherwise the address carries a longer port
/// number, not the internal port, and is no internal address.
pub proof fn lemma_translation_rewrites_tokens_only(host: Seq<char>, path: Seq<char>)
    requires
        forall|k: int| 0 <= k < host.len() ==> host[k] != ':' && host[k] != '/',
        !continues_with_digit(path),
    ensures
        spec_to_external(internal_scheme() + host + internal_port_token() + path)
            == external_scheme() + host + external_port_token() + path,
{
    let s = internal_scheme() + host + internal_port_token() + path;
    let rest = s.skip(internal_scheme().len() as int);
    assert(rest =~= host + internal_port_token() + path);
    assert forall|k: int| 0 <= k < host.len() implies rest[k] != ':' && rest[k] != '/' by {
        assert(rest[k] == host[k]);
    }
    assert(host.len() < rest.len());
    assert(rest[host.len() as int] == internal_port_token()[0]);
    lemma_host_len_characterization(rest, host.len() as int);
    assert(starts_with(s, internal_scheme())) by {
        assert(s.subrange(0, internal_scheme().len() as int) =~= internal_scheme());
    }
    assert(starts_with(rest.skip(host.len() as int), internal_port_token())) by {
        assert(rest.skip(host.len() as int) =~= internal_port_token() + path);
        assert(rest.skip(host.len() as int).subrange(0, internal_port_token().len() as int)
            =~= internal_port_token());
    }
    assert(rest.skip(host.len() as int + internal_port_token().len() as int) =~= path);
    assert(is_internal_form(s));
    assert(rest.take(host.len() as int) =~= host);
    assert(spec_to_external(s) =~= external_scheme() + host + external_port_token() + path);
}

/// Law: translation is the identity on any address not in the internal
/// convention — in particular on an already-external address.
pub proof fn lemma_translation_identity_on_external(s: Seq<char>)
    requires
        !is_internal_form(s),
    ensures
        spec_to_external(s) == s,
{
}

/// Law: translation is idempotent — a translated address, already in
/// external form, comes back unchanged from a second translation.
pub proof fn lemma_translation_idempotent(s: Seq<char>)
    ensures
        spec_to_external(spec_to_external(s)) == spec_to_external(s),
{
    let t = spec_to_external(s);
    if is_internal_form(s) {
        let rest = s.skip(internal_scheme().len() as int);
        let h = host_len(rest);
        let a = external_scheme();
        let b = rest.take(h);
        let c = external_port_token();
        let d = rest.skip(h + internal_port_token().len());
        assert(t == a + b + c + d);
        assert((a + b)[0] == a[0]);
        assert(((a + b) + c)[0] == (a + b)[0]);
        assert((((a + b) + c) + d)[0] == ((a + b) + c)[0]);
        assert(t[0] == 'h');
        if is_internal_form(t) {
            assert(t.subrange(0, internal_scheme().len() as int) == internal_scheme());
            assert(t.subrange(0, internal_scheme().len() as int)[0] == t[0]);
        }
        assert(!is_internal_form(t));
    }
}

/// Decides the digit test at the cut after a candidate port token.
fn is_digit_char(c: char) -> (b: bool)
    ensures
        b == is_ascii_digit(c),
{
    let u = c as u32;
    48 <= u && u <= 57
}

/// Rewrites an address in the cluster-internal convention into its
/// externally callable form; any other address comes back unchanged.
fn translate_address_chars(s: &Vec<char>) -> (r: Vec<char>)
    ensures
        r@ == spec_to_external(s@),
{
    if !(s.len() >= 5 && s[0] == 'w' && s[1] == 's' && s[2] == ':' && s[3] == '/' && s[4]
        == '/') {
        proof {
            if is_internal_form(s@) {
                assert(s@.subrange(0, 5)[0] == s@[0]);
                assert(s@.subrange(0, 5)[1] == s@[1]);
                assert(s@.subrange(0, 5)[2] == s@[2]);
                assert(s@.subrange(0, 5)[3] == s@[3]);
                assert(s@.subrange(0, 5)[4] == s@[4]);
            }
        }
        let mut r: Vec<char> = Vec::new();
        push_all(&mut r, s);
        proof {
            assert(r@ =~= s@);
        }
        return r;
    }
    let ghost rest = s@.skip(5);
    let mut h: usize = 5;
    while h < s.len() && s[h] != ':' && s[h] != '/'
        invariant
            5 <= h <= s@.len(),
            forall|k: int| 5 <= k < h ==> s@[k] != ':' && s@[k] != '/',
        decreases s@.len() - h,
    {
        h += 1;
    }
    proof {
        assert forall|k: int| 0 <= k < h - 5 implies rest[k] != ':' && rest[k] != '/' by {
            assert(rest[k] == s@[k + 5]);
        }
        if h < s@.len() {
            assert(rest[h - 5] == s@[h as int]);
        }
        lemma_host_len_characterization(rest, h - 5);
    }
    let ghost hl = host_len(rest);
    let mut internal = false;
    if h <= s.len() - 5 {
        if s[h] == ':' && s[h + 1] == '4' && s[h + 2] == '0' && s[h + 3] == '0' && s[h + 4]
            == '1' {
            if h + 5 == s.len() {
                internal = true;
            } else if !is_digit_char(s[h + 5]) {
                internal = true;
            }
        }
    }
    proof {
        if internal {
            assert(h + 5 <= s@.len());
            assert forall|j: int| 0 <= j < 5 implies rest.skip(hl)[j] == s@[h + j] by {
                assert(rest.skip(hl)[j] == rest[hl + j]);
                assert(rest[hl + j] == s@[hl + j + 5]);
            }
            assert(starts_with(s@, internal_scheme())) by {
                assert(s@.subrange(0, 5) =~= internal_scheme());
            }
            assert(starts_with(rest.skip(hl), internal_port_token())) by {
                assert(rest.skip(hl).subrange(0, 5) =~= internal_port_token());
            }
            if h + 5 < s@.len() {
                assert(rest.skip(hl + 5)[0] == rest[hl + 5]);
                assert(rest[hl + 5] == s@[h + 5]);
            }
            assert(is_internal_form(s@));
        } else {
            if is_internal_form(s@) {
                assert(starts_with(rest.skip(hl), internal_port_token()));
                assert(rest.skip(hl).len() >= 5);
                assert(h + 5 <= s@.len());
                assert forall|j: int| 0 <= j < 5 implies rest.skip(hl)[j] == s@[h + j] by {
                    assert(rest.skip(hl)[j] == rest[hl + j]);
                    assert(rest[hl + j] == s@[hl + j + 5]);
                }
                assert(rest.skip(hl).subrange(0, 5) == internal_port_token());
                assert(rest.skip(hl).subrange(0, 5)[0] == rest.skip(hl)[0]);
                assert(rest.skip(hl).subrange(0, 5)[1] == rest.skip(hl)[1]);
                assert(rest.skip(hl).subrange(0, 5)[2] == rest.skip(hl)[2]);
                assert(rest.skip(hl).subrange(0, 5)[3] == rest.skip(hl)[3]);
                assert(rest.skip(hl).subrange(0, 5)[4] == rest.skip(hl)[4]);
                if h + 5 < s@.len() {
                    assert(rest.skip(hl + 5)[0] == rest[hl + 5]);
                    assert(rest[hl + 5] == s@[h + 5]);
                }
                assert(false);
            }
        }
    }
    if !internal {
        let mut r: Vec<char> = Vec::new();
        push_all(&mut r, s);
        proof {
            assert(r@ =~= s@);
        }
        return r;
    }
    let mut r: Vec<char> = Vec::new();
    r.push('h');
    r.push('t');
    r.push('t');
    r.push('p');
    r.push(':');
    r.push('/');
    r.push('/');
    proof {
        assert(r@ =~= external_scheme());
    }
    let mut k: usize = 5;
    while k < h
        invariant
            5 <= k <= h,
            h <= s@.len(),
            r@ == external_scheme() + s@.subrange(5, k as int),
        decreases h - k,
    {
        let ghost r0 = r@;
        r.push(s[k]);
        proof {
            assert(r0.push(s@[k as int]) =~= external_scheme() + s@.subrange(5, k + 1));
        }
        k += 1;
    }
    let ghost base = r@;
    r.push(':');
    r.push('8');
    r.push('0');
    r.push('0');
    r.push('0');
    proof {
        assert(r@ =~= base + external_port_token());
    }
    let ghost mid = r@;
    let mut k2: usize = h + 5;
    proof {
        assert(mid + s@.subrange(h + 5, h + 5) =~= mid);
    }
    while k2 < s.len()
        invariant
            h + 5 <= k2 <= s@.len(),
            mid == external_scheme() + s@.subrange(5, h as int) + external_port_token(),
            r@ == mid + s@.subrange(h + 5, k2 as int),
        decreases s@.len() - k2,
    {
        let ghost r0 = r@;
        r.push(s[k2]);
        proof {
            assert(r0.push(s@[k2 as int]) =~= mid + s@.subrange(h + 5, k2 + 1));
        }
        k2 += 1;
    }
    proof {
        assert(rest.take(hl) =~= s@.subrange(5, h as int));
        assert(rest.skip(hl + 5) =~= s@.subrange(h + 5, s@.len() as int));
        assert(r@ =~= external_scheme() + rest.take(hl) + external_port_token() + rest.skip(
            hl + 5,
        ));
    }
    r
}

/// Rewrites a cluster-internal address into its externally callable
/// form: only the scheme token and the port token change.
pub fn to_external_address(s: &str) -> (r: String)
    ensures
        r@ == spec_to_external(s@),
{
    let chars = str_to_chars(s);
    let out = translate_address_chars(&chars);
    chars_to_string(&out)
}

/// Ghost form of a node's reported reachability info.
pub struct NodeStatusV {
    pub external_url: Seq<char>,
    pub local_url: Seq<char>,
}

/// The reachability info a node reports once it has come online: its
/// externally visible address and its cluster-internal address.
pub struct NodeStatus {
    pub external_url: String,
    pub local_url: String,
}

impl View for NodeStatus {
    type V = NodeStatusV;

    open spec fn view(&self) -> NodeStatusV {
        NodeStatusV { external_url: self.external_url@, local_url: self.local_url@ }
    }
}

impl NodeStatus {
    /// An identical copy of the status.
    pub fn duplicate(&self) -> (r: Self)
        ensures
            r@ == self@,
    {
        NodeStatus { external_url: self.external_url.clone(), local_url: self.local_url.clone() }
    }
}

/// Ghost form of a cluster member.
pub struct NodeV {
    pub id: Seq<char>,
    pub status: Option<NodeStatusV>,
}

/// A cluster member: its identity, unique within the cluster, and, once
/// it has reported in, its reachability info. A node with no status is
/// treated as unreachable, not as an error.
pub struct Node {
    pub id: String,
    pub status: Option<NodeStatus>,
}

impl View for Node {
    type V = NodeV;

    open spec fn view(&self) -> NodeV {
        NodeV {
            id: self.id@,
            status: match self.status {
                Some(st) => Some(st@),
                None => None,
            },
        }
    }
}

impl Node {
    /// An identical copy of the node record.
    pub fn duplicate(&self) -> (r: Self)
        ensures
            r@ == self@,
    {
        let status = match &self.status {
            Some(st) => Some(st.duplicate()),
            None => None,
        };
        Node { id: self.id.clone(), status }
    }
}

/// The process-wide registry of known nodes. Viewed as a map from node
/// identity to node record; identities are unique within the cluster.
pub struct ClusterState {
    nodes: Vec<Node>,
}

impl View for ClusterState {
    type V = Map<Seq<char>, NodeV>;

    closed spec fn view(&self) -> Map<Seq<char>, NodeV> {
        Map::new(
            |id: Seq<char>|
                exists|i: int| 0 <= i < self.nodes@.len() && self.nodes@[i].id@ == id,
            |id: Seq<char>|
                self.nodes@[choose|i: int|
                    0 <= i < self.nodes@.len() && self.nodes@[i].id@ == id]@,
        )
    }
}

impl ClusterState {
    /// Node identities are unique within the registry.
    pub closed spec fn wf(&self) -> bool {
        forall|p: int, q: int|
            0 <= p < q < self.nodes@.len() ==> self.nodes@[p].id@ != self.nodes@[q].id@
    }

    /// An empty registry.
    pub fn new() -> (s: Self)
        ensures
            s.wf(),
            s@ == Map::<Seq<char>, NodeV>::empty(),
    {
        let s = ClusterState { nodes: Vec::new() };
        proof {
            assert(s@ =~= Map::<Seq<char>, NodeV>::empty());
        }
        s
    }

    /// Registers a newly joined node under its identity.
    pub fn register_node(&mut self, node: Node)
        requires
            old(self).wf(),
            !old(self)@.contains_key(node.id@),
        ensures
            final(self).wf(),
            final(self)@ == old(self)@.insert(node.id@, node@),
    {
        let ghost oldv = self.nodes@;
        let ghost oldm = old(self)@;
        proof {
            assert forall|i: int| 0 <= i < oldv.len() implies oldv[i].id@ != node.id@ by {
                if oldv[i].id@ == node.id@ {
                    assert(oldm.dom().contains(node.id@));
                }
            }
        }
        self.nodes.push(node);
        proof {
            let newv = self.nodes@;
            assert(newv == oldv.push(node));
            assert forall|p: int, q: int|
                0 <= p < q < newv.len() implies newv[p].id@ != newv[q].id@ by {
                if q < oldv.len() {
                    assert(oldv[p].id@ != oldv[q].id@);
                } else {
                    assert(newv[q] == node);
                    assert(newv[p] == oldv[p]);
                }
            }
            let target = oldm.insert(node.id@, node@);
            let newm = self@;
            assert_maps_equal!(newm, target, k => {
                if k == node.id@ {
                    assert(newv[oldv.len() as int].id@ == k);
                    assert(newm.dom().contains(k));
                    let j = choose|i: int| 0 <= i < newv.len() && newv[i].id@ == k;
                    if j != oldv.len() as int {
                        assert(oldv[j].id@ == k);
                        assert(oldm.dom().contains(k));
                    }
                    assert(newm[k] == newv[j]@);
                } else {
                    if newm.dom().contains(k) {
                        let j = choose|i: int| 0 <= i < newv.len() && newv[i].id@ == k;
                        assert(newv[j].id@ == k);
                        assert(j < oldv.len());
                        assert(oldm.dom().contains(k));
                        let j2 = choose|i: int| 0 <= i < oldv.len() && oldv[i].id@ == k;
                        if j != j2 {
                            if j < j2 {
                                assert(newv[j].id@ != newv[j2].id@);
                            } else {
                                assert(newv[j2].id@ != newv[j].id@);
                            }
                        }
                        assert(newm[k] == newv[j]@);
                        assert(target[k] == oldv[j2]@);
                    }
                    if target.dom().contains(k) {
                        let j2 = choose|i: int| 0 <= i < oldv.len() && oldv[i].id@ == k;
                        assert(newv[j2].id@ == k);
                        assert(newm.dom().contains(k));
                    }
                }
            });
        }
    }

    /// Exact-match lookup by identity: the node registered under `id`,
    /// or nothing (not an error) when no such node is known.
    pub fn get_node_by_id(&self, id: &str) -> (r: Option<Node>)
        requires
            self.wf(),
        ensures
            match r {
                Some(n) => self@.contains_key(id@) && n@ == self@[id@],
                None => !self@.contains_key(id@),
            },
    {
        let mut i: usize = 0;
        while i < self.nodes.len()
            invariant
                self.wf(),
                i <= self.nodes@.len(),
                forall|k: int| 0 <= k < i ==> self.nodes@[k].id@ != id@,
            decreases self.nodes@.len() - i,
        {
            if str_eq(self.nodes[i].id.as_str(), id) {
                let n = self.nodes[i].duplicate();
                proof {
                    assert(self.nodes@[i as int].id@ == id@);
                    assert(self@.dom().contains(id@));
                    let j = choose|j: int|
                        0 <= j < self.nodes@.len() && self.nodes@[j].id@ == id@;
                    if j != i as int {
                        if j < i as int {
                            assert(self.nodes@[j].id@ != self.nodes@[i as int].id@);
                        } else {
                            assert(self.nodes@[i as int].id@ != self.nodes@[j].id@);
                        }
                    }
                    assert(self@[id@] == self.nodes@[i as int]@);
                }
                return Some(n);
            }
            i += 1;
        }
        proof {
            if self@.contains_key(id@) {
                let j = choose|j: int| 0 <= j < self.nodes@.len() && self.nodes@[j].id@ == id@;
                assert(self.nodes@[j].id@ != id@);
            }
        }
        None
    }
}

/// The externally visible address of a node and the externally callable
/// form of its cluster-internal address. A node that has not reported a
/// status yields empty strings: the documented default for a node that is
/// not yet online, to be treated as unreachable by callers.
pub fn resolve_reachable_addresses(node: &Node) -> (r: (String, String))
    ensures
        match node@.status {
            Some(st) => r.0@ == st.external_url && r.1@ == spec_to_external(st.local_url),
            None => r.0@ == Seq::<char>::empty() && r.1@ == Seq::<char>::empty(),
        },
{
    match &node.status {
        Some(st) => (st.external_url.clone(), to_external_address(st.local_url.as_str())),
        None => (String::new(), String::new()),
    }
}

} // verus!
