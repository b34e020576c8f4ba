//! What a session is built from: the nodes of the cluster and how to
//! authenticate with each.

use vstd::prelude::*;
use crate::balancer::{all_up, Policy};
use crate::pool::PoolView;
use crate::session::Session;

verus! {

/// How a connection authenticates.
#[derive(Clone, Debug, PartialEq, Eq)]
pub enum Authenticator {
    /// The server asks for no credentials.
    NoneAuthenticator,
    /// User name and password.
    Password { username: String, password: String },
}

/// One node: its address and its authenticator. It does not change once
/// built.
#[derive(Clone, Debug, PartialEq, Eq)]
pub struct NodeConfig {
    address: String,
    authenticator: Authenticator,
}

/// The nodes of a cluster, in the order in which the balancer numbers them.
#[derive(Clone, Debug, PartialEq, Eq)]
pub struct ClusterConfig {
    nodes: Vec<NodeConfig>,
}

/// A node configuration as a mathematical value.
pub struct NodeConfigView {
    pub address: Seq<char>,
    pub authenticator: Authenticator,
}

impl View for NodeConfig {
    type V = NodeConfigView;

    closed spec fn view(&self) -> NodeConfigView {
        NodeConfigView { address: self.address@, authenticator: self.authenticator }
    }
}

impl View for ClusterConfig {
    type V = Seq<NodeConfig>;

    closed spec fn view(&self) -> Seq<NodeConfig> {
        self.nodes@
    }
}

impl NodeConfig {
    pub fn new(address: &str, authenticator: Authenticator) -> (n: NodeConfig)
        ensures
            n@ == (NodeConfigView { address: address@, authenticator }),
    {
        NodeConfig { address: address.to_owned(), authenticator }
    }

    pub fn address(&self) -> (a: &str)
        ensures
            a@ == self@.address,
    {
        self.address.as_str()
    }

    pub fn authenticator(&self) -> (a: &Authenticator)
        ensures
            *a == self@.authenticator,
    {
        &self.authenticator
    }
}

impl ClusterConfig {
    pub fn new(nodes: Vec<NodeConfig>) -> (c: ClusterConfig)
        ensures
            c@ == nodes@,
    {
        ClusterConfig { nodes }
    }

    /// The number of nodes.
    pub fn len(&self) -> (n: usize)
        ensures
            n == self@.len(),
    {
        self.nodes.len()
    }

    /// The node that the balancer calls `i`.
    pub fn node(&self, i: usize) -> (n: Option<&NodeConfig>)
        ensures
            match n {
                Some(node) => i < self@.len() && *node == self@[i as int],
                None => i >= self@.len(),
            },
    {
        if i < self.nodes.len() {
            Some(&self.nodes[i])
        } else {
            None
        }
    }

    /// A session over the nodes of this cluster, all taken as reachable,
    /// with an empty pool of at most `pool_size` connections for each.
    pub fn session(&self, policy: Policy, pool_size: usize, retries: usize) -> (s: Session)
        ensures
            s@.wf(),
            s@.balancer.policy == policy,
            s@.balancer.cursor == 0,
            s@.balancer.up.len() == self@.len(),
            all_up(s@.balancer.up),
            forall|i: int| 0 <= i < self@.len() ==> #[trigger] s@.pools[i] == PoolView::empty(
                pool_size as nat,
            ),
            s@.next_stream == 0,
            s@.retries == retries,
    {
        Session::new(policy, self.nodes.len(), pool_size, retries)
    }
}

} // verus!
