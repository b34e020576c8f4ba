//! Choosing the node for the next request among the nodes that are
//! reachable, by round robin or always the first.

use vstd::prelude::*;
use crate::error::Error;

verus! {

/// The position `d` steps after `cursor` on a ring of `n` nodes, for a
/// cursor on the ring and at most `n` steps.
pub open spec fn ring_step(cursor: int, d: int, n: int) -> int {
    if cursor + d < n {
        cursor + d
    } else {
        cursor + d - n
    }
}

/// The first reachable node at `d` or more steps after the cursor, within
/// one turn of the ring.
pub open spec fn scan(up: Seq<bool>, cursor: int, d: int) -> Option<int>
    decreases up.len() + 1 - d,
{
    if d < 1 || d > up.len() {
        None
    } else if up[ring_step(cursor, d, up.len() as int)] {
        Some(ring_step(cursor, d, up.len() as int))
    } else {
        scan(up, cursor, d + 1)
    }
}

/// The node that the next request goes to: the first reachable one after
/// the cursor, the node under the cursor last.
pub open spec fn pick(up: Seq<bool>, cursor: int) -> Option<int> {
    scan(up, cursor, 1)
}

/// Whether no node is reachable.
pub open spec fn all_down(up: Seq<bool>) -> bool {
    forall|i: int| 0 <= i < up.len() ==> !#[trigger] up[i]
}

/// Whether every node is reachable.
pub open spec fn all_up(up: Seq<bool>) -> bool {
    forall|i: int| 0 <= i < up.len() ==> #[trigger] up[i]
}

/// How the next node is chosen.
#[derive(Clone, Copy, Debug, PartialEq, Eq, Structural)]
pub enum Policy {
    /// The first reachable node after the one handed out last.
    RoundRobin,
    /// The first reachable node of the cluster.
    FirstReachable,
}

/// A balancer as a mathematical value: its policy, which nodes are
/// reachable, and the node that was handed out last.
pub struct BalancerView {
    pub policy: Policy,
    pub up: Seq<bool>,
    pub cursor: int,
}

impl BalancerView {
    /// The cursor stands on a node, or at zero where there is none.
    pub open spec fn wf(self) -> bool {
        0 <= self.cursor && (self.cursor < self.up.len() || (self.cursor == 0 && self.up.len()
            == 0))
    }

    /// Where the search for the next node starts: at the cursor, or at the
    /// last node, after which the first one comes.
    pub open spec fn origin(self) -> int {
        match self.policy {
            Policy::RoundRobin => self.cursor,
            Policy::FirstReachable => if self.up.len() == 0 {
                0
            } else {
                self.up.len() - 1
            },
        }
    }

    /// The node that the next request goes to, if any is reachable.
    pub open spec fn choice(self) -> Option<int> {
        pick(self.up, self.origin())
    }

    /// The balancer after the next request: the cursor stands on the node
    /// chosen, and stays where none is.
    pub open spec fn moved(self) -> BalancerView {
        match self.choice() {
            Some(i) => BalancerView { cursor: i, ..self },
            None => self,
        }
    }

    /// The balancer after `k` requests.
    pub open spec fn after(self, k: nat) -> BalancerView
        decreases k,
    {
        if k == 0 {
            self
        } else {
            self.after((k - 1) as nat).moved()
        }
    }
}

/// The balancer of a cluster: it hands out the nodes by its policy,
/// skipping those marked unreachable.
#[derive(Debug, PartialEq, Eq)]
pub struct Balancer {
    policy: Policy,
    up: Vec<bool>,
    cursor: usize,
}

impl View for Balancer {
    type V = BalancerView;

    closed spec fn view(&self) -> BalancerView {
        BalancerView { policy: self.policy, up: self.up@, cursor: self.cursor as int }
    }
}

proof fn lemma_scan(up: Seq<bool>, cursor: int, d: int)
    requires
        0 <= cursor < up.len(),
        1 <= d,
    ensures
        match scan(up, cursor, d) {
            Some(i) => 0 <= i < up.len() && up[i] && exists|e: int|
                d <= e <= up.len() && i == ring_step(cursor, e, up.len() as int) && forall|f: int|
                    d <= f < e ==> !up[#[trigger] ring_step(cursor, f, up.len() as int)],
            None => forall|f: int|
                d <= f <= up.len() ==> !up[#[trigger] ring_step(cursor, f, up.len() as int)],
        },
    decreases up.len() + 1 - d,
{
    let n = up.len() as int;
    if d > n {
    } else if up[ring_step(cursor, d, n)] {
        assert(d <= d <= n && ring_step(cursor, d, n) == ring_step(cursor, d, n));
    } else {
        lemma_scan(up, cursor, d + 1);
        match scan(up, cursor, d + 1) {
            Some(i) => {
                let e = choose|e: int|
                    d + 1 <= e <= n && i == ring_step(cursor, e, n) && forall|f: int|
                        d + 1 <= f < e ==> !up[#[trigger] ring_step(cursor, f, n)];
                assert(d <= e <= n && i == ring_step(cursor, e, n) && forall|f: int|
                    d <= f < e ==> !up[#[trigger] ring_step(cursor, f, n)]);
            },
            None => {},
        }
    }
}

/// A node is picked unless every node is unreachable, and the node picked
/// is reachable.
pub proof fn lemma_pick_none_iff_all_down(up: Seq<bool>, cursor: int)
    requires
        0 <= cursor < up.len() || (cursor == 0 && up.len() == 0),
    ensures
        pick(up, cursor) is None <==> all_down(up),
        pick(up, cursor) is Some ==> 0 <= pick(up, cursor)->0 < up.len() && up[pick(
            up,
            cursor,
        )->0],
{
    let n = up.len() as int;
    if n > 0 {
        lemma_scan(up, cursor, 1);
        if pick(up, cursor) is None {
            assert forall|i: int| 0 <= i < n implies !#[trigger] up[i] by {
                let f = if i > cursor {
                    i - cursor
                } else {
                    i + n - cursor
                };
                assert(ring_step(cursor, f, n) == i);
            }
        }
    }
}

/// With every node reachable the next request goes to the node right after
/// the cursor.
pub proof fn lemma_pick_all_up(up: Seq<bool>, cursor: int)
    requires
        0 <= cursor < up.len(),
        all_up(up),
    ensures
        pick(up, cursor) == Some(ring_step(cursor, 1, up.len() as int)),
{
}

proof fn lemma_after_all_up(b: BalancerView, k: nat)
    requires
        b.wf(),
        b.policy == Policy::RoundRobin,
        b.up.len() > 0,
        all_up(b.up),
        k <= b.up.len(),
    ensures
        b.after(k).up == b.up,
        b.after(k).policy == b.policy,
        b.after(k).cursor == ring_step(b.cursor, k as int, b.up.len() as int) || (k == 0
            && b.after(k).cursor == b.cursor),
        0 <= b.after(k).cursor < b.up.len(),
    decreases k,
{
    if k > 0 {
        lemma_after_all_up(b, (k - 1) as nat);
        let before = b.after((k - 1) as nat);
        lemma_pick_all_up(before.up, before.cursor);
    }
}

/// Fairness of round robin: with every node reachable, any run of as many
/// requests as there are nodes goes to every node. Whatever the cursor is
/// when the run starts, each node is the one chosen by one of its requests.
pub proof fn lemma_round_robin_visits_every_node(b: BalancerView, node: int)
    requires
        b.wf(),
        b.policy == Policy::RoundRobin,
        all_up(b.up),
        0 <= node < b.up.len(),
    ensures
        exists|k: nat| 1 <= k <= b.up.len() && (#[trigger] b.after(k)).cursor == node,
{
    let n = b.up.len() as int;
    let k: nat = if node > b.cursor {
        (node - b.cursor) as nat
    } else {
        (node + n - b.cursor) as nat
    };
    lemma_after_all_up(b, k);
    assert(1 <= k <= b.up.len() && b.after(k).cursor == node);
}

impl Balancer {
    #[verifier::type_invariant]
    spec fn well_formed(self) -> bool {
        self.cursor < self.up@.len() || (self.cursor == 0 && self.up@.len() == 0)
    }

    /// A balancer over `nodes` nodes, all reachable, with the cursor on the
    /// first: round robin starts with the second node.
    pub fn new(policy: Policy, nodes: usize) -> (b: Balancer)
        ensures
            b@.wf(),
            b@.policy == policy,
            b@.cursor == 0,
            b@.up.len() == nodes,
            all_up(b@.up),
    {
        let mut up: Vec<bool> = Vec::new();
        let mut i: usize = 0;
        while i < nodes
            invariant
                i <= nodes,
                up@.len() == i,
                all_up(up@),
            decreases nodes - i,
        {
            up.push(true);
            i = i + 1;
        }
        Balancer { policy, up, cursor: 0 }
    }

    /// The number of nodes.
    pub fn len(&self) -> (n: usize)
        ensures
            n == self@.up.len(),
    {
        self.up.len()
    }

    /// Whether node `i` is marked reachable; `false` where there is no such
    /// node.
    pub fn is_up(&self, i: usize) -> (b: bool)
        ensures
            b == (i < self@.up.len() && self@.up[i as int]),
    {
        i < self.up.len() && self.up[i]
    }

    /// Marks node `i` reachable or unreachable. Nothing changes where there
    /// is no such node.
    pub fn set_up(&mut self, i: usize, up: bool)
        ensures
            final(self)@.cursor == old(self)@.cursor,
            final(self)@.policy == old(self)@.policy,
            i < old(self)@.up.len() ==> final(self)@.up == old(self)@.up.update(i as int, up),
            i >= old(self)@.up.len() ==> final(self)@.up == old(self)@.up,
    {
        proof {
            use_type_invariant(&*self);
        }
        if i < self.up.len() {
            self.up[i] = up;
        }
    }

    /// The node for the next request. The cursor moves to the node handed
    /// out. It fails with `NoAvailableNode`, at once and with nothing changed,
    /// exactly where every node is marked unreachable.
    pub fn next(&mut self) -> (r: Result<usize, Error>)
        ensures
            final(self)@ == old(self)@.moved(),
            r is Err <==> all_down(old(self)@.up),
            match r {
                Ok(i) => {
                    &&& old(self)@.choice() == Some(i as int)
                    &&& i < old(self)@.up.len()
                    &&& old(self)@.up[i as int]
                },
                Err(e) => e == Error::NoAvailableNode && old(self)@.choice() is None,
            },
    {
        proof {
            use_type_invariant(&*self);
            lemma_pick_none_iff_all_down(self@.up, self@.origin());
        }
        let n: usize = self.up.len();
        let origin: usize = match self.policy {
            Policy::RoundRobin => self.cursor,
            Policy::FirstReachable => if n == 0 {
                0
            } else {
                n - 1
            },
        };
        let mut d: usize = 0;
        while d < n
            invariant
                d <= n,
                n == self.up@.len(),
                origin < n || (origin == 0 && n == 0),
                origin == old(self)@.origin(),
                self.cursor < n || (self.cursor == 0 && n == 0),
                self == old(self),
                scan(self.up@, origin as int, d + 1) == pick(self.up@, origin as int),
            decreases n - d,
        {
            let step: usize = d + 1;
            let i: usize = if step < n - origin {
                origin + step
            } else {
                step - (n - origin)
            };
            if self.up[i] {
                self.cursor = i;
                return Ok(i);
            }
            d = step;
        }
        Err(Error::NoAvailableNode)
    }
}

} // verus!
