//! The life of a request, as decisions: which node, which connection, what
//! to send, what the answer means, when to try again.
//!
//! The session performs no input or output. It returns an `Action`; its
//! caller carries the action out and reports what happened as an `Event`,
//! until the action is `Done`. A connection for which the caller reported
//! `Stale`, `Broken` or `TimedOut` is no longer the pool's, and is to be
//! closed.

use vstd::prelude::*;
use crate::balancer::{all_down, Balancer, BalancerView, Policy};
use crate::error::{Error, ErrorView, ProtocolFault};
use crate::frame::{frame_bytes, Frame, FrameView, MAX_BODY_LEN};
use crate::pool::{Lease, Pool, PoolView};
use crate::query::{encode_query_frame, Consistency, Query, QueryValues, QueryView};
use crate::response::{interpret_response, outcome_view, response_spec};

verus! {

/// Where a request stands.
#[derive(Clone, Copy, Debug, PartialEq, Eq, Structural)]
pub enum Phase {
    /// A new connection is being opened.
    Opening,
    /// An idle connection is being probed.
    Probing,
    /// The request was handed over for sending; the response is awaited.
    Awaiting,
    /// The outcome was reported.
    Finished,
}

/// What the caller has to do next.
#[derive(Debug, PartialEq, Eq)]
pub enum Action {
    /// Open connection `conn` to node `node`.
    Open { node: usize, conn: u64 },
    /// Check that connection `conn` to node `node` is alive.
    Probe { node: usize, conn: u64 },
    /// Write the request's bytes to the connection and read one frame.
    Exchange { node: usize, conn: u64 },
    /// The request is over: hand this to whoever issued it.
    Done(Result<Frame, Error>),
    /// The request was over before, or is not of this session.
    Nothing,
}

/// What happened when the caller carried out an action.
#[derive(Debug, PartialEq, Eq)]
pub enum Event {
    /// The connection was opened, or answered its probe.
    Ready,
    /// The connection did not answer its probe.
    Stale,
    /// The bytes of the frame that arrived.
    Response(Vec<u8>),
    /// The connection could not be opened, or broke.
    Broken,
    /// Opening or reading took longer than allowed.
    TimedOut,
}

/// A request under way.
#[derive(Debug, PartialEq, Eq)]
pub struct Request {
    bytes: Vec<u8>,
    stream: u16,
    retries_left: usize,
    node: usize,
    conn: u64,
    phase: Phase,
}

/// A session: the balancer, one pool for each node, the stream id of the
/// next request, and how often a request is tried again after a connection
/// failed.
#[derive(Debug, PartialEq, Eq)]
pub struct Session {
    balancer: Balancer,
    pools: Vec<Pool>,
    next_stream: u16,
    retries: usize,
}

/// An action as a mathematical value.
pub enum ActionView {
    Open { node: int, conn: u64 },
    Probe { node: int, conn: u64 },
    Exchange { node: int, conn: u64 },
    Done(Result<FrameView, ErrorView>),
    Nothing,
}

/// An event as a mathematical value.
pub enum EventView {
    Ready,
    Stale,
    Response(Seq<u8>),
    Broken,
    TimedOut,
}

/// A request as a mathematical value.
pub struct RequestView {
    pub bytes: Seq<u8>,
    pub stream: u16,
    pub retries_left: nat,
    pub node: int,
    pub conn: u64,
    pub phase: Phase,
}

/// A session as a mathematical value.
pub struct SessionView {
    pub balancer: BalancerView,
    pub pools: Seq<PoolView>,
    pub next_stream: u16,
    pub retries: nat,
}

/// A session and a request after a step, and the action that the step asks
/// for.
pub struct Outcome {
    pub session: SessionView,
    pub request: RequestView,
    pub action: ActionView,
}

impl View for Action {
    type V = ActionView;

    open spec fn view(&self) -> ActionView {
        match self {
            Action::Open { node, conn } => ActionView::Open { node: *node as int, conn: *conn },
            Action::Probe { node, conn } => ActionView::Probe { node: *node as int, conn: *conn },
            Action::Exchange { node, conn } => ActionView::Exchange {
                node: *node as int,
                conn: *conn,
            },
            Action::Done(r) => ActionView::Done(outcome_view(*r)),
            Action::Nothing => ActionView::Nothing,
        }
    }
}

impl View for Event {
    type V = EventView;

    open spec fn view(&self) -> EventView {
        match self {
            Event::Ready => EventView::Ready,
            Event::Stale => EventView::Stale,
            Event::Response(bytes) => EventView::Response(bytes@),
            Event::Broken => EventView::Broken,
            Event::TimedOut => EventView::TimedOut,
        }
    }
}

impl View for Request {
    type V = RequestView;

    closed spec fn view(&self) -> RequestView {
        RequestView {
            bytes: self.bytes@,
            stream: self.stream,
            retries_left: self.retries_left as nat,
            node: self.node as int,
            conn: self.conn,
            phase: self.phase,
        }
    }
}

impl View for Session {
    type V = SessionView;

    closed spec fn view(&self) -> SessionView {
        SessionView {
            balancer: self.balancer@,
            pools: self.pools@.map_values(|p: Pool| p@),
            next_stream: self.next_stream,
            retries: self.retries as nat,
        }
    }
}

impl RequestView {
    /// The request with its outcome reported.
    pub open spec fn finished(self) -> RequestView {
        RequestView { phase: Phase::Finished, ..self }
    }

    /// The action that the request is waiting on.
    pub open spec fn pending(self) -> ActionView {
        match self.phase {
            Phase::Opening => ActionView::Open { node: self.node, conn: self.conn },
            Phase::Probing => ActionView::Probe { node: self.node, conn: self.conn },
            Phase::Awaiting => ActionView::Exchange { node: self.node, conn: self.conn },
            Phase::Finished => ActionView::Nothing,
        }
    }
}

impl SessionView {
    /// There is one pool for each node of the balancer.
    pub open spec fn wf(self) -> bool {
        self.balancer.wf() && self.pools.len() == self.balancer.up.len()
    }

    /// Whether the request is under way on a node of this session.
    pub open spec fn serves(self, r: RequestView) -> bool {
        r.phase != Phase::Finished && 0 <= r.node < self.pools.len()
    }

    /// The session with the pool of `node` replaced.
    pub open spec fn with_pool(self, node: int, p: PoolView) -> SessionView {
        SessionView { pools: self.pools.update(node, p), ..self }
    }

    /// The session with `node` marked unreachable.
    pub open spec fn with_node_down(self, node: int) -> SessionView {
        SessionView {
            balancer: BalancerView { up: self.balancer.up.update(node, false), ..self.balancer },
            ..self
        }
    }

    /// Starts an attempt: the balancer picks a node and the node's pool
    /// hands out a connection, to be probed or opened. Without a reachable
    /// node the request ends with `NoAvailableNode`; with the pool exhausted
    /// it ends with `PoolExhausted`.
    pub open spec fn dispatch(self, r: RequestView) -> Outcome {
        match self.balancer.choice() {
            None => Outcome {
                session: self,
                request: r.finished(),
                action: ActionView::Done(Err(ErrorView::NoAvailableNode)),
            },
            Some(node) => {
                let moved = SessionView { balancer: self.balancer.moved(), ..self };
                match self.pools[node].lease() {
                    None => Outcome {
                        session: moved,
                        request: r.finished(),
                        action: ActionView::Done(Err(ErrorView::PoolExhausted)),
                    },
                    Some(Lease::Reuse(conn)) => Outcome {
                        session: moved.with_pool(node, self.pools[node].acquired()),
                        request: RequestView { node, conn, phase: Phase::Probing, ..r },
                        action: ActionView::Probe { node, conn },
                    },
                    Some(Lease::Open(conn)) => Outcome {
                        session: moved.with_pool(node, self.pools[node].acquired()),
                        request: RequestView { node, conn, phase: Phase::Opening, ..r },
                        action: ActionView::Open { node, conn },
                    },
                }
            },
        }
    }

    /// Ends an attempt that failed on its connection: another attempt
    /// starts while the request has retries left, else the request ends
    /// with `error`.
    pub open spec fn fail(self, r: RequestView, error: ErrorView) -> Outcome {
        if r.retries_left > 0 {
            self.dispatch(RequestView { retries_left: (r.retries_left - 1) as nat, ..r })
        } else {
            Outcome {
                session: self,
                request: r.finished(),
                action: ActionView::Done(Err(error)),
            }
        }
    }

    /// The request to start for a statement: its frame on the session's
    /// next stream id, with all retries left.
    pub open spec fn request_for(self, q: QueryView) -> RequestView {
        RequestView {
            bytes: frame_bytes(q.frame(self.next_stream)),
            stream: self.next_stream,
            retries_left: self.retries,
            node: 0,
            conn: 0,
            phase: Phase::Finished,
        }
    }

    /// The start of a request. A statement that cannot be framed ends at
    /// once with a protocol error and leaves the session as it was; else the
    /// session moves on to the next stream id and the first attempt starts.
    pub open spec fn begin(self, q: QueryView) -> Outcome {
        if q.fits() && q.body().len() <= MAX_BODY_LEN {
            SessionView {
                next_stream: if self.next_stream == u16::MAX {
                    0
                } else {
                    (self.next_stream + 1) as u16
                },
                ..self
            }.dispatch(self.request_for(q))
        } else {
            Outcome {
                session: self,
                request: RequestView { bytes: Seq::empty(), ..self.request_for(q) },
                action: ActionView::Done(
                    Err(ErrorView::ProtocolError(ProtocolFault::Oversized)),
                ),
            }
        }
    }

    /// One step of a request.
    ///
    /// While opening: `Ready` leads to the exchange; `Broken` and `TimedOut`
    /// drop the connection, mark the node unreachable and fail the attempt
    /// with `ConnectError` or `Timeout`.
    /// While probing: `Ready` leads to the exchange; `Stale`, `Broken` and
    /// `TimedOut` replace the connection by a new one to open, or fail the
    /// attempt with `ConnectError` where none can be had.
    /// While awaiting the response: `Response` returns the connection to the
    /// pool and ends the request with what the bytes mean; `Broken` and
    /// `TimedOut` drop the connection and fail the attempt with
    /// `ConnectError` or `Timeout`.
    /// An event that does not fit the phase changes nothing and repeats the
    /// pending action.
    pub open spec fn step(self, r: RequestView, e: EventView) -> Outcome {
        if !self.serves(r) {
            Outcome { session: self, request: r, action: ActionView::Nothing }
        } else {
            let pool = self.pools[r.node];
            match (r.phase, e) {
                (Phase::Opening, EventView::Ready) | (Phase::Probing, EventView::Ready) => Outcome {
                    session: self,
                    request: RequestView { phase: Phase::Awaiting, ..r },
                    action: ActionView::Exchange { node: r.node, conn: r.conn },
                },
                (Phase::Opening, EventView::Broken) => self.with_pool(
                    r.node,
                    pool.evicted(r.conn),
                ).with_node_down(r.node).fail(r, ErrorView::ConnectError),
                (Phase::Opening, EventView::TimedOut) => self.with_pool(
                    r.node,
                    pool.evicted(r.conn),
                ).with_node_down(r.node).fail(r, ErrorView::Timeout),
                (Phase::Probing, EventView::Stale) | (Phase::Probing, EventView::Broken) | (
                    Phase::Probing,
                    EventView::TimedOut,
                ) => match pool.renewal(r.conn) {
                    Some(fresh) => Outcome {
                        session: self.with_pool(r.node, pool.renewed(r.conn)),
                        request: RequestView { conn: fresh, phase: Phase::Opening, ..r },
                        action: ActionView::Open { node: r.node, conn: fresh },
                    },
                    None => self.with_pool(r.node, pool.renewed(r.conn)).fail(
                        r,
                        ErrorView::ConnectError,
                    ),
                },
                (Phase::Awaiting, EventView::Response(bytes)) => Outcome {
                    session: self.with_pool(r.node, pool.released(r.conn)),
                    request: r.finished(),
                    action: ActionView::Done(response_spec(bytes, r.stream)),
                },
                (Phase::Awaiting, EventView::Broken) => self.with_pool(
                    r.node,
                    pool.evicted(r.conn),
                ).fail(r, ErrorView::ConnectError),
                (Phase::Awaiting, EventView::TimedOut) => self.with_pool(
                    r.node,
                    pool.evicted(r.conn),
                ).fail(r, ErrorView::Timeout),
                _ => Outcome { session: self, request: r, action: r.pending() },
            }
        }
    }
}

/// A request issued while every node is marked unreachable ends at once
/// with `NoAvailableNode`: no connection is asked for and nothing is waited
/// on. The same holds of an attempt that is started again after a failure.
pub proof fn lemma_no_node_fails_at_once(s: SessionView, q: QueryView, r: RequestView)
    requires
        s.wf(),
        all_down(s.balancer.up),
    ensures
        q.fits() && q.body().len() <= MAX_BODY_LEN ==> s.begin(q).action == ActionView::Done(
            Err(ErrorView::NoAvailableNode),
        ),
        s.dispatch(r).action == ActionView::Done(Err(ErrorView::NoAvailableNode)),
        s.dispatch(r).session == s,
{
    crate::balancer::lemma_pick_none_iff_all_down(s.balancer.up, s.balancer.origin());
}

/// A step never asks for more retries than the request has left: each new
/// attempt after a failure takes one, so a request ends after at most as
/// many failed attempts as the session allows, plus one.
pub proof fn lemma_retries_never_grow(s: SessionView, r: RequestView, e: EventView)
    ensures
        s.step(r, e).request.retries_left <= r.retries_left,
        s.fail(r, ErrorView::ConnectError).request.retries_left < r.retries_left || s.fail(
            r,
            ErrorView::ConnectError,
        ).request.phase == Phase::Finished,
{
}

fn pool_acquire(pools: &mut Vec<Pool>, node: usize) -> (r: Result<Lease, Error>)
    requires
        node < old(pools)@.len(),
    ensures
        final(pools)@.map_values(|p: Pool| p@) == old(pools)@.map_values(|p: Pool| p@).update(
            node as int,
            old(pools)@[node as int]@.acquired(),
        ),
        match r {
            Ok(lease) => old(pools)@[node as int]@.lease() == Some(lease),
            Err(e) => old(pools)@[node as int]@.lease() is None && e == Error::PoolExhausted,
        },
{
    let r = pools[node].acquire();
    assert(pools@.map_values(|p: Pool| p@) =~= old(pools)@.map_values(|p: Pool| p@).update(
        node as int,
        old(pools)@[node as int]@.acquired(),
    ));
    r
}

fn pool_release(pools: &mut Vec<Pool>, node: usize, conn: u64)
    requires
        node < old(pools)@.len(),
    ensures
        final(pools)@.map_values(|p: Pool| p@) == old(pools)@.map_values(|p: Pool| p@).update(
            node as int,
            old(pools)@[node as int]@.released(conn),
        ),
{
    pools[node].release(conn);
    assert(pools@.map_values(|p: Pool| p@) =~= old(pools)@.map_values(|p: Pool| p@).update(
        node as int,
        old(pools)@[node as int]@.released(conn),
    ));
}

fn pool_evict(pools: &mut Vec<Pool>, node: usize, conn: u64)
    requires
        node < old(pools)@.len(),
    ensures
        final(pools)@.map_values(|p: Pool| p@) == old(pools)@.map_values(|p: Pool| p@).update(
            node as int,
            old(pools)@[node as int]@.evicted(conn),
        ),
{
    pools[node].evict(conn);
    assert(pools@.map_values(|p: Pool| p@) =~= old(pools)@.map_values(|p: Pool| p@).update(
        node as int,
        old(pools)@[node as int]@.evicted(conn),
    ));
}

fn pool_renew(pools: &mut Vec<Pool>, node: usize, conn: u64) -> (fresh: Option<u64>)
    requires
        node < old(pools)@.len(),
    ensures
        final(pools)@.map_values(|p: Pool| p@) == old(pools)@.map_values(|p: Pool| p@).update(
            node as int,
            old(pools)@[node as int]@.renewed(conn),
        ),
        fresh == old(pools)@[node as int]@.renewal(conn),
{
    let fresh = pools[node].renew(conn);
    assert(pools@.map_values(|p: Pool| p@) =~= old(pools)@.map_values(|p: Pool| p@).update(
        node as int,
        old(pools)@[node as int]@.renewed(conn),
    ));
    fresh
}

impl Request {
    /// The bytes to write to the connection when the action is `Exchange`.
    pub fn bytes(&self) -> (b: &[u8])
        ensures
            b@ == self@.bytes,
    {
        self.bytes.as_slice()
    }

    /// The stream id that the response must carry.
    pub fn stream(&self) -> (s: u16)
        ensures
            s == self@.stream,
    {
        self.stream
    }

    /// Where the request stands.
    pub fn phase(&self) -> (p: Phase)
        ensures
            p == self@.phase,
    {
        self.phase
    }
}

impl Session {
    /// A session over `nodes` nodes, all reachable, each with an empty pool
    /// of at most `pool_size` connections. A request is tried again up to
    /// `retries` times after a connection failed.
    pub fn new(policy: Policy, nodes: usize, pool_size: usize, retries: usize) -> (s: Session)
        ensures
            s@.wf(),
            s@.balancer.policy == policy,
            s@.balancer.cursor == 0,
            s@.balancer.up.len() == nodes,
            crate::balancer::all_up(s@.balancer.up),
            forall|i: int| 0 <= i < nodes ==> #[trigger] s@.pools[i] == PoolView::empty(
                pool_size as nat,
            ),
            s@.next_stream == 0,
            s@.retries == retries,
    {
        let balancer = Balancer::new(policy, nodes);
        let mut pools: Vec<Pool> = Vec::new();
        let mut i: usize = 0;
        while i < nodes
            invariant
                i <= nodes,
                pools@.len() == i,
                forall|j: int| 0 <= j < i ==> (#[trigger] pools@[j])@ == PoolView::empty(
                    pool_size as nat,
                ),
            decreases nodes - i,
        {
            pools.push(Pool::new(pool_size));
            i = i + 1;
        }
        Session { balancer, pools, next_stream: 0, retries }
    }

    /// The number of nodes.
    pub fn nodes(&self) -> (n: usize)
        requires
            self@.wf(),
        ensures
            n == self@.pools.len(),
    {
        self.pools.len()
    }

    /// Whether `node` is marked reachable.
    pub fn is_node_up(&self, node: usize) -> (b: bool)
        ensures
            b == (node < self@.balancer.up.len() && self@.balancer.up[node as int]),
    {
        self.balancer.is_up(node)
    }

    /// Marks `node` reachable or unreachable. Nothing changes where there is
    /// no such node.
    pub fn set_node_up(&mut self, node: usize, up: bool)
        requires
            old(self)@.wf(),
        ensures
            final(self)@.wf(),
            final(self)@.pools == old(self)@.pools,
            final(self)@.next_stream == old(self)@.next_stream,
            final(self)@.retries == old(self)@.retries,
            final(self)@.balancer.cursor == old(self)@.balancer.cursor,
            final(self)@.balancer.policy == old(self)@.balancer.policy,
            node < old(self)@.balancer.up.len() ==> final(self)@.balancer.up == old(
                self,
            )@.balancer.up.update(node as int, up),
            node >= old(self)@.balancer.up.len() ==> final(self)@.balancer.up == old(
                self,
            )@.balancer.up,
    {
        self.balancer.set_up(node, up);
    }

    fn dispatch(&mut self, req: &mut Request) -> (action: Action)
        requires
            old(self)@.wf(),
        ensures
            final(self)@.wf(),
            (Outcome { session: final(self)@, request: final(req)@, action: action@ }) == old(
                self,
            )@.dispatch(old(req)@),
    {
        let node = match self.balancer.next() {
            Ok(node) => node,
            Err(_) => {
                req.phase = Phase::Finished;
                return Action::Done(Err(Error::NoAvailableNode));
            },
        };
        match pool_acquire(&mut self.pools, node) {
            Err(_) => {
                req.phase = Phase::Finished;
                assert(self@.pools =~= old(self)@.pools);
                Action::Done(Err(Error::PoolExhausted))
            },
            Ok(Lease::Reuse(conn)) => {
                req.node = node;
                req.conn = conn;
                req.phase = Phase::Probing;
                Action::Probe { node, conn }
            },
            Ok(Lease::Open(conn)) => {
                req.node = node;
                req.conn = conn;
                req.phase = Phase::Opening;
                Action::Open { node, conn }
            },
        }
    }

    fn fail(&mut self, req: &mut Request, error: Error) -> (action: Action)
        requires
            old(self)@.wf(),
        ensures
            final(self)@.wf(),
            (Outcome { session: final(self)@, request: final(req)@, action: action@ }) == old(
                self,
            )@.fail(old(req)@, error@),
    {
        if req.retries_left > 0 {
            req.retries_left = req.retries_left - 1;
            self.dispatch(req)
        } else {
            req.phase = Phase::Finished;
            Action::Done(Err(error))
        }
    }

    /// Starts a request for `q` and says what to do first.
    pub fn begin(&mut self, q: &Query) -> (r: (Request, Action))
        requires
            old(self)@.wf(),
        ensures
            final(self)@.wf(),
            (Outcome { session: final(self)@, request: r.0@, action: r.1@ }) == old(self)@.begin(
                q@,
            ),
    {
        let stream: u16 = self.next_stream;
        let mut req = Request {
            bytes: Vec::new(),
            stream,
            retries_left: self.retries,
            node: 0,
            conn: 0,
            phase: Phase::Finished,
        };
        match encode_query_frame(q, stream) {
            Err(e) => (req, Action::Done(Err(e))),
            Ok(bytes) => {
                req.bytes = bytes;
                self.next_stream = if stream == u16::MAX {
                    0
                } else {
                    stream + 1
                };
                let action = self.dispatch(&mut req);
                (req, action)
            },
        }
    }

    /// Starts a request for a statement without bound values, at
    /// consistency level one.
    pub fn query(&mut self, text: &str) -> (r: (Request, Action))
        requires
            old(self)@.wf(),
        ensures
            final(self)@.wf(),
            (Outcome { session: final(self)@, request: r.0@, action: r.1@ }) == old(self)@.begin(
                QueryView { text: text@, values: None, consistency: Consistency::One },
            ),
    {
        let q = Query::new(text);
        self.begin(&q)
    }

    /// Starts a request for a statement with bound values, at consistency
    /// level one.
    pub fn query_with_values(&mut self, text: &str, values: QueryValues) -> (r: (Request, Action))
        requires
            old(self)@.wf(),
        ensures
            final(self)@.wf(),
            (Outcome { session: final(self)@, request: r.0@, action: r.1@ }) == old(self)@.begin(
                QueryView { text: text@, values: Some(values@), consistency: Consistency::One },
            ),
    {
        let q = Query::with_values(text, values);
        self.begin(&q)
    }

    /// Takes what happened to the pending action and says what to do next.
    pub fn step(&mut self, req: &mut Request, event: Event) -> (action: Action)
        requires
            old(self)@.wf(),
        ensures
            final(self)@.wf(),
            (Outcome { session: final(self)@, request: final(req)@, action: action@ }) == old(
                self,
            )@.step(old(req)@, event@),
    {
        let node: usize = req.node;
        let conn: u64 = req.conn;
        if node >= self.pools.len() {
            return Action::Nothing;
        }
        match req.phase {
            Phase::Finished => Action::Nothing,
            Phase::Opening => match event {
                Event::Ready => {
                    req.phase = Phase::Awaiting;
                    Action::Exchange { node, conn }
                },
                Event::Broken => {
                    pool_evict(&mut self.pools, node, conn);
                    self.balancer.set_up(node, false);
                    self.fail(req, Error::ConnectError)
                },
                Event::TimedOut => {
                    pool_evict(&mut self.pools, node, conn);
                    self.balancer.set_up(node, false);
                    self.fail(req, Error::Timeout)
                },
                _ => Action::Open { node, conn },
            },
            Phase::Probing => match event {
                Event::Ready => {
                    req.phase = Phase::Awaiting;
                    Action::Exchange { node, conn }
                },
                Event::Stale | Event::Broken | Event::TimedOut => {
                    match pool_renew(&mut self.pools, node, conn) {
                        Some(fresh) => {
                            req.conn = fresh;
                            req.phase = Phase::Opening;
                            Action::Open { node, conn: fresh }
                        },
                        None => self.fail(req, Error::ConnectError),
                    }
                },
                Event::Response(_) => Action::Probe { node, conn },
            },
            Phase::Awaiting => match event {
                Event::Response(bytes) => {
                    pool_release(&mut self.pools, node, conn);
                    req.phase = Phase::Finished;
                    Action::Done(interpret_response(bytes.as_slice(), req.stream))
                },
                Event::Broken => {
                    pool_evict(&mut self.pools, node, conn);
                    self.fail(req, Error::ConnectError)
                },
                Event::TimedOut => {
                    pool_evict(&mut self.pools, node, conn);
                    self.fail(req, Error::Timeout)
                },
                _ => Action::Exchange { node, conn },
            },
        }
    }
}

} // verus!
