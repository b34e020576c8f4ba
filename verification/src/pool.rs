//! Book-keeping for the connections to one node: which are idle, which are
//! lent out, and how many there may be.
//!
//! The pool hands out connection numbers, not sockets. Its caller opens,
//! probes and closes the sockets, and keeps the pool behind a lock where
//! several threads use it: every method that changes the pool takes it by
//! exclusive reference.

use vstd::prelude::*;
use crate::error::Error;

verus! {

/// What to do with a connection that was just handed out.
#[derive(Clone, Copy, Debug, PartialEq, Eq, Structural)]
pub enum Lease {
    /// An idle connection: probe it before use.
    Reuse(u64),
    /// A new connection: open it before use.
    Open(u64),
}

impl Lease {
    /// The connection's number.
    pub open spec fn spec_id(self) -> u64 {
        match self {
            Lease::Reuse(id) => id,
            Lease::Open(id) => id,
        }
    }

    #[verifier::when_used_as_spec(spec_id)]
    pub fn id(self) -> (id: u64)
        ensures
            id == self.spec_id(),
    {
        match self {
            Lease::Reuse(id) => id,
            Lease::Open(id) => id,
        }
    }
}

/// One operation on a pool.
pub enum PoolOp {
    Acquire,
    Release(u64),
    Evict(u64),
    Renew(u64),
}

/// A pool as a mathematical value.
pub struct PoolView {
    /// The most connections the pool may have.
    pub max: nat,
    /// The idle connections; the last one is handed out first.
    pub idle: Seq<u64>,
    /// The connections lent out.
    pub lent: Set<u64>,
    /// The number that the next new connection gets.
    pub next_id: u64,
}

impl PoolView {
    /// An empty pool.
    pub open spec fn empty(max: nat) -> PoolView {
        PoolView { max, idle: Seq::empty(), lent: Set::empty(), next_id: 0 }
    }

    /// No connection occurs twice, none is idle and lent at once, and there
    /// are no more than the pool allows.
    pub open spec fn wf(self) -> bool {
        &&& self.lent.finite()
        &&& self.idle.no_duplicates()
        &&& self.idle.len() + self.lent.len() <= self.max
        &&& forall|i: int| 0 <= i < self.idle.len() ==> !self.lent.contains(#[trigger] self.idle[i])
        &&& forall|i: int| 0 <= i < self.idle.len() ==> (#[trigger] self.idle[i]) < self.next_id
        &&& forall|id: u64| self.lent.contains(id) ==> id < self.next_id
    }

    /// Whether a new connection may be opened.
    pub open spec fn has_room(self) -> bool {
        self.idle.len() + self.lent.len() < self.max && self.next_id < u64::MAX
    }

    /// What `acquire` hands out: the idle connection released last, else a
    /// new one where there is room, else nothing.
    pub open spec fn lease(self) -> Option<Lease> {
        if self.idle.len() > 0 {
            Some(Lease::Reuse(self.idle.last()))
        } else if self.has_room() {
            Some(Lease::Open(self.next_id))
        } else {
            None
        }
    }

    /// The pool after `acquire`.
    pub open spec fn acquired(self) -> PoolView {
        match self.lease() {
            Some(Lease::Reuse(id)) => PoolView {
                idle: self.idle.drop_last(),
                lent: self.lent.insert(id),
                ..self
            },
            Some(Lease::Open(id)) => PoolView {
                lent: self.lent.insert(id),
                next_id: (self.next_id + 1) as u64,
                ..self
            },
            None => self,
        }
    }

    /// The pool after `release(id)`: a lent connection becomes idle.
    pub open spec fn released(self, id: u64) -> PoolView {
        if self.lent.contains(id) {
            PoolView { idle: self.idle.push(id), lent: self.lent.remove(id), ..self }
        } else {
            self
        }
    }

    /// The pool after `evict(id)`: a lent connection leaves the pool.
    pub open spec fn evicted(self, id: u64) -> PoolView {
        PoolView { lent: self.lent.remove(id), ..self }
    }

    /// What `renew(id)` hands out in place of a lent connection that has
    /// failed its probe.
    pub open spec fn renewal(self, id: u64) -> Option<u64> {
        if self.lent.contains(id) && self.next_id < u64::MAX {
            Some(self.next_id)
        } else {
            None
        }
    }

    /// The pool after `renew(id)`.
    pub open spec fn renewed(self, id: u64) -> PoolView {
        match self.renewal(id) {
            Some(fresh) => PoolView {
                lent: self.lent.remove(id).insert(fresh),
                next_id: (self.next_id + 1) as u64,
                ..self
            },
            None => self.evicted(id),
        }
    }

    /// The pool after one operation.
    pub open spec fn apply(self, op: PoolOp) -> PoolView {
        match op {
            PoolOp::Acquire => self.acquired(),
            PoolOp::Release(id) => self.released(id),
            PoolOp::Evict(id) => self.evicted(id),
            PoolOp::Renew(id) => self.renewed(id),
        }
    }

    /// The pool after a sequence of operations.
    pub open spec fn run(self, ops: Seq<PoolOp>) -> PoolView
        decreases ops.len(),
    {
        if ops.len() == 0 {
            self
        } else {
            self.run(ops.drop_last()).apply(ops.last())
        }
    }
}

/// Every operation keeps a pool well formed.
pub proof fn lemma_apply_keeps_wf(p: PoolView, op: PoolOp)
    requires
        p.wf(),
    ensures
        p.apply(op).wf(),
{
    match op {
        PoolOp::Acquire => {
            match p.lease() {
                Some(Lease::Reuse(id)) => {
                    let q = p.acquired();
                    assert(id == p.idle[p.idle.len() - 1]);
                    assert forall|i: int| 0 <= i < q.idle.len() implies !q.lent.contains(
                        #[trigger] q.idle[i],
                    ) by {
                        assert(q.idle[i] == p.idle[i]);
                    }
                    assert forall|i: int| 0 <= i < q.idle.len() implies (#[trigger] q.idle[i])
                        < q.next_id by {
                        assert(q.idle[i] == p.idle[i]);
                    }
                },
                Some(Lease::Open(id)) => {
                    let q = p.acquired();
                    assert forall|i: int| 0 <= i < q.idle.len() implies !q.lent.contains(
                        #[trigger] q.idle[i],
                    ) by {
                        assert(p.idle[i] < p.next_id);
                    }
                },
                None => {},
            }
        },
        PoolOp::Release(id) => {
            if p.lent.contains(id) {
                let q = p.released(id);
                assert forall|i: int, j: int|
                    0 <= i < q.idle.len() && 0 <= j < q.idle.len() && i != j implies q.idle[i]
                    != q.idle[j] by {
                    if i < p.idle.len() {
                        assert(!p.lent.contains(p.idle[i]));
                    }
                    if j < p.idle.len() {
                        assert(!p.lent.contains(p.idle[j]));
                    }
                }
                assert forall|i: int| 0 <= i < q.idle.len() implies !q.lent.contains(
                    #[trigger] q.idle[i],
                ) by {
                    if i < p.idle.len() {
                        assert(q.idle[i] == p.idle[i]);
                    }
                }
                assert forall|i: int| 0 <= i < q.idle.len() implies (#[trigger] q.idle[i])
                    < q.next_id by {
                    if i < p.idle.len() {
                        assert(q.idle[i] == p.idle[i]);
                    }
                }
            }
        },
        PoolOp::Evict(id) => {},
        PoolOp::Renew(id) => {
            match p.renewal(id) {
                Some(fresh) => {
                    let q = p.renewed(id);
                    assert forall|i: int| 0 <= i < q.idle.len() implies !q.lent.contains(
                        #[trigger] q.idle[i],
                    ) by {
                        assert(p.idle[i] < p.next_id);
                    }
                },
                None => {},
            }
        },
    }
}

/// Whatever is acquired, released, evicted and renewed, in whatever order:
/// the pool stays well formed, and the connection that `acquire` would hand
/// out next is not lent to anyone.
pub proof fn lemma_never_lent_twice(max: nat, ops: Seq<PoolOp>)
    ensures
        PoolView::empty(max).run(ops).wf(),
        PoolView::empty(max).run(ops).lease() is Some ==> !PoolView::empty(max).run(
            ops,
        ).lent.contains(PoolView::empty(max).run(ops).lease()->0.spec_id()),
    decreases ops.len(),
{
    let p = PoolView::empty(max).run(ops);
    if ops.len() > 0 {
        lemma_never_lent_twice(max, ops.drop_last());
        lemma_apply_keeps_wf(PoolView::empty(max).run(ops.drop_last()), ops.last());
    }
    lemma_lease_is_free(p);
}

/// In a well-formed pool the connection that `acquire` would hand out is not
/// lent.
pub proof fn lemma_lease_is_free(p: PoolView)
    requires
        p.wf(),
    ensures
        p.lease() is Some ==> !p.lent.contains(p.lease()->0.spec_id()),
{
    if p.idle.len() > 0 {
        assert(p.idle.last() == p.idle[p.idle.len() - 1]);
    }
}

/// The connections to one node.
#[derive(Debug, PartialEq, Eq)]
pub struct Pool {
    max: usize,
    idle: Vec<u64>,
    lent: Vec<u64>,
    next_id: u64,
}

impl View for Pool {
    type V = PoolView;

    closed spec fn view(&self) -> PoolView {
        PoolView {
            max: self.max as nat,
            idle: self.idle@,
            lent: self.lent@.to_set(),
            next_id: self.next_id,
        }
    }
}

proof fn lemma_push_set(s: Seq<u64>, id: u64)
    ensures
        s.push(id).to_set() == s.to_set().insert(id),
        s.no_duplicates() && !s.contains(id) ==> s.push(id).no_duplicates(),
{
    let t = s.push(id);
    assert forall|x: u64| t.to_set().contains(x) <==> s.to_set().insert(id).contains(x) by {
        if t.contains(x) {
            let i = choose|i: int| 0 <= i < t.len() && t[i] == x;
            if i < s.len() {
                assert(s[i] == x);
            }
        }
        if s.contains(x) {
            let i = choose|i: int| 0 <= i < s.len() && s[i] == x;
            assert(t[i] == x);
        }
        if x == id {
            assert(t[s.len() as int] == id);
        }
    }
    assert(t.to_set() =~= s.to_set().insert(id));
}

proof fn lemma_remove_set(s: Seq<u64>, i: int)
    requires
        s.no_duplicates(),
        0 <= i < s.len(),
    ensures
        s.remove(i).to_set() == s.to_set().remove(s[i]),
        s.remove(i).no_duplicates(),
{
    let t = s.remove(i);
    assert forall|x: u64| t.to_set().contains(x) <==> s.to_set().remove(s[i]).contains(x) by {
        if t.contains(x) {
            let j = choose|j: int| 0 <= j < t.len() && t[j] == x;
            if j < i {
                assert(s[j] == x);
            } else {
                assert(s[j + 1] == x);
            }
        }
        if s.contains(x) && x != s[i] {
            let j = choose|j: int| 0 <= j < s.len() && s[j] == x;
            if j < i {
                assert(t[j] == x);
            } else {
                assert(t[j - 1] == x);
            }
        }
    }
    assert(t.to_set() =~= s.to_set().remove(s[i]));
}

fn index_of(v: &Vec<u64>, id: u64) -> (r: Option<usize>)
    ensures
        match r {
            Some(i) => i < v@.len() && v@[i as int] == id,
            None => !v@.contains(id),
        },
{
    let mut i: usize = 0;
    while i < v.len()
        invariant
            i <= v@.len(),
            forall|j: int| 0 <= j < i ==> v@[j] != id,
        decreases v@.len() - i,
    {
        if v[i] == id {
            return Some(i);
        }
        i = i + 1;
    }
    None
}

impl Pool {
    #[verifier::type_invariant]
    spec fn well_formed(self) -> bool {
        &&& self.lent@.no_duplicates()
        &&& self.idle@.no_duplicates()
        &&& self.idle@.len() + self.lent@.len() <= self.max
        &&& forall|i: int| 0 <= i < self.idle@.len() ==> !self.lent@.contains(#[trigger] self.idle@[i])
        &&& forall|i: int| 0 <= i < self.idle@.len() ==> (#[trigger] self.idle@[i]) < self.next_id
        &&& forall|i: int| 0 <= i < self.lent@.len() ==> (#[trigger] self.lent@[i]) < self.next_id
    }

    /// An empty pool that may hold up to `max` connections.
    pub fn new(max: usize) -> (p: Pool)
        ensures
            p@ == PoolView::empty(max as nat),
    {
        let p = Pool { max, idle: Vec::new(), lent: Vec::new(), next_id: 0 };
        assert(p.lent@.to_set() =~= Set::<u64>::empty());
        p
    }

    /// The number of connections lent out.
    pub fn lent_count(&self) -> (n: usize)
        ensures
            n == self@.lent.len(),
    {
        proof {
            use_type_invariant(self);
            self.lent@.unique_seq_to_set();
        }
        self.lent.len()
    }

    /// The number of idle connections.
    pub fn idle_count(&self) -> (n: usize)
        ensures
            n == self@.idle.len(),
    {
        self.idle.len()
    }

    /// Whether connection `id` is lent out.
    pub fn is_lent(&self, id: u64) -> (b: bool)
        ensures
            b == self@.lent.contains(id),
    {
        index_of(&self.lent, id).is_some()
    }

    /// Hands out a connection: the idle one released last, to be probed, or
    /// a new one, to be opened. The connection handed out was not lent, and
    /// is lent from now on. It fails with `PoolExhausted`, with nothing
    /// changed, exactly where no connection is idle and none may be added.
    pub fn acquire(&mut self) -> (r: Result<Lease, Error>)
        ensures
            final(self)@ == old(self)@.acquired(),
            match r {
                Ok(lease) => old(self)@.lease() == Some(lease) && !old(self)@.lent.contains(
                    lease.spec_id(),
                ),
                Err(e) => old(self)@.lease() is None && e == Error::PoolExhausted,
            },
    {
        proof {
            use_type_invariant(&*self);
            self.lent@.unique_seq_to_set();
        }
        if self.idle.len() > 0 {
            let n: usize = self.idle.len();
            let id: u64 = self.idle[n - 1];
            proof {
                lemma_push_set(self.lent@, id);
                assert(self.idle@[n - 1] == id);
            }
            let mut idle: Vec<u64> = Vec::new();
            std::mem::swap(&mut idle, &mut self.idle);
            idle.pop();
            self.idle = idle;
            let mut lent: Vec<u64> = Vec::new();
            std::mem::swap(&mut lent, &mut self.lent);
            lent.push(id);
            self.lent = lent;
            assert(self@.idle =~= old(self)@.idle.drop_last());
            Ok(Lease::Reuse(id))
        } else if self.lent.len() < self.max && self.next_id < u64::MAX {
            let id: u64 = self.next_id;
            proof {
                lemma_push_set(self.lent@, id);
                assert(!self.lent@.contains(id)) by {
                    if self.lent@.contains(id) {
                        let i = choose|i: int| 0 <= i < self.lent@.len() && self.lent@[i] == id;
                        assert(self.lent@[i] < self.next_id);
                    }
                }
            }
            self.next_id = id + 1;
            let mut lent: Vec<u64> = Vec::new();
            std::mem::swap(&mut lent, &mut self.lent);
            lent.push(id);
            self.lent = lent;
            assert(self@.idle =~= old(self)@.idle);
            Ok(Lease::Open(id))
        } else {
            Err(Error::PoolExhausted)
        }
    }

    /// Takes back a lent connection: it becomes idle, and is the next to be
    /// handed out. `false`, with nothing changed, where `id` is not lent.
    pub fn release(&mut self, id: u64) -> (was_lent: bool)
        ensures
            was_lent == old(self)@.lent.contains(id),
            final(self)@ == old(self)@.released(id),
    {
        proof {
            use_type_invariant(&*self);
        }
        match index_of(&self.lent, id) {
            Some(i) => {
                proof {
                    lemma_remove_set(self.lent@, i as int);
                    lemma_push_set(self.idle@, id);
                    assert(!self.idle@.contains(id)) by {
                        if self.idle@.contains(id) {
                            let j = choose|j: int| 0 <= j < self.idle@.len() && self.idle@[j] == id;
                            assert(!self.lent@.contains(self.idle@[j]));
                        }
                    }
                }
                let mut lent: Vec<u64> = Vec::new();
                std::mem::swap(&mut lent, &mut self.lent);
                lent.remove(i);
                self.lent = lent;
                let mut idle: Vec<u64> = Vec::new();
                std::mem::swap(&mut idle, &mut self.idle);
                idle.push(id);
                self.idle = idle;
                true
            },
            None => false,
        }
    }

    /// Drops a lent connection from the pool, as after a failure on it.
    /// `false`, with nothing changed, where `id` is not lent.
    pub fn evict(&mut self, id: u64) -> (was_lent: bool)
        ensures
            was_lent == old(self)@.lent.contains(id),
            final(self)@ == old(self)@.evicted(id),
    {
        proof {
            use_type_invariant(&*self);
        }
        match index_of(&self.lent, id) {
            Some(i) => {
                proof {
                    lemma_remove_set(self.lent@, i as int);
                }
                let mut lent: Vec<u64> = Vec::new();
                std::mem::swap(&mut lent, &mut self.lent);
                lent.remove(i);
                self.lent = lent;
                true
            },
            None => {
                assert(self@.lent.remove(id) =~= self@.lent);
                false
            },
        }
    }

    /// Replaces a lent connection that failed its probe: `id` leaves the
    /// pool and a new connection, to be opened, is lent in its place. `None`
    /// where `id` is not lent or the numbers have run out; `id` is gone
    /// either way.
    pub fn renew(&mut self, id: u64) -> (fresh: Option<u64>)
        ensures
            fresh == old(self)@.renewal(id),
            final(self)@ == old(self)@.renewed(id),
            fresh is Some ==> !old(self)@.lent.contains(fresh->0),
    {
        proof {
            use_type_invariant(&*self);
        }
        match index_of(&self.lent, id) {
            Some(i) => {
                proof {
                    lemma_remove_set(self.lent@, i as int);
                }
                let mut lent: Vec<u64> = Vec::new();
                std::mem::swap(&mut lent, &mut self.lent);
                lent.remove(i);
                if self.next_id < u64::MAX {
                    let fresh: u64 = self.next_id;
                    proof {
                        lemma_push_set(lent@, fresh);
                        assert(!old(self).lent@.contains(fresh)) by {
                            if old(self).lent@.contains(fresh) {
                                let j = choose|j: int|
                                    0 <= j < old(self).lent@.len() && old(self).lent@[j] == fresh;
                                assert(old(self).lent@[j] < old(self).next_id);
                            }
                        }
                    }
                    self.next_id = fresh + 1;
                    lent.push(fresh);
                    self.lent = lent;
                    Some(fresh)
                } else {
                    self.lent = lent;
                    None
                }
            },
            None => {
                assert(self@.lent.remove(id) =~= self@.lent);
                None
            },
        }
    }
}

} // verus!
