//! The bounded resource pool: lazy construction up to a fixed capacity,
//! exclusively owned handles identified by resource ids, and a
//! first-in-first-out queue of waiting callers.
//!
//! The pool holds only bookkeeping: which resource ids are idle, which are
//! lent out, how many constructions are in flight, and which callers wait.
//! The expensive work — running the factory, running a computation — happens
//! outside the pool, between calls into it.

use vstd::prelude::*;

verus! {

/// The mathematical model of a pool: the view of [`ResourcePool`].
#[verifier::ext_equal]
pub struct PoolModel {
    /// Maximum number of simultaneously existing resource instances.
    pub capacity: nat,
    /// Ids of constructed resources currently not lent out.
    pub idle: Seq<u64>,
    /// Ids of resources currently lent out to callers.
    pub lent: Seq<u64>,
    /// Number of construction slots handed out whose factory call has not
    /// reported back yet.
    pub pending: nat,
    /// Ids of suspended acquire callers, earliest first.
    pub waiters: Seq<u64>,
    /// The id the next successfully constructed resource will get; also the
    /// number of successful constructions so far.
    pub next_id: u64,
    /// Number of resources permanently removed from circulation.
    pub discarded: nat,
}

/// No element occurs twice in `s`.
pub open spec fn distinct(s: Seq<u64>) -> bool {
    forall|i: int, j: int| 0 <= i < j < s.len() ==> s[i] != s[j]
}

impl PoolModel {
    /// Number of live resource instances: constructed and not discarded.
    pub open spec fn live(self) -> nat {
        self.idle.len() + self.lent.len()
    }

    /// The pool's invariant.
    ///
    /// - the live instances plus in-flight constructions never exceed the
    ///   capacity;
    /// - every id is held by at most one handle or idle slot at a time;
    /// - ids are allocated below `next_id`;
    /// - waiting callers are registered at most once;
    /// - every successful construction is accounted for: it is idle, lent,
    ///   or discarded.
    pub open spec fn wf(self) -> bool {
        &&& self.live() + self.pending <= self.capacity
        &&& distinct(self.idle)
        &&& distinct(self.lent)
        &&& (forall|id: u64| !(self.idle.contains(id) && self.lent.contains(id)))
        &&& (forall|i: int| 0 <= i < self.idle.len() ==> self.idle[i] < self.next_id)
        &&& (forall|i: int| 0 <= i < self.lent.len() ==> self.lent[i] < self.next_id)
        &&& distinct(self.waiters)
        &&& self.live() + self.discarded == self.next_id
    }

    /// The state of a pool that has never lent anything out.
    pub open spec fn init(capacity: nat) -> PoolModel {
        PoolModel {
            capacity,
            idle: Seq::empty(),
            lent: Seq::empty(),
            pending: 0,
            waiters: Seq::empty(),
            next_id: 0,
            discarded: 0,
        }
    }
}

/// The pool's own error: a handle was given back that it never lent out.
#[derive(Clone, Copy, PartialEq, Eq, Structural, Debug)]
pub enum PoolError {
    /// `release` or `discard` was called with a resource id that is not
    /// currently lent out by this pool: either it was never acquired here,
    /// or it was already given back.
    InvalidHandle,
}

/// What `release` did with the returned handle.
#[derive(Clone, Copy, PartialEq, Eq, Structural, Debug)]
pub enum ReleaseOutcome {
    /// No caller was waiting: the handle went back to the idle set.
    Idled,
    /// The handle was handed directly to the longest-waiting caller, who
    /// now owns it; the caller that released it must wake that waiter.
    HandedOver { waiter_id: u64 },
}

/// What an `acquire` call is told to do next.
#[derive(Clone, Copy, PartialEq, Eq, Structural, Debug)]
pub enum AcquireOutcome {
    /// An idle resource was handed over; compute with it, then release it.
    Granted { resource_id: u64 },
    /// A construction slot was reserved for this caller: run the factory,
    /// then report back with `construction_succeeded` or
    /// `construction_failed`.
    MustConstruct,
    /// The pool is at capacity; the caller was queued and will be woken with
    /// either a handed-over resource or a construction slot.
    Enqueued,
}

impl PoolModel {
    /// The pool state after a successful factory run: the fresh resource,
    /// with id `next_id`, is lent to the caller that held the slot.
    pub open spec fn post_construct_ok(self) -> PoolModel {
        PoolModel {
            lent: self.lent.push(self.next_id),
            pending: (self.pending - 1) as nat,
            next_id: (self.next_id + 1) as u64,
            ..self
        }
    }

    /// Whom a failed factory run hands its freed slot to: the
    /// longest-waiting caller, if any.
    pub open spec fn construct_fail_woken(self) -> Option<u64> {
        if self.waiters.len() > 0 {
            Some(self.waiters[0])
        } else {
            None
        }
    }

    /// The pool state after a failed factory run: the slot transfers to the
    /// first waiter, or — with nobody waiting — is simply freed.
    pub open spec fn post_construct_fail(self) -> PoolModel {
        if self.waiters.len() > 0 {
            PoolModel { waiters: self.waiters.drop_first(), ..self }
        } else {
            PoolModel { pending: (self.pending - 1) as nat, ..self }
        }
    }

    /// What `release` answers in state `self`.
    pub open spec fn release_outcome(self, resource_id: u64) -> Result<ReleaseOutcome, PoolError> {
        if !self.lent.contains(resource_id) {
            Err(PoolError::InvalidHandle)
        } else if self.waiters.len() > 0 {
            Ok(ReleaseOutcome::HandedOver { waiter_id: self.waiters[0] })
        } else {
            Ok(ReleaseOutcome::Idled)
        }
    }

    /// The pool state after `release`: on an invalid handle nothing changes;
    /// otherwise the handle either stays lent — now to the first waiter — or
    /// moves to the idle set.
    pub open spec fn post_release(self, resource_id: u64) -> PoolModel {
        if !self.lent.contains(resource_id) {
            self
        } else if self.waiters.len() > 0 {
            PoolModel { waiters: self.waiters.drop_first(), ..self }
        } else {
            PoolModel {
                lent: self.lent.remove_value(resource_id),
                idle: self.idle.push(resource_id),
                ..self
            }
        }
    }

    /// What `discard` answers in state `self`.
    pub open spec fn discard_outcome(self, resource_id: u64) -> Result<Option<u64>, PoolError> {
        if !self.lent.contains(resource_id) {
            Err(PoolError::InvalidHandle)
        } else if self.waiters.len() > 0 {
            Ok(Some(self.waiters[0]))
        } else {
            Ok(None)
        }
    }

    /// The pool state after `discard`: the handle leaves circulation; the
    /// freed construction slot goes to the first waiter, if any.
    pub open spec fn post_discard(self, resource_id: u64) -> PoolModel {
        if !self.lent.contains(resource_id) {
            self
        } else if self.waiters.len() > 0 {
            PoolModel {
                lent: self.lent.remove_value(resource_id),
                discarded: self.discarded + 1,
                pending: self.pending + 1,
                waiters: self.waiters.drop_first(),
                ..self
            }
        } else {
            PoolModel {
                lent: self.lent.remove_value(resource_id),
                discarded: self.discarded + 1,
                ..self
            }
        }
    }

    /// The pool state after a waiting caller withdraws.
    pub open spec fn post_cancel(self, waiter_id: u64) -> PoolModel {
        PoolModel { waiters: self.waiters.remove_value(waiter_id), ..self }
    }

    /// What `acquire` answers in state `self`.
    pub open spec fn acquire_outcome(self) -> AcquireOutcome {
        if self.idle.len() > 0 {
            AcquireOutcome::Granted { resource_id: self.idle.last() }
        } else if self.live() + self.pending < self.capacity {
            AcquireOutcome::MustConstruct
        } else {
            AcquireOutcome::Enqueued
        }
    }

    /// The pool state after `acquire`.
    pub open spec fn post_acquire(self, waiter_id: u64) -> PoolModel {
        if self.idle.len() > 0 {
            PoolModel { idle: self.idle.drop_last(), lent: self.lent.push(self.idle.last()), ..self }
        } else if self.live() + self.pending < self.capacity {
            PoolModel { pending: self.pending + 1, ..self }
        } else {
            PoolModel { waiters: self.waiters.push(waiter_id), ..self }
        }
    }
}

/// The bounded pool of resource handles.
///
/// Resources themselves live with the caller; the pool tracks them by id.
/// A handle is a resource id handed out by `acquire` (or by a release that
/// woke this caller) and given back through `release` or `discard`.
pub struct ResourcePool {
    capacity: usize,
    idle: Vec<u64>,
    lent: Vec<u64>,
    pending: usize,
    waiters: Vec<u64>,
    next_id: u64,
    discarded: usize,
}

impl View for ResourcePool {
    type V = PoolModel;

    closed spec fn view(&self) -> PoolModel {
        PoolModel {
            capacity: self.capacity as nat,
            idle: self.idle@,
            lent: self.lent@,
            pending: self.pending as nat,
            waiters: self.waiters@,
            next_id: self.next_id,
            discarded: self.discarded as nat,
        }
    }
}

impl ResourcePool {
    /// A fresh pool that will construct at most `capacity` resources
    /// at a time.
    pub fn new(capacity: usize) -> (p: ResourcePool)
        ensures
            p@ == PoolModel::init(capacity as nat),
            p@.wf(),
    {
        let p = ResourcePool {
            capacity,
            idle: Vec::new(),
            lent: Vec::new(),
            pending: 0,
            waiters: Vec::new(),
            next_id: 0,
            discarded: 0,
        };
        proof {
            assert(p@ =~= PoolModel::init(capacity as nat));
        }
        p
    }

    /// Ask for a resource. Either an idle one is granted, or the caller is
    /// given a construction slot, or — with the pool at capacity — the caller
    /// is queued under `waiter_id`, behind every earlier waiter.
    pub fn acquire(&mut self, waiter_id: u64) -> (out: AcquireOutcome)
        requires
            old(self)@.wf(),
            !old(self)@.waiters.contains(waiter_id),
        ensures
            out == old(self)@.acquire_outcome(),
            final(self)@ == old(self)@.post_acquire(waiter_id),
            final(self)@.wf(),
    {
        if self.idle.len() > 0 {
            let id = self.idle.pop().unwrap();
            self.lent.push(id);
            proof {
                let m = old(self)@;
                assert(m.idle.last() == id);
                assert(self@ =~= m.post_acquire(waiter_id));
                lemma_acquire_grant_wf(m, waiter_id);
            }
            AcquireOutcome::Granted { resource_id: id }
        } else if self.lent.len() < self.capacity - self.pending {
            self.pending = self.pending + 1;
            proof {
                assert(self@ =~= old(self)@.post_acquire(waiter_id));
            }
            AcquireOutcome::MustConstruct
        } else {
            self.waiters.push(waiter_id);
            proof {
                let m = old(self)@;
                assert(self@ =~= m.post_acquire(waiter_id));
                assert forall|i: int, j: int|
                    0 <= i < j < self@.waiters.len() implies self@.waiters[i] != self@.waiters[j] by {
                    if j == self@.waiters.len() - 1 {
                        assert(m.waiters.contains(m.waiters[i]));
                    }
                }
            }
            AcquireOutcome::Enqueued
        }
    }

    /// Report the outcome of the factory run that this caller was told to
    /// make by `MustConstruct` (or by being woken with a construction slot):
    /// the new resource is lent to that caller under the returned id.
    pub fn construction_succeeded(&mut self) -> (resource_id: u64)
        requires
            old(self)@.wf(),
            old(self)@.pending > 0,
            old(self)@.next_id < u64::MAX,
        ensures
            resource_id == old(self)@.next_id,
            final(self)@ == old(self)@.post_construct_ok(),
            final(self)@.wf(),
    {
        let id = self.next_id;
        self.next_id = self.next_id + 1;
        self.pending = self.pending - 1;
        self.lent.push(id);
        proof {
            let m = old(self)@;
            assert(self@ =~= m.post_construct_ok());
            assert forall|i: int, j: int|
                0 <= i < j < self@.lent.len() implies self@.lent[i] != self@.lent[j] by {
                if j == self@.lent.len() - 1 {
                    assert(m.lent.contains(m.lent[i]));
                }
            }
            assert forall|id2: u64| !(self@.idle.contains(id2) && self@.lent.contains(id2)) by {
                if self@.idle.contains(id2) && self@.lent.contains(id2) {
                    let k = choose|k: int| 0 <= k < self@.lent.len() && self@.lent[k] == id2;
                    if k < m.lent.len() {
                        assert(m.lent.contains(id2));
                    }
                }
            }
        }
        id
    }

    /// Report that the factory run this caller was told to make failed.
    /// The freed construction slot is handed to the longest-waiting caller,
    /// if any: that waiter must be woken and told to construct. The failure
    /// itself is surfaced only to the caller that triggered it.
    pub fn construction_failed(&mut self) -> (woken: Option<u64>)
        requires
            old(self)@.wf(),
            old(self)@.pending > 0,
        ensures
            woken == old(self)@.construct_fail_woken(),
            final(self)@ == old(self)@.post_construct_fail(),
            final(self)@.wf(),
    {
        if self.waiters.len() > 0 {
            let w: u64 = self.waiters.remove(0);
            proof {
                let m = old(self)@;
                assert(self@.waiters =~= m.waiters.drop_first());
                assert(self@ =~= m.post_construct_fail());
            }
            Some(w)
        } else {
            self.pending = self.pending - 1;
            proof {
                assert(self@ =~= old(self)@.post_construct_fail());
            }
            None
        }
    }

    /// Give a lent handle back. With callers waiting, the handle goes
    /// straight to the longest-waiting one — the caller must wake that
    /// waiter and hand the id over; otherwise it returns to the idle set.
    /// A handle this pool did not lend out is refused.
    pub fn release(&mut self, resource_id: u64) -> (r: Result<ReleaseOutcome, PoolError>)
        requires
            old(self)@.wf(),
        ensures
            r == old(self)@.release_outcome(resource_id),
            final(self)@ == old(self)@.post_release(resource_id),
            final(self)@.wf(),
    {
        let pos = position_of(&self.lent, resource_id);
        match pos {
            None => {
                proof {
                    assert(self@ =~= old(self)@.post_release(resource_id));
                }
                Err(PoolError::InvalidHandle)
            },
            Some(j) => {
                proof {
                    assert(old(self)@.lent.contains(resource_id));
                }
                if self.waiters.len() > 0 {
                    let w: u64 = self.waiters.remove(0);
                    proof {
                        let m = old(self)@;
                        assert(self@.waiters =~= m.waiters.drop_first());
                        assert(self@ =~= m.post_release(resource_id));
                    }
                    Ok(ReleaseOutcome::HandedOver { waiter_id: w })
                } else {
                    let _removed: u64 = self.lent.remove(j);
                    self.idle.push(resource_id);
                    proof {
                        let m = old(self)@;
                        lemma_remove_value_at(m.lent, j as int);
                        assert(m.lent.remove_value(resource_id) == m.lent.remove(j as int));
                        assert(self@ =~= m.post_release(resource_id));
                        lemma_move_lent_to_idle_wf(m, resource_id, j as int);
                    }
                    Ok(ReleaseOutcome::Idled)
                }
            },
        }
    }

    /// Permanently remove a lent handle from circulation — for a resource
    /// known to be corrupted. The freed construction slot goes to the
    /// longest-waiting caller, if any, who must be woken and told to
    /// construct. A handle this pool did not lend out is refused.
    pub fn discard(&mut self, resource_id: u64) -> (r: Result<Option<u64>, PoolError>)
        requires
            old(self)@.wf(),
            old(self)@.discarded < usize::MAX,
        ensures
            r == old(self)@.discard_outcome(resource_id),
            final(self)@ == old(self)@.post_discard(resource_id),
            final(self)@.wf(),
    {
        let pos = position_of(&self.lent, resource_id);
        match pos {
            None => {
                proof {
                    assert(self@ =~= old(self)@.post_discard(resource_id));
                }
                Err(PoolError::InvalidHandle)
            },
            Some(j) => {
                proof {
                    assert(old(self)@.lent.contains(resource_id));
                    lemma_remove_value_at(old(self)@.lent, j as int);
                    lemma_remove_at(old(self)@.lent, j as int);
                }
                let _removed: u64 = self.lent.remove(j);
                self.discarded = self.discarded + 1;
                if self.waiters.len() > 0 {
                    let w: u64 = self.waiters.remove(0);
                    self.pending = self.pending + 1;
                    proof {
                        let m = old(self)@;
                        assert(self@.waiters =~= m.waiters.drop_first());
                        assert(self@ =~= m.post_discard(resource_id));
                    }
                    Ok(Some(w))
                } else {
                    proof {
                        assert(self@ =~= old(self)@.post_discard(resource_id));
                    }
                    Ok(None)
                }
            },
        }
    }

    /// Withdraw a suspended acquire: the waiter is removed from the queue
    /// without consuming a handle. Reports whether it was still queued.
    pub fn cancel_wait(&mut self, waiter_id: u64) -> (found: bool)
        requires
            old(self)@.wf(),
        ensures
            found == old(self)@.waiters.contains(waiter_id),
            final(self)@ == old(self)@.post_cancel(waiter_id),
            final(self)@.wf(),
    {
        let pos = position_of(&self.waiters, waiter_id);
        match pos {
            None => {
                proof {
                    old(self)@.waiters.index_of_first_ensures(waiter_id);
                    assert(self@ =~= old(self)@.post_cancel(waiter_id));
                }
                false
            },
            Some(j) => {
                proof {
                    assert(old(self)@.waiters.contains(waiter_id));
                    lemma_remove_value_at(old(self)@.waiters, j as int);
                    lemma_remove_at(old(self)@.waiters, j as int);
                }
                let _removed: u64 = self.waiters.remove(j);
                proof {
                    assert(self@ =~= old(self)@.post_cancel(waiter_id));
                }
                true
            },
        }
    }

    /// The capacity the pool was created with.
    pub fn capacity(&self) -> (c: usize)
        ensures
            c as nat == self@.capacity,
    {
        self.capacity
    }

    /// How many constructed resources sit unused.
    pub fn idle_count(&self) -> (n: usize)
        ensures
            n as nat == self@.idle.len(),
    {
        self.idle.len()
    }

    /// How many handles are currently lent out.
    pub fn lent_count(&self) -> (n: usize)
        ensures
            n as nat == self@.lent.len(),
    {
        self.lent.len()
    }

    /// How many callers currently wait for a handle.
    pub fn waiting_count(&self) -> (n: usize)
        ensures
            n as nat == self@.waiters.len(),
    {
        self.waiters.len()
    }

    /// How many successful constructions the pool has made so far.
    pub fn constructed_count(&self) -> (n: u64)
        ensures
            n == self@.next_id,
    {
        self.next_id
    }
}

/// The position of the first occurrence of `x` in `v`, if any.
fn position_of(v: &Vec<u64>, x: u64) -> (r: Option<usize>)
    ensures
        match r {
            Some(j) => j < v@.len() && v@[j as int] == x,
            None => !v@.contains(x),
        },
{
    let mut j: usize = 0;
    while j < v.len()
        invariant
            j <= v@.len(),
            forall|k: int| 0 <= k < j ==> v@[k] != x,
        decreases v@.len() - j,
    {
        if v[j] == x {
            return Some(j);
        }
        j = j + 1;
    }
    proof {
        assert(!v@.contains(x));
    }
    None
}

/// In a duplicate-free sequence, removing an element by value removes
/// exactly the position it sits at.
proof fn lemma_remove_value_at(s: Seq<u64>, j: int)
    requires
        distinct(s),
        0 <= j < s.len(),
    ensures
        s.remove_value(s[j]) == s.remove(j),
{
    assert(s.contains(s[j]));
    s.index_of_first_ensures(s[j]);
}

/// Removing one position from a duplicate-free sequence keeps it
/// duplicate-free, keeps every other element, and removes that element.
proof fn lemma_remove_at(s: Seq<u64>, j: int)
    requires
        distinct(s),
        0 <= j < s.len(),
    ensures
        distinct(s.remove(j)),
        forall|x: u64| s.remove(j).contains(x) ==> s.contains(x),
        !s.remove(j).contains(s[j]),
{
    let r = s.remove(j);
    assert forall|i: int| 0 <= i < r.len() implies r[i] == (if i < j { s[i] } else { s[i + 1] }) by {
    }
    assert forall|i1: int, i2: int| 0 <= i1 < i2 < r.len() implies r[i1] != r[i2] by {
    }
    assert forall|x: u64| r.contains(x) implies s.contains(x) by {
        let k = choose|k: int| 0 <= k < r.len() && r[k] == x;
        if k < j {
            assert(s[k] == x);
        } else {
            assert(s[k + 1] == x);
        }
    }
    assert forall|k: int| 0 <= k < r.len() implies r[k] != s[j] by {
    }
    if r.contains(s[j]) {
        let k = choose|k: int| 0 <= k < r.len() && r[k] == s[j];
        assert(false);
    }
}

/// Moving a lent handle to the idle set preserves the pool invariant.
proof fn lemma_move_lent_to_idle_wf(m: PoolModel, id: u64, j: int)
    requires
        m.wf(),
        0 <= j < m.lent.len(),
        m.lent[j] == id,
    ensures
        (PoolModel { lent: m.lent.remove(j), idle: m.idle.push(id), ..m }).wf(),
{
    let post = PoolModel { lent: m.lent.remove(j), idle: m.idle.push(id), ..m };
    lemma_remove_at(m.lent, j);
    assert(m.lent.contains(id));
    assert(!m.idle.contains(id));
    assert forall|i1: int, i2: int|
        0 <= i1 < i2 < post.idle.len() implies post.idle[i1] != post.idle[i2] by {
        if i2 == post.idle.len() - 1 {
            assert(m.idle.contains(m.idle[i1]));
        }
    }
    assert forall|id2: u64| !(post.idle.contains(id2) && post.lent.contains(id2)) by {
        if post.idle.contains(id2) && post.lent.contains(id2) {
            assert(m.lent.contains(id2));
            assert(id2 != id);
            let k = choose|k: int| 0 <= k < post.idle.len() && post.idle[k] == id2;
            assert(k < m.idle.len());
            assert(m.idle.contains(id2));
            assert(false);
        }
    }
    assert forall|i: int| 0 <= i < post.idle.len() implies post.idle[i] < post.next_id by {
        if i < m.idle.len() {
        } else {
            assert(post.idle[i] == id);
        }
    }
    assert forall|i: int| 0 <= i < post.lent.len() implies post.lent[i] < post.next_id by {
        assert(m.lent.contains(post.lent[i]));
        let k = choose|k: int| 0 <= k < m.lent.len() && m.lent[k] == post.lent[i];
    }
}

/// Capacity bound: a valid pool never has more live resource instances —
/// idle or lent — than its capacity, even counting constructions in flight.
pub proof fn lemma_capacity_bound(m: PoolModel)
    requires
        m.wf(),
    ensures
        m.live() + m.pending <= m.capacity,
        m.lent.len() <= m.capacity,
{
}

/// Exclusivity: two handles lent out at the same time never wrap the same
/// resource instance, and a lent resource is never also idle.
pub proof fn lemma_handle_exclusivity(m: PoolModel, i: int, j: int)
    requires
        m.wf(),
        0 <= i < m.lent.len(),
        0 <= j < m.lent.len(),
        i != j,
    ensures
        m.lent[i] != m.lent[j],
        !m.idle.contains(m.lent[i]),
{
    assert(m.lent.contains(m.lent[i]));
}

/// Lazy construction bound: successful constructions never outnumber the
/// capacity plus the handles deliberately discarded. In particular, while
/// nothing has been discarded the factory has succeeded at most `capacity`
/// times, however many acquisitions and releases have happened.
pub proof fn lemma_construction_bound(m: PoolModel)
    requires
        m.wf(),
    ensures
        m.next_id as nat <= m.capacity + m.discarded,
        m.discarded == 0 ==> m.next_id as nat <= m.capacity,
{
}

/// No leak: a released handle stays in circulation. Afterwards it is idle
/// again or still lent — handed directly to a waiter — and the number of
/// live instances, the capacity, and the construction count are unchanged.
/// A failed computation therefore never shrinks the pool, provided its
/// handle is released.
pub proof fn lemma_release_keeps_capacity(m: PoolModel, resource_id: u64)
    requires
        m.wf(),
        m.lent.contains(resource_id),
    ensures
        m.post_release(resource_id).idle.contains(resource_id) || m.post_release(
            resource_id,
        ).lent.contains(resource_id),
        m.post_release(resource_id).live() == m.live(),
        m.post_release(resource_id).capacity == m.capacity,
        m.post_release(resource_id).next_id == m.next_id,
{
    let post = m.post_release(resource_id);
    if m.waiters.len() == 0 {
        assert(post.idle[post.idle.len() - 1] == resource_id);
        assert(post.idle.contains(resource_id));
        let j = choose|j: int| 0 <= j < m.lent.len() && m.lent[j] == resource_id;
        lemma_remove_value_at(m.lent, j);
        lemma_remove_at(m.lent, j);
    }
}

/// First-in-first-out fairness: while callers wait, each release hands the
/// handle to the longest-waiting one. With waiters queued in the order
/// a, b, c and a single handle cycling through release, the handle goes to
/// a, then b, then c, and then the queue is empty.
pub proof fn lemma_fifo_handoff(m: PoolModel, a: u64, b: u64, c: u64, resource_id: u64)
    requires
        m.wf(),
        m.waiters == seq![a, b, c],
        m.lent.contains(resource_id),
    ensures
        m.release_outcome(resource_id) == Ok::<ReleaseOutcome, PoolError>(
            ReleaseOutcome::HandedOver { waiter_id: a },
        ),
        m.post_release(resource_id).release_outcome(resource_id) == Ok::<
            ReleaseOutcome,
            PoolError,
        >(ReleaseOutcome::HandedOver { waiter_id: b }),
        m.post_release(resource_id).post_release(resource_id).release_outcome(resource_id)
            == Ok::<ReleaseOutcome, PoolError>(ReleaseOutcome::HandedOver { waiter_id: c }),
        m.post_release(resource_id).post_release(resource_id).post_release(
            resource_id,
        ).waiters.len() == 0,
{
    let m1 = m.post_release(resource_id);
    let m2 = m1.post_release(resource_id);
    let m3 = m2.post_release(resource_id);
    assert(m.waiters[0] == a);
    assert(m1.waiters =~= seq![b, c]);
    assert(m2.waiters =~= seq![c]);
    assert(m3.waiters =~= Seq::<u64>::empty());
}

/// Granting the last idle resource preserves the pool invariant.
proof fn lemma_acquire_grant_wf(m: PoolModel, waiter_id: u64)
    requires
        m.wf(),
        m.idle.len() > 0,
    ensures
        m.post_acquire(waiter_id).wf(),
{
    let id = m.idle.last();
    let post = m.post_acquire(waiter_id);
    assert(m.idle.contains(id));
    assert(!m.lent.contains(id));
    assert forall|i: int, j: int|
        0 <= i < j < post.lent.len() implies post.lent[i] != post.lent[j] by {
        if j == post.lent.len() - 1 {
            assert(m.lent.contains(m.lent[i]));
        }
    }
    assert forall|id2: u64| !(post.idle.contains(id2) && post.lent.contains(id2)) by {
        if post.idle.contains(id2) {
            let k = choose|k: int| 0 <= k < post.idle.len() && post.idle[k] == id2;
            assert(m.idle[k] == id2);
            assert(m.idle.contains(id2));
            assert(!m.lent.contains(id2));
            if id2 == id {
                assert(m.idle[m.idle.len() - 1] == id);
            }
        }
    }
}

} // verus!
