//! The pool: queues, the pending-task table, submission and the worker step.
//!
//! A pool owns its queues and the pending-task table, and allocates every
//! task identifier from one monotone counter. Submission decides readiness:
//! a task whose slots are all supplied goes straight onto its queue, one
//! still waiting on inputs enters the pending-task table until deliveries
//! fill it. `worker_step` is the decision core of a worker thread's loop:
//! pop the front task, invoke it, run its continuation, and report whether
//! the worker must stop.
use vstd::prelude::*;

use crate::queue::{
    deliver_outcome, deliver_pending, entry_set_slot, lemma_deliver_pending_dom, pend_set_slot,
    pending_wf, C1map, DeliverOutcome, Entry, EntryV, PendEntryV, Queue, when_ci_comed,
};
use crate::task::{CondAddr, Kind, Routing, Task, TaskId, TaskV, Value};

verus! {

/// The mathematical model of a task with its submission-time identifier.
pub open spec fn with_id(t: TaskV, id: TaskId) -> TaskV {
    TaskV { id, kind: t.kind, params: t.params, out: t.out }
}

/// Why a submission was refused. A refused submission has no effect at all.
#[derive(Clone, Copy, Debug, PartialEq, Eq, Structural)]
pub enum SubmitError {
    /// The queue id is unknown to the pool.
    UnknownQueue,
    /// The task carries a reserved id that is already occupied.
    IdCollision,
}

/// A submission handle bound to one queue of a pool.
#[derive(Clone, Copy, Debug, PartialEq, Eq, Structural)]
pub struct Submitter {
    pub qid: usize,
}

/// What one worker step did.
#[derive(Debug)]
pub enum Step {
    /// The queue was empty: nothing ran.
    Idle,
    /// The front task ran. `exit` reports an exit-kind task, after which the
    /// worker that took this step stops its loop; `deliveries` reports the
    /// outcome of each delivery the continuation performed, in order.
    Ran { id: TaskId, exit: bool, deliveries: Vec<DeliverOutcome> },
}

/// The state a sequence of deliveries folds over: the pending table, every
/// queue, and the outcomes reported so far.
pub ghost struct RouteState {
    pub pending: Map<usize, PendEntryV>,
    pub queues: Seq<Seq<EntryV>>,
    pub outcomes: Seq<DeliverOutcome>,
}

/// One delivery applied to the fold state.
pub open spec fn route_step(s: RouteState, d: (Value, CondAddr)) -> RouteState {
    let oc = deliver_outcome(s.pending, d.1, d.0);
    RouteState {
        pending: deliver_pending(s.pending, d.1, d.0),
        queues: if oc == DeliverOutcome::Enqueued {
            let pe = s.pending[d.1.0.key()];
            s.queues.update(
                pe.qid as int,
                s.queues[pe.qid as int].push(entry_set_slot(pe.entry, d.1.1 as int, d.0)),
            )
        } else {
            s.queues
        },
        outcomes: s.outcomes.push(oc),
    }
}

/// The fold of all of `ds` over `s`, in order.
pub open spec fn route_all(s: RouteState, ds: Seq<(Value, CondAddr)>) -> RouteState
    decreases ds.len(),
{
    if ds.len() == 0 {
        s
    } else {
        route_all(route_step(s, ds[0]), ds.skip(1))
    }
}

/// The pool: the owner of every queue, of the pending-task table, and of the
/// identifier allocator. Queues are inserted before workers are spawned
/// against them; `begin_join` seals the pool once joining has begun.
#[derive(Debug)]
pub struct Pool {
    /// The identifier allocator: the next task id to hand out, never zero.
    pub next_id: usize,
    pub queues: Vec<Queue>,
    pub pending: C1map,
    /// Whether the pool has begun joining; a sealed pool accepts no queue.
    pub joining: bool,
}

impl Pool {
    /// The model of all queues: one entry sequence per queue id.
    pub open spec fn queues_v(self) -> Seq<Seq<EntryV>> {
        self.queues@.map_values(|q: Queue| q@)
    }

    /// Identifiers are allocated from one counter, so every id in the
    /// pending table is non-zero, below the counter, keys its own task, and
    /// names an existing destination queue.
    pub open spec fn wf(self) -> bool {
        &&& self.next_id >= 1
        &&& pending_wf(self.pending@, self.queues@.len())
        &&& forall|k: usize| #[trigger] self.pending@.contains_key(k) ==> k < self.next_id
    }

    /// An empty pool: no queues, nothing pending, ids start at one.
    pub fn new() -> (r: Pool)
        ensures
            r.wf(),
            r.next_id == 1,
            r.queues@.len() == 0,
            r.pending@ == Map::<usize, PendEntryV>::empty(),
            !r.joining,
    {
        Pool { next_id: 1, queues: Vec::new(), pending: C1map::new(), joining: false }
    }

    /// Inserts a queue and returns its id. Fails, changing nothing, once the
    /// pool has begun joining.
    pub fn insert_queue(&mut self, q: Queue) -> (r: Option<usize>)
        requires
            old(self).wf(),
        ensures
            final(self).wf(),
            old(self).joining ==> r is None && *final(self) == *old(self),
            !old(self).joining ==> {
                &&& r == Option::Some(old(self).queues@.len() as usize)
                &&& final(self).queues@ == old(self).queues@.push(q)
                &&& final(self).pending@ == old(self).pending@
                &&& final(self).next_id == old(self).next_id
                &&& final(self).joining == old(self).joining
            },
    {
        if self.joining {
            return None;
        }
        let qid = self.queues.len();
        self.queues.push(q);
        Some(qid)
    }

    /// Seals the pool at the start of joining: no further queue may be
    /// inserted.
    pub fn begin_join(&mut self)
        requires
            old(self).wf(),
        ensures
            final(self).wf(),
            final(self).joining,
            final(self).queues@ == old(self).queues@,
            final(self).pending@ == old(self).pending@,
            final(self).next_id == old(self).next_id,
    {
        self.joining = true;
    }

    /// A submission handle for queue `qid`; fails if the queue id is unknown
    /// to the pool.
    pub fn task_submitter(&self, qid: usize) -> (r: Option<Submitter>)
        ensures
            r == (if qid < self.queues@.len() {
                Option::Some(Submitter { qid })
            } else {
                Option::None::<Submitter>
            }),
    {
        if qid < self.queues.len() {
            Some(Submitter { qid })
        } else {
            None
        }
    }

    /// Reserves a fresh task id before its task is defined, enabling forward
    /// references: an earlier-submitted task can route to this id.
    pub fn reserve_id(&mut self) -> (r: TaskId)
        requires
            old(self).wf(),
            old(self).next_id < usize::MAX,
        ensures
            final(self).wf(),
            r == TaskId(Option::Some(old(self).next_id)),
            final(self).next_id == old(self).next_id + 1,
            final(self).queues@ == old(self).queues@,
            final(self).pending@ == old(self).pending@,
            final(self).joining == old(self).joining,
    {
        let id = self.next_id;
        self.next_id = self.next_id + 1;
        TaskId(Some(id))
    }

    /// How many entries queue `qid` holds.
    pub fn queue_len(&self, qid: usize) -> (r: usize)
        requires
            qid < self.queues@.len(),
        ensures
            r == self.queues_v()[qid as int].len(),
    {
        self.queues[qid].len()
    }

    /// How many tasks are pending.
    pub fn pending_len(&self) -> (r: usize)
        ensures
            r == self.pending@.len(),
    {
        self.pending.len()
    }

    /// Submits a task through `sub`: assigns its id (or accepts the reserved
    /// one), then either enqueues it at once — when every slot is already
    /// supplied — or inserts it into the pending-task table. A reserved id
    /// counts as occupied while it waits in the pending-task table. A
    /// refused submission has no effect.
    pub fn submit(&mut self, sub: Submitter, task: Task, routing: Routing) -> (r: Result<
        TaskId,
        SubmitError,
    >)
        requires
            old(self).wf(),
            task@.params.wf(),
            task@.id.wf(),
            task@.id.assigned() ==> task@.id.key() < old(self).next_id,
            !task@.id.assigned() ==> old(self).next_id < usize::MAX,
        ensures
            final(self).wf(),
            final(self).joining == old(self).joining,
            final(self).queues@.len() == old(self).queues@.len(),
            (r == Err::<TaskId, SubmitError>(SubmitError::UnknownQueue)) <==> sub.qid >= old(
                self,
            ).queues@.len(),
            (r == Err::<TaskId, SubmitError>(SubmitError::IdCollision)) <==> (sub.qid < old(
                self,
            ).queues@.len() && task@.id.assigned() && old(self).pending@.contains_key(
                task@.id.key(),
            )),
            r is Err ==> *final(self) == *old(self),
            r is Ok <==> (sub.qid < old(self).queues@.len() && (task@.id.assigned() ==> !old(
                self,
            ).pending@.contains_key(task@.id.key()))),
            r matches Ok(tid) ==> {
                let t2 = with_id(task@, tid);
                &&& tid == (if task@.id.assigned() {
                    task@.id
                } else {
                    TaskId(Option::Some(old(self).next_id))
                })
                &&& final(self).next_id == (if task@.id.assigned() {
                    old(self).next_id
                } else {
                    (old(self).next_id + 1) as usize
                })
                &&& (task@.params.full() ==> {
                    &&& final(self).queues_v() == old(self).queues_v().update(
                        sub.qid as int,
                        old(self).queues_v()[sub.qid as int].push(
                            (EntryV { task: t2, routing: routing@ }),
                        ),
                    )
                    &&& final(self).pending@ == old(self).pending@
                })
                &&& (!task@.params.full() ==> {
                    &&& final(self).pending@ == old(self).pending@.insert(
                        tid.key(),
                        (PendEntryV {
                            entry: EntryV { task: t2, routing: routing@ },
                            qid: sub.qid,
                        }),
                    )
                    &&& final(self).queues_v() == old(self).queues_v()
                })
            },
            // a task of declared arity zero never enters the pending table:
            // it is enqueued at once
            (r is Ok && task@.params.arity() == 0) ==> (final(self).pending@ == old(self).pending@
                && final(self).queues_v()[sub.qid as int].len() == old(self).queues_v()[sub.qid as int].len()
                + 1),
    {
        let qid = sub.qid;
        if qid >= self.queues.len() {
            return Err(SubmitError::UnknownQueue);
        }
        let tid: TaskId = match task.id.0 {
            Some(_) => {
                match self.pending.check(task.id) {
                    Some(_) => {
                        return Err(SubmitError::IdCollision);
                    },
                    None => task.id,
                }
            },
            None => {
                let t = TaskId(Some(self.next_id));
                self.next_id = self.next_id + 1;
                t
            },
        };
        let mut task = task;
        task.id = tid;
        let ghost t2v = task@;
        if task.params.is_full() {
            let ghost pre_qs = self.queues_v();
            let q = &mut self.queues[qid];
            q.push(Entry { task, routing });
            proof {
                assert(self.queues_v() =~= pre_qs.update(
                    qid as int,
                    pre_qs[qid as int].push((EntryV { task: t2v, routing: routing@ })),
                ));
            }
        } else {
            let key: usize = match tid.0 {
                Some(k) => k,
                None => {
                    // the id was assigned or freshly allocated above
                    proof {
                        assert(false);
                    }
                    0
                },
            };
            proof {
                if self.pending@.contains_key(key) {
                    assert(key < old(self).next_id);
                }
            }
            let inserted = self.pending.try_insert(Entry { task, routing }, key, qid);
            proof {
                assert(inserted is Some);
            }
        }
        Ok(tid)
    }

    /// One step of a worker's loop on queue `qid`: pop the front entry, if
    /// any, invoke its task, perform every delivery of its continuation in
    /// order, and report what ran. An exit-kind task stops the worker that
    /// ran it, but only after the continuation has run, so routing out of an
    /// exit task's own output still occurs — this is what lets a chain of
    /// exit tasks shut workers down one by one.
    pub fn worker_step(&mut self, qid: usize) -> (r: Step)
        requires
            old(self).wf(),
            qid < old(self).queues@.len(),
        ensures
            final(self).wf(),
            final(self).next_id == old(self).next_id,
            final(self).joining == old(self).joining,
            final(self).queues@.len() == old(self).queues@.len(),
            old(self).queues_v()[qid as int].len() == 0 ==> (r is Idle && final(self).queues_v()
                == old(self).queues_v() && final(self).pending@ == old(self).pending@),
            old(self).queues_v()[qid as int].len() > 0 ==> (r matches Step::Ran {
                id,
                exit,
                deliveries,
            } && {
                let front = old(self).queues_v()[qid as int][0];
                let rs = route_all(
                    (RouteState {
                        pending: old(self).pending@,
                        queues: old(self).queues_v().update(
                            qid as int,
                            old(self).queues_v()[qid as int].skip(1),
                        ),
                        outcomes: Seq::empty(),
                    }),
                    front.deliveries(),
                );
                &&& id == front.task.id
                &&& exit == (front.task.kind is Exit)
                &&& deliveries@ == rs.outcomes
                &&& final(self).pending@ == rs.pending
                &&& final(self).queues_v() == rs.queues
            }),
    {
        let popped = {
            let q = &mut self.queues[qid];
            q.pop()
        };
        let e = match popped {
            None => {
                proof {
                    assert(self.queues_v() =~~= old(self).queues_v());
                }
                return Step::Idle;
            },
            Some(e) => e,
        };
        let ghost frontv = e@;
        let ghost qs0 = old(self).queues_v().update(
            qid as int,
            old(self).queues_v()[qid as int].skip(1),
        );
        proof {
            assert(self.queues_v() =~~= qs0);
        }
        let Entry { task, routing } = e;
        let id = task.id();
        let kind = task.kind();
        let out = task.invoke();
        let ghost ds = frontv.deliveries();
        let ghost rs0 = RouteState {
            pending: self.pending@,
            queues: self.queues_v(),
            outcomes: Seq::empty(),
        };
        let mut deliveries: Vec<DeliverOutcome> = Vec::new();
        match out {
            None => {
                proof {
                    assert(route_all(rs0, ds) == rs0);
                }
            },
            Some(v) => {
                match routing {
                    Routing::NoOp => {
                        proof {
                            assert(route_all(rs0, ds) == rs0);
                        }
                    },
                    Routing::Single(addr) => {
                        let ghost vv = v;
                        let oc = when_ci_comed(&mut self.pending, &mut self.queues, &addr, v, &id);
                        deliveries.push(oc);
                        proof {
                            lemma_deliver_pending_dom(rs0.pending, addr, vv);
                            let stepped = route_step(rs0, (vv, addr));
                            assert(ds =~= seq![(vv, addr)]);
                            assert(self.queues_v() =~~= stepped.queues);
                            assert(ds.skip(1) =~= Seq::<(Value, CondAddr)>::empty());
                            assert(route_all(rs0, ds) == route_all(stepped, ds.skip(1)));
                            assert(deliveries@ =~= stepped.outcomes);
                        }
                    },
                    Routing::FanOut(pairs) => {
                        let mut pairs = pairs;
                        proof {
                            assert(ds =~= pairs@);
                        }
                        while pairs.len() > 0
                            invariant
                                pending_wf(self.pending@, self.queues@.len()),
                                self.next_id == old(self).next_id,
                                self.joining == old(self).joining,
                                self.next_id >= 1,
                                self.queues@.len() == old(self).queues@.len(),
                                forall|k: usize|
                                    #[trigger] self.pending@.contains_key(k) ==> old(
                                        self,
                                    ).pending@.contains_key(k),
                                route_all(
                                    (RouteState {
                                        pending: self.pending@,
                                        queues: self.queues_v(),
                                        outcomes: deliveries@,
                                    }),
                                    pairs@,
                                ) == route_all(rs0, ds),
                            decreases pairs.len(),
                        {
                            let ghost pre_pairs = pairs@;
                            let ghost cur = RouteState {
                                pending: self.pending@,
                                queues: self.queues_v(),
                                outcomes: deliveries@,
                            };
                            let (pv, addr) = pairs.remove(0);
                            let ghost pvv = pv;
                            let oc = when_ci_comed(
                                &mut self.pending,
                                &mut self.queues,
                                &addr,
                                pv,
                                &id,
                            );
                            deliveries.push(oc);
                            proof {
                                lemma_deliver_pending_dom(cur.pending, addr, pvv);
                                let stepped = route_step(cur, (pvv, addr));
                                assert(self.queues_v() =~~= stepped.queues);
                                assert(deliveries@ =~= stepped.outcomes);
                                assert(pairs@ =~= pre_pairs.skip(1));
                                assert(route_all(cur, pre_pairs) == route_all(
                                    stepped,
                                    pre_pairs.skip(1),
                                ));
                            }
                        }
                        proof {
                            assert(route_all(
                                (RouteState {
                                    pending: self.pending@,
                                    queues: self.queues_v(),
                                    outcomes: deliveries@,
                                }),
                                pairs@,
                            ) == (RouteState {
                                pending: self.pending@,
                                queues: self.queues_v(),
                                outcomes: deliveries@,
                            }));
                        }
                    },
                }
            },
        }
        let exit = kind == Kind::Exit;
        Step::Ran { id, exit, deliveries }
    }
}

/// Fan-in is exactly once. Take a pending destination and any sequence of
/// deliveries — in whatever order concurrent producers complete — that aims
/// one correctly typed value at each of its distinct unset slots. Folding
/// those deliveries over the state stores every value but the last, and the
/// delivery that sets the last unset slot is the one, and only one, that
/// moves the destination out of the pending table and appends it — now full
/// — to its destination queue: never zero times, never twice.
pub proof fn lemma_fan_in_exactly_once(s: RouteState, key: usize, ds: Seq<(Value, CondAddr)>)
    requires
        s.pending.contains_key(key),
        s.pending[key].entry.task.params.wf(),
        s.pending[key].entry.task.id == TaskId(Option::Some(key)),
        s.pending[key].qid < s.queues.len(),
        ds.len() >= 1,
        forall|j: int| 0 <= j < ds.len() ==> (#[trigger] ds[j]).1.0 == TaskId(Option::Some(key)),
        forall|j: int|
            0 <= j < ds.len() ==> s.pending[key].entry.task.params.accepts(
                (#[trigger] ds[j]).1.1 as int,
                ds[j].0,
            ),
        forall|j1: int, j2: int|
            0 <= j1 < ds.len() && 0 <= j2 < ds.len() && j1 != j2 ==> (#[trigger] ds[j1]).1.1 != (
            #[trigger] ds[j2]).1.1,
        forall|i: int|
            0 <= i < s.pending[key].entry.task.params.arity() && !(
            #[trigger] s.pending[key].entry.task.params.is_set(i)) ==> exists|j: int|
                0 <= j < ds.len() && (#[trigger] ds[j]).1.1 == i,
    ensures
        route_all(s, ds).outcomes.len() == s.outcomes.len() + ds.len(),
        forall|j: int|
            0 <= j < s.outcomes.len() ==> #[trigger] route_all(s, ds).outcomes[j] == s.outcomes[j],
        forall|j: int|
            0 <= j < ds.len() - 1 ==> #[trigger] route_all(s, ds).outcomes[s.outcomes.len() + j]
                == DeliverOutcome::Stored,
        route_all(s, ds).outcomes.last() == DeliverOutcome::Enqueued,
        route_all(s, ds).pending == s.pending.remove(key),
        route_all(s, ds).queues.len() == s.queues.len(),
        forall|qj: int|
            0 <= qj < s.queues.len() && qj != s.pending[key].qid ==> #[trigger] route_all(
                s,
                ds,
            ).queues[qj] == s.queues[qj],
        route_all(s, ds).queues[s.pending[key].qid as int].len() == s.queues[s.pending[key].qid as int].len() + 1,
        route_all(s, ds).queues[s.pending[key].qid as int].drop_last() == s.queues[s.pending[key].qid as int],
        route_all(s, ds).queues[s.pending[key].qid as int].last().task.id == TaskId(
            Option::Some(key),
        ),
        route_all(s, ds).queues[s.pending[key].qid as int].last().task.params.full(),
    decreases ds.len(),
{
    let pe = s.pending[key];
    let st = pe.entry.task.params;
    let qid = pe.qid as int;
    let d0 = ds[0];
    let i0 = d0.1.1 as int;
    let v0 = d0.0;
    assert(d0.1.0 == TaskId(Option::Some(key)));
    assert(st.accepts(i0, v0));
    let st1 = st.set_slot(i0, v0);
    let stepped = route_step(s, d0);
    assert(route_all(s, ds) == route_all(stepped, ds.skip(1)));
    if ds.len() == 1 {
        assert forall|i: int| 0 <= i < st1.vals.len() implies st1.is_set(i) by {
            if i != i0 && !st.is_set(i) {
                let j = choose|j: int| 0 <= j < ds.len() && (#[trigger] ds[j]).1.1 == i;
                assert(j == 0);
                assert(false);
            }
        }
        assert(st1.full());
        assert(deliver_outcome(s.pending, d0.1, v0) == DeliverOutcome::Enqueued);
        assert(ds.skip(1).len() == 0);
        assert(route_all(stepped, ds.skip(1)) == stepped);
        assert(stepped.queues[qid].drop_last() =~= s.queues[qid]);
        assert(stepped.queues[qid].last() == entry_set_slot(pe.entry, i0, v0));
    } else {
        let i1 = ds[1].1.1 as int;
        assert(st.accepts(i1, ds[1].0));
        assert(i1 != i0);
        assert(!st1.is_set(i1));
        assert(!st1.full());
        assert(deliver_outcome(s.pending, d0.1, v0) == DeliverOutcome::Stored);
        let pe1 = pend_set_slot(pe, i0, v0);
        assert(stepped.pending == s.pending.insert(key, pe1));
        assert(stepped.pending[key] == pe1);
        assert(stepped.queues == s.queues);
        assert(st1.wf()) by {
            assert forall|i: int|
                0 <= i < st1.vals.len() implies (#[trigger] st1.vals[i] matches Option::Some(v)
                ==> v.vtype() == st1.types[i]) by {
                if i != i0 {
                    assert(st1.vals[i] == st.vals[i]);
                }
            }
        }
        let tail = ds.skip(1);
        assert forall|j: int| 0 <= j < tail.len() implies (#[trigger] tail[j]).1.0 == TaskId(
            Option::Some(key),
        ) && st1.accepts(tail[j].1.1 as int, tail[j].0) by {
            assert(tail[j] == ds[j + 1]);
            assert(st.accepts(ds[j + 1].1.1 as int, ds[j + 1].0));
            assert(ds[j + 1].1.1 != ds[0].1.1);
            assert(st1.vals[ds[j + 1].1.1 as int] == st.vals[ds[j + 1].1.1 as int]);
        }
        assert forall|j1: int, j2: int|
            0 <= j1 < tail.len() && 0 <= j2 < tail.len() && j1 != j2 implies (
        #[trigger] tail[j1]).1.1 != (#[trigger] tail[j2]).1.1 by {
            assert(tail[j1] == ds[j1 + 1]);
            assert(tail[j2] == ds[j2 + 1]);
        }
        assert forall|i: int|
            0 <= i < st1.arity() && !(#[trigger] st1.is_set(i)) implies exists|j: int|
                0 <= j < tail.len() && (#[trigger] tail[j]).1.1 == i by {
            assert(st1.vals[i0] is Some);
            assert(i != i0);
            assert(!st.is_set(i));
            let j = choose|j: int| 0 <= j < ds.len() && (#[trigger] ds[j]).1.1 == i;
            assert(j != 0);
            assert(tail[j - 1] == ds[j]);
            assert(0 <= j - 1 < tail.len() && tail[j - 1].1.1 == i);
        }
        lemma_fan_in_exactly_once(stepped, key, tail);
        assert(route_all(s, ds).pending =~= s.pending.remove(key));
        assert forall|j: int| 0 <= j < ds.len() - 1 implies #[trigger] route_all(
            s,
            ds,
        ).outcomes[s.outcomes.len() + j] == DeliverOutcome::Stored by {
            if j == 0 {
                assert(route_all(stepped, tail).outcomes[s.outcomes.len() as int]
                    == stepped.outcomes[s.outcomes.len() as int]);
                assert(stepped.outcomes[s.outcomes.len() as int] == DeliverOutcome::Stored);
            } else {
                assert(route_all(stepped, tail).outcomes[stepped.outcomes.len() + (j - 1)]
                    == DeliverOutcome::Stored);
                assert(stepped.outcomes.len() + (j - 1) == s.outcomes.len() + j);
            }
        }
    }
}

} // verus!
