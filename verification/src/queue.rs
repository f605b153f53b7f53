//! The ready queue and the pending-task table.
//!
//! A `Queue` is a FIFO of tasks whose every input has arrived, each paired
//! with its post-run continuation. The `C1map` pending-task table holds
//! tasks still waiting on at least one unset slot, keyed by task identifier.
//! `when_ci_comed` is the delivery step: it updates one slot of a pending
//! task and, exactly when the task thereby became full, moves it out of the
//! table onto its destination queue.
use std::collections::HashMap;
use std::collections::VecDeque;
use vstd::prelude::*;

use crate::task::{CondAddr, Routing, RoutingV, SlotError, Task, TaskId, TaskV, Value};

verus! {

broadcast use vstd::std_specs::hash::group_hash_axioms, vstd::std_specs::vecdeque::group_vec_dequeue_axioms;

/// The mathematical model of a (task, continuation) pair.
pub ghost struct EntryV {
    pub task: TaskV,
    pub routing: RoutingV,
}

impl EntryV {
    pub open spec fn wf(self) -> bool {
        self.task.wf()
    }

    /// The ordered deliveries this pair performs after the task has run.
    pub open spec fn deliveries(self) -> Seq<(Value, CondAddr)> {
        self.routing.deliveries(self.task.out)
    }
}

/// The entry after slot `i` of its task was set to `v`.
pub open spec fn entry_set_slot(e: EntryV, i: int, v: Value) -> EntryV {
    EntryV {
        task: TaskV {
            id: e.task.id,
            kind: e.task.kind,
            params: e.task.params.set_slot(i, v),
            out: e.task.out,
        },
        routing: e.routing,
    }
}

/// A task ready to run, paired with its post-run continuation. The
/// continuation is owned by the pair and consumed exactly once, right after
/// the task has been invoked.
#[derive(Debug)]
pub struct Entry {
    pub task: Task,
    pub routing: Routing,
}

impl View for Entry {
    type V = EntryV;

    open spec fn view(&self) -> EntryV {
        EntryV { task: self.task@, routing: self.routing@ }
    }
}

/// A FIFO of ready (task, continuation) pairs awaiting a worker. Entries
/// leave in exactly the order they arrived: no priority reordering.
#[derive(Debug)]
pub struct Queue {
    pub items: VecDeque<Entry>,
}

impl View for Queue {
    type V = Seq<EntryV>;

    open spec fn view(&self) -> Seq<EntryV> {
        self.items@.map_values(|e: Entry| e@)
    }
}

impl Queue {
    /// An empty queue.
    pub fn new() -> (r: Queue)
        ensures
            r@ == Seq::<EntryV>::empty(),
    {
        let q = Queue { items: VecDeque::new() };
        proof {
            assert(q@ =~= Seq::<EntryV>::empty());
        }
        q
    }

    /// Appends a ready pair at the back.
    pub fn push(&mut self, e: Entry)
        ensures
            final(self)@ == old(self)@.push(e@),
    {
        self.items.push_back(e);
        proof {
            assert(final(self)@ =~= old(self)@.push(e@));
        }
    }

    /// Removes and returns the front pair, the one that arrived earliest.
    pub fn pop(&mut self) -> (r: Option<Entry>)
        ensures
            old(self)@.len() == 0 ==> r is None && final(self)@ == old(self)@,
            old(self)@.len() > 0 ==> (match r {
                Option::Some(e) => e@ == old(self)@[0] && final(self)@ == old(self)@.skip(1),
                Option::None => false,
            }),
    {
        let r = self.items.pop_front();
        proof {
            if old(self)@.len() > 0 {
                assert(final(self)@ =~= old(self)@.skip(1));
            }
        }
        r
    }

    /// Discards every queued pair.
    pub fn clear(&mut self)
        ensures
            final(self)@ == Seq::<EntryV>::empty(),
    {
        self.items.clear();
        proof {
            assert(final(self)@ =~= Seq::<EntryV>::empty());
        }
    }

    pub fn len(&self) -> (r: usize)
        ensures
            r == self@.len(),
    {
        self.items.len()
    }
}

/// The mathematical model of one pending-table entry: the waiting pair and
/// the queue the task goes to once full. The destination queue is fixed when
/// the task is submitted, never chosen at delivery time.
pub ghost struct PendEntryV {
    pub entry: EntryV,
    pub qid: usize,
}

/// The pending entry after slot `i` of its task was set to `v`.
pub open spec fn pend_set_slot(pe: PendEntryV, i: int, v: Value) -> PendEntryV {
    PendEntryV { entry: entry_set_slot(pe.entry, i, v), qid: pe.qid }
}

/// One pending-table entry: a waiting pair and its destination queue id.
#[derive(Debug)]
pub struct PendEntry {
    pub entry: Entry,
    pub qid: usize,
}

impl View for PendEntry {
    type V = PendEntryV;

    open spec fn view(&self) -> PendEntryV {
        PendEntryV { entry: self.entry@, qid: self.qid }
    }
}

/// Every pending entry is keyed by its own non-zero task id, holds a
/// well-formed slot store, and names an existing destination queue.
pub open spec fn pending_wf(m: Map<usize, PendEntryV>, nqueues: nat) -> bool {
    forall|k: usize|
        #[trigger] m.contains_key(k) ==> {
            &&& k != 0
            &&& m[k].entry.wf()
            &&& m[k].entry.task.id == TaskId(Option::Some(k))
            &&& m[k].qid < nqueues
        }
}

/// Why a delivery failed.
#[derive(Clone, Copy, Debug, PartialEq, Eq, Structural)]
pub enum DeliverError {
    /// The routing address holds no assigned task id.
    NilTaskId,
    /// The destination is not pending: it may already have run, or was never
    /// submitted.
    NotFound,
    /// The slot index is outside the destination's declared arity.
    OutOfRange,
    /// The slot already holds a value; the stored value is kept.
    AlreadySet,
    /// The value's type does not match the slot's declared type.
    TypeMismatch,
}

/// What one delivery did.
#[derive(Clone, Copy, Debug, PartialEq, Eq, Structural)]
pub enum DeliverOutcome {
    /// The value was stored; the destination still waits on other slots.
    Stored,
    /// The value filled the last unset slot: the destination left the table
    /// and was pushed onto its queue.
    Enqueued,
    /// The delivery was refused and dropped; the table is untouched.
    Failed(DeliverError),
}

/// The outcome of delivering `v` to `target` against pending table `m`.
pub open spec fn deliver_outcome(m: Map<usize, PendEntryV>, target: CondAddr, v: Value) -> DeliverOutcome {
    if !target.0.assigned() {
        DeliverOutcome::Failed(DeliverError::NilTaskId)
    } else if !m.contains_key(target.0.key()) {
        DeliverOutcome::Failed(DeliverError::NotFound)
    } else {
        let st = m[target.0.key()].entry.task.params;
        let i = target.1 as int;
        if i >= st.arity() {
            DeliverOutcome::Failed(DeliverError::OutOfRange)
        } else if st.is_set(i) {
            DeliverOutcome::Failed(DeliverError::AlreadySet)
        } else if v.vtype() != st.types[i] {
            DeliverOutcome::Failed(DeliverError::TypeMismatch)
        } else if st.set_slot(i, v).full() {
            DeliverOutcome::Enqueued
        } else {
            DeliverOutcome::Stored
        }
    }
}

/// The pending table after the delivery: untouched on failure, updated in
/// place while the destination still waits, removed once it became full.
pub open spec fn deliver_pending(m: Map<usize, PendEntryV>, target: CondAddr, v: Value) -> Map<
    usize,
    PendEntryV,
> {
    let k = target.0.key();
    match deliver_outcome(m, target, v) {
        DeliverOutcome::Stored => m.insert(k, pend_set_slot(m[k], target.1 as int, v)),
        DeliverOutcome::Enqueued => m.remove(k),
        DeliverOutcome::Failed(_) => m,
    }
}

/// Delivering to a slot that is already set is a no-op reported as an
/// error: the outcome is `AlreadySet`, the table — the stored value
/// included — is left exactly as it was, and the destination stays pending.
pub proof fn lemma_already_set_delivery_is_noop(
    m: Map<usize, PendEntryV>,
    target: CondAddr,
    v: Value,
)
    requires
        target.0.assigned(),
        m.contains_key(target.0.key()),
        target.1 < m[target.0.key()].entry.task.params.arity(),
        m[target.0.key()].entry.task.params.is_set(target.1 as int),
    ensures
        deliver_outcome(m, target, v) == DeliverOutcome::Failed(DeliverError::AlreadySet),
        deliver_pending(m, target, v) == m,
{
}

/// Delivering a value whose type does not match the slot's declared type is
/// reported as an error and leaves the slot unset: the table is untouched
/// and the destination remains pending.
pub proof fn lemma_type_mismatch_keeps_pending(
    m: Map<usize, PendEntryV>,
    target: CondAddr,
    v: Value,
)
    requires
        target.0.assigned(),
        m.contains_key(target.0.key()),
        target.1 < m[target.0.key()].entry.task.params.arity(),
        !m[target.0.key()].entry.task.params.is_set(target.1 as int),
        v.vtype() != m[target.0.key()].entry.task.params.types[target.1 as int],
    ensures
        deliver_outcome(m, target, v) == DeliverOutcome::Failed(DeliverError::TypeMismatch),
        deliver_pending(m, target, v) == m,
        deliver_pending(m, target, v).contains_key(target.0.key()),
        !deliver_pending(m, target, v)[target.0.key()].entry.task.params.is_set(target.1 as int),
{
}

/// Entries pushed onto one queue in order come out in that order: after
/// pushing `a` and then `b` onto `s` with no pop in between, `a` stands
/// ahead of `b`, so the pops that reach them return `a` strictly first.
pub proof fn lemma_fifo_order(s: Seq<EntryV>, a: EntryV, b: EntryV)
    ensures
        s.push(a).push(b).len() == s.len() + 2,
        s.push(a).push(b)[s.len() as int] == a,
        s.push(a).push(b)[s.len() as int + 1] == b,
        s.push(a).push(b).skip(s.len() as int) =~= seq![a, b],
{
}

/// A delivery never adds a task to the pending table: its domain can only
/// keep or lose keys.
pub proof fn lemma_deliver_pending_dom(m: Map<usize, PendEntryV>, target: CondAddr, v: Value)
    ensures
        forall|k: usize|
            #[trigger] deliver_pending(m, target, v).contains_key(k) ==> m.contains_key(k),
{
}

/// The mutex-guarded pending-task table: task id to waiting (task,
/// continuation) pair. A task id is a key here only while the task still
/// waits on at least one slot.
#[derive(Debug)]
pub struct C1map {
    pub map: HashMap<usize, PendEntry>,
}

impl View for C1map {
    type V = Map<usize, PendEntryV>;

    open spec fn view(&self) -> Map<usize, PendEntryV> {
        self.map@.map_values(|pe: PendEntry| pe@)
    }
}

impl C1map {
    /// An empty table.
    pub fn new() -> (r: C1map)
        ensures
            r@ == Map::<usize, PendEntryV>::empty(),
    {
        let m = C1map { map: HashMap::new() };
        proof {
            assert(m@ =~= Map::<usize, PendEntryV>::empty());
        }
        m
    }

    /// How many tasks are waiting.
    pub fn len(&self) -> (r: usize)
        ensures
            r == self@.len(),
    {
        proof {
            assert(self@.dom() =~= self.map@.dom());
        }
        self.map.len()
    }

    /// Returns `tid` back exactly when it is assigned and currently waiting
    /// in the table.
    pub fn check(&self, tid: TaskId) -> (r: Option<TaskId>)
        ensures
            r == (if tid.assigned() && self@.contains_key(tid.key()) {
                Option::Some(tid)
            } else {
                Option::None::<TaskId>
            }),
    {
        let key: usize = match tid.0 {
            None => {
                return None;
            },
            Some(k) => k,
        };
        if self.map.contains_key(&key) {
            Some(tid)
        } else {
            None
        }
    }

    /// Inserts a waiting pair under `taskid`, bound for queue `qid` once
    /// full. Fails, changing nothing, if `taskid` is already occupied.
    pub fn try_insert(&mut self, entry: Entry, taskid: usize, qid: usize) -> (r: Option<usize>)
        requires
            taskid != 0,
        ensures
            old(self)@.contains_key(taskid) ==> r is None && final(self)@ == old(self)@,
            !old(self)@.contains_key(taskid) ==> r == Option::Some(taskid) && final(self)@ == old(
                self,
            )@.insert(taskid, (PendEntryV { entry: entry@, qid })),
    {
        if self.map.contains_key(&taskid) {
            None
        } else {
            self.map.insert(taskid, PendEntry { entry, qid });
            proof {
                assert(final(self)@ =~= old(self)@.insert(
                    taskid,
                    (PendEntryV { entry: entry@, qid }),
                ));
            }
            Some(taskid)
        }
    }

    /// Removes and returns the pair waiting under `id`, if any.
    pub fn remove(&mut self, id: usize) -> (r: Option<PendEntry>)
        ensures
            final(self)@ == old(self)@.remove(id),
            r matches Some(pe) ==> old(self)@.contains_key(id) && pe@ == old(self)@[id],
            r is None ==> !old(self)@.contains_key(id),
    {
        let r = self.map.remove(&id);
        proof {
            assert(final(self)@ =~= old(self)@.remove(id));
        }
        r
    }

    /// Updates the condition slot `target` names with `v`: the slot-store
    /// update of one delivery, leaving the entry in the table. `Ok` reports
    /// whether the destination is now full; any refusal leaves the table
    /// exactly as it was.
    pub fn update_ci(&mut self, target: &CondAddr, v: Value, _from: &TaskId) -> (r: Result<
        bool,
        DeliverError,
    >)
        requires
            forall|k: usize|
                #[trigger] old(self)@.contains_key(k) ==> old(self)@[k].entry.task.params.wf(),
        ensures
            r matches Err(e) ==> DeliverOutcome::Failed(e) == deliver_outcome(
                old(self)@,
                *target,
                v,
            ) && final(self)@ == old(self)@,
            r matches Ok(full) ==> {
                let k = target.0.key();
                &&& old(self)@.contains_key(k)
                &&& old(self)@[k].entry.task.params.accepts(target.1 as int, v)
                &&& final(self)@ == old(self)@.insert(
                    k,
                    pend_set_slot(old(self)@[k], target.1 as int, v),
                )
                &&& (full <==> deliver_outcome(old(self)@, *target, v)
                    == DeliverOutcome::Enqueued)
                &&& (!full <==> deliver_outcome(old(self)@, *target, v)
                    == DeliverOutcome::Stored)
            },
    {
        let key: usize = match target.taskid().0 {
            None => {
                return Err(DeliverError::NilTaskId);
            },
            Some(k) => k,
        };
        let mut pe = match self.map.remove(&key) {
            None => {
                proof {
                    assert(final(self)@ =~= old(self)@);
                }
                return Err(DeliverError::NotFound);
            },
            Some(pe) => pe,
        };
        let ghost pe0 = pe@;
        match pe.entry.task.params.set(target.pi(), v) {
            Err(e) => {
                self.map.insert(key, pe);
                proof {
                    assert(pe@ == pe0);
                    assert(final(self)@ =~= old(self)@);
                }
                Err(
                    match e {
                        SlotError::OutOfRange => DeliverError::OutOfRange,
                        SlotError::AlreadySet => DeliverError::AlreadySet,
                        SlotError::TypeMismatch => DeliverError::TypeMismatch,
                    },
                )
            },
            Ok(full) => {
                self.map.insert(key, pe);
                proof {
                    assert(pe@ == pend_set_slot(old(self)@[key], target.1 as int, v));
                    assert(final(self)@ =~= old(self)@.insert(
                        key,
                        pend_set_slot(old(self)@[key], target.1 as int, v),
                    ));
                }
                Ok(full)
            },
        }
    }
}

/// Performs one delivery of `v` to the condition slot `target` names: looks
/// the destination up in the pending table, updates the slot, and — exactly
/// when the destination thereby became full — moves it from the table onto
/// its destination queue. A failed delivery is reported in the outcome and
/// dropped, never retried: a delivery that races ahead of its destination's
/// insertion is a permanent failure. It never affects the tables.
pub fn when_ci_comed(
    c1map: &mut C1map,
    queues: &mut Vec<Queue>,
    target: &CondAddr,
    v: Value,
    from: &TaskId,
) -> (r: DeliverOutcome)
    requires
        pending_wf(old(c1map)@, old(queues)@.len()),
    ensures
        r == deliver_outcome(old(c1map)@, *target, v),
        final(c1map)@ == deliver_pending(old(c1map)@, *target, v),
        pending_wf(final(c1map)@, final(queues)@.len()),
        final(queues)@.len() == old(queues)@.len(),
        r != DeliverOutcome::Enqueued ==> final(queues)@ == old(queues)@,
        r == DeliverOutcome::Enqueued ==> {
            let pe = old(c1map)@[target.0.key()];
            &&& final(queues)@[pe.qid as int]@ == old(queues)@[pe.qid as int]@.push(
                entry_set_slot(pe.entry, target.1 as int, v),
            )
            &&& forall|j: int|
                0 <= j < old(queues)@.len() && j != pe.qid ==> final(queues)@[j] == old(
                    queues,
                )@[j]
        },
{
    let full = match c1map.update_ci(target, v, from) {
        Err(e) => {
            return DeliverOutcome::Failed(e);
        },
        Ok(full) => full,
    };
    if !full {
        return DeliverOutcome::Stored;
    }
    let key: usize = match target.taskid().0 {
        None => {
            // update_ci accepted the delivery, so the address is assigned.
            proof {
                assert(false);
            }
            return DeliverOutcome::Failed(DeliverError::NilTaskId);
        },
        Some(k) => k,
    };
    let pe = match c1map.remove(key) {
        None => {
            // update_ci just updated this very entry, so it is present.
            proof {
                assert(false);
            }
            return DeliverOutcome::Failed(DeliverError::NotFound);
        },
        Some(pe) => pe,
    };
    let qid = pe.qid;
    let q = &mut queues[qid];
    q.push(pe.entry);
    DeliverOutcome::Enqueued
}

} // verus!
