use taskorch::pool::{Pool, Step, SubmitError, Submitter};
use taskorch::queue::{when_ci_comed, C1map, DeliverError, DeliverOutcome, Entry, Queue};
use taskorch::task::{CondAddr, Kind, ParamStore, Routing, Task, TaskId, VType, Value};

fn ready_task(kind: Kind, out: Option<Value>) -> Task {
    Task::new(kind, ParamStore::new(vec![]), out)
}

fn waiting_task(kind: Kind, types: Vec<VType>, out: Option<Value>) -> Task {
    Task::new(kind, ParamStore::new(types), out)
}

#[test]
fn zero_arity_enqueues_immediately() {
    let mut pool = Pool::new();
    let qid = pool.insert_queue(Queue::new()).unwrap();
    let sub = pool.task_submitter(qid).unwrap();
    let tid = pool
        .submit(sub, ready_task(Kind::Normal, Some(Value::Int(7))), Routing::NoOp)
        .unwrap();
    assert_eq!(tid, TaskId(Some(1)));
    // straight onto the queue, never into the pending table
    assert_eq!(pool.queue_len(qid), 1);
    assert_eq!(pool.pending_len(), 0);
}

#[test]
fn waiting_submission_goes_pending() {
    let mut pool = Pool::new();
    let qid = pool.insert_queue(Queue::new()).unwrap();
    let sub = pool.task_submitter(qid).unwrap();
    let tid = pool
        .submit(sub, waiting_task(Kind::Normal, vec![VType::Int], None), Routing::NoOp)
        .unwrap();
    assert_eq!(tid, TaskId(Some(1)));
    assert_eq!(pool.queue_len(qid), 0);
    assert_eq!(pool.pending_len(), 1);
}

#[test]
fn unknown_queue_is_refused() {
    let mut pool = Pool::new();
    assert_eq!(pool.task_submitter(0), None);
    let r = pool.submit(
        Submitter { qid: 3 },
        ready_task(Kind::Normal, None),
        Routing::NoOp,
    );
    assert_eq!(r, Err(SubmitError::UnknownQueue));
    assert_eq!(pool.pending_len(), 0);
}

#[test]
fn reused_reserved_id_collides_without_side_effects() {
    let mut pool = Pool::new();
    let qid = pool.insert_queue(Queue::new()).unwrap();
    let sub = pool.task_submitter(qid).unwrap();
    let x = pool.reserve_id();
    let mut t1 = waiting_task(Kind::Normal, vec![VType::Int], None);
    t1.id = x;
    assert!(pool.submit(sub, t1, Routing::NoOp).is_ok());
    let mut t2 = waiting_task(Kind::Normal, vec![VType::Str], None);
    t2.id = x;
    let r = pool.submit(sub, t2, Routing::NoOp);
    assert_eq!(r, Err(SubmitError::IdCollision));
    assert_eq!(pool.pending_len(), 1);
    assert_eq!(pool.queue_len(qid), 0);
}

#[test]
fn sealed_pool_accepts_no_queue() {
    let mut pool = Pool::new();
    assert_eq!(pool.insert_queue(Queue::new()), Some(0));
    pool.begin_join();
    assert_eq!(pool.insert_queue(Queue::new()), None);
}

#[test]
fn fifo_two_direct_tasks() {
    let mut pool = Pool::new();
    let qid = pool.insert_queue(Queue::new()).unwrap();
    let sub = pool.task_submitter(qid).unwrap();
    let a = pool
        .submit(sub, ready_task(Kind::Normal, None), Routing::NoOp)
        .unwrap();
    let b = pool
        .submit(sub, ready_task(Kind::Normal, None), Routing::NoOp)
        .unwrap();
    // submitted A then B with no dequeue in between: A runs strictly first
    match pool.worker_step(qid) {
        Step::Ran { id, exit, .. } => {
            assert_eq!(id, a);
            assert!(!exit);
        }
        Step::Idle => panic!("queue held two tasks"),
    }
    match pool.worker_step(qid) {
        Step::Ran { id, .. } => assert_eq!(id, b),
        Step::Idle => panic!("queue still held one task"),
    }
    assert!(matches!(pool.worker_step(qid), Step::Idle));
}

#[test]
fn fan_in_enqueues_exactly_once() {
    let mut pool = Pool::new();
    let qid = pool.insert_queue(Queue::new()).unwrap();
    let sub = pool.task_submitter(qid).unwrap();
    let dest = pool
        .submit(
            sub,
            waiting_task(Kind::Normal, vec![VType::Int, VType::Int, VType::Str], None),
            Routing::NoOp,
        )
        .unwrap();
    let from = TaskId(None);
    // three producers complete in some arrival order, each filling one slot
    let oc1 = when_ci_comed(
        &mut pool.pending,
        &mut pool.queues,
        &CondAddr::new(dest, 2),
        Value::Str("c".to_string()),
        &from,
    );
    assert_eq!(oc1, DeliverOutcome::Stored);
    let oc2 = when_ci_comed(
        &mut pool.pending,
        &mut pool.queues,
        &CondAddr::new(dest, 0),
        Value::Int(1),
        &from,
    );
    assert_eq!(oc2, DeliverOutcome::Stored);
    assert_eq!(pool.queue_len(qid), 0);
    // the delivery that sets the last unset slot is the one that enqueues
    let oc3 = when_ci_comed(
        &mut pool.pending,
        &mut pool.queues,
        &CondAddr::new(dest, 1),
        Value::Int(2),
        &from,
    );
    assert_eq!(oc3, DeliverOutcome::Enqueued);
    assert_eq!(pool.queue_len(qid), 1);
    assert_eq!(pool.pending_len(), 0);
    // and no delivery after it can enqueue the destination again
    let oc4 = when_ci_comed(
        &mut pool.pending,
        &mut pool.queues,
        &CondAddr::new(dest, 1),
        Value::Int(9),
        &from,
    );
    assert_eq!(oc4, DeliverOutcome::Failed(DeliverError::NotFound));
    assert_eq!(pool.queue_len(qid), 1);
}

#[test]
fn already_set_slot_is_kept_and_reported() {
    let mut pool = Pool::new();
    let qid = pool.insert_queue(Queue::new()).unwrap();
    let sub = pool.task_submitter(qid).unwrap();
    let dest = pool
        .submit(
            sub,
            waiting_task(Kind::Normal, vec![VType::Int, VType::Int], None),
            Routing::NoOp,
        )
        .unwrap();
    let from = TaskId(None);
    let addr = CondAddr::new(dest, 0);
    assert_eq!(
        when_ci_comed(&mut pool.pending, &mut pool.queues, &addr, Value::Int(5), &from),
        DeliverOutcome::Stored
    );
    // the second delivery to the same slot is refused and reported
    assert_eq!(
        when_ci_comed(&mut pool.pending, &mut pool.queues, &addr, Value::Int(7), &from),
        DeliverOutcome::Failed(DeliverError::AlreadySet)
    );
    // the first value is not corrupted
    let key = match dest {
        TaskId(Some(k)) => k,
        TaskId(None) => panic!("submission assigns an id"),
    };
    let pe = pool.pending.map.get(&key).expect("destination still pending");
    assert_eq!(pe.entry.task.params.vals[0], Some(Value::Int(5)));
    assert_eq!(pe.entry.task.params.vals[1], None);
}

#[test]
fn type_mismatch_leaves_slot_unset_and_pending() {
    let mut pool = Pool::new();
    let qid = pool.insert_queue(Queue::new()).unwrap();
    let sub = pool.task_submitter(qid).unwrap();
    let dest = pool
        .submit(sub, waiting_task(Kind::Normal, vec![VType::Int], None), Routing::NoOp)
        .unwrap();
    let from = TaskId(None);
    let oc = when_ci_comed(
        &mut pool.pending,
        &mut pool.queues,
        &CondAddr::new(dest, 0),
        Value::Str("not an int".to_string()),
        &from,
    );
    assert_eq!(oc, DeliverOutcome::Failed(DeliverError::TypeMismatch));
    // the destination remains pending with the slot still unset
    assert_eq!(pool.pending_len(), 1);
    assert_eq!(pool.queue_len(qid), 0);
    let key = match dest {
        TaskId(Some(k)) => k,
        TaskId(None) => panic!("submission assigns an id"),
    };
    let pe = pool.pending.map.get(&key).expect("destination still pending");
    assert_eq!(pe.entry.task.params.vals[0], None);
}

#[test]
fn exit_chain_propagates_shutdown() {
    let mut pool = Pool::new();
    let qid = pool.insert_queue(Queue::new()).unwrap();
    let sub = pool.task_submitter(qid).unwrap();
    // E2: an exit task waiting on one slot
    let e2 = pool
        .submit(sub, waiting_task(Kind::Exit, vec![VType::Int], None), Routing::NoOp)
        .unwrap();
    // E1: an exit task, ready at once, routing its output into E2's slot
    let e1 = pool
        .submit(
            sub,
            ready_task(Kind::Exit, Some(Value::Int(1))),
            Routing::Single(CondAddr::new(e2, 0)),
        )
        .unwrap();
    // the first worker runs E1; the continuation runs before the worker
    // stops, so E2 becomes full and is enqueued
    match pool.worker_step(qid) {
        Step::Ran { id, exit, deliveries } => {
            assert_eq!(id, e1);
            assert!(exit);
            assert_eq!(deliveries, vec![DeliverOutcome::Enqueued]);
        }
        Step::Idle => panic!("E1 was ready"),
    }
    assert_eq!(pool.queue_len(qid), 1);
    assert_eq!(pool.pending_len(), 0);
    // the next worker on the queue runs E2 and stops in turn
    match pool.worker_step(qid) {
        Step::Ran { id, exit, .. } => {
            assert_eq!(id, e2);
            assert!(exit);
        }
        Step::Idle => panic!("E2 was enqueued"),
    }
    // every task ran and nothing is left: join returns
    assert_eq!(pool.queue_len(qid), 0);
    assert_eq!(pool.pending_len(), 0);
}

#[test]
fn fan_out_across_two_queues() {
    let mut pool = Pool::new();
    let q1 = pool.insert_queue(Queue::new()).unwrap();
    let q2 = pool.insert_queue(Queue::new()).unwrap();
    let sub1 = pool.task_submitter(q1).unwrap();
    let sub2 = pool.task_submitter(q2).unwrap();
    // the final join task waits for all three destinations
    let join = pool
        .submit(
            sub1,
            waiting_task(Kind::Normal, vec![VType::Int, VType::Int, VType::Int], None),
            Routing::NoOp,
        )
        .unwrap();
    // two single-argument destinations on queue 1, one string-argument
    // destination on queue 2, each feeding the join task
    let b1 = pool
        .submit(
            sub1,
            waiting_task(Kind::Normal, vec![VType::Int], Some(Value::Int(1))),
            Routing::Single(CondAddr::new(join, 0)),
        )
        .unwrap();
    let b2 = pool
        .submit(
            sub1,
            waiting_task(Kind::Normal, vec![VType::Int], Some(Value::Int(2))),
            Routing::Single(CondAddr::new(join, 1)),
        )
        .unwrap();
    let count = pool
        .submit(
            sub2,
            waiting_task(Kind::Normal, vec![VType::Str], Some(Value::Int(9))),
            Routing::Single(CondAddr::new(join, 2)),
        )
        .unwrap();
    // the zero-arity producer fans one invocation into three destinations
    let producer = pool
        .submit(
            sub2,
            ready_task(Kind::Normal, Some(Value::Int(1))),
            Routing::FanOut(vec![
                (Value::Int(1), CondAddr::new(b1, 0)),
                (Value::Int(2), CondAddr::new(b2, 0)),
                (Value::Str("123456789".to_string()), CondAddr::new(count, 0)),
            ]),
        )
        .unwrap();
    match pool.worker_step(q2) {
        Step::Ran { id, deliveries, .. } => {
            assert_eq!(id, producer);
            assert_eq!(
                deliveries,
                vec![
                    DeliverOutcome::Enqueued,
                    DeliverOutcome::Enqueued,
                    DeliverOutcome::Enqueued
                ]
            );
        }
        Step::Idle => panic!("producer was ready"),
    }
    assert_eq!(pool.queue_len(q1), 2);
    assert_eq!(pool.queue_len(q2), 1);
    // workers on both queues drain their domains independently
    let mut ran: Vec<TaskId> = Vec::new();
    loop {
        let mut progressed = false;
        if let Step::Ran { id, .. } = pool.worker_step(q1) {
            ran.push(id);
            progressed = true;
        }
        if let Step::Ran { id, .. } = pool.worker_step(q2) {
            ran.push(id);
            progressed = true;
        }
        if !progressed {
            break;
        }
    }
    // all three destinations ran and fed the join task, which then ran too
    assert!(ran.contains(&b1));
    assert!(ran.contains(&b2));
    assert!(ran.contains(&count));
    assert_eq!(ran.last(), Some(&join));
    assert_eq!(pool.queue_len(q1), 0);
    assert_eq!(pool.queue_len(q2), 0);
    assert_eq!(pool.pending_len(), 0);
}

#[test]
fn reserved_id_routes_after_insertion() {
    let mut pool = Pool::new();
    let qid = pool.insert_queue(Queue::new()).unwrap();
    let sub = pool.task_submitter(qid).unwrap();
    // reserve X before its task is defined, and wire an earlier task to it
    let x = pool.reserve_id();
    let producer = pool
        .submit(
            sub,
            ready_task(Kind::Normal, Some(Value::Int(5))),
            Routing::Single(CondAddr::new(x, 0)),
        )
        .unwrap();
    // X's task is inserted before the producer runs: the routing succeeds
    let mut xtask = waiting_task(Kind::Normal, vec![VType::Int], None);
    xtask.id = x;
    assert_eq!(pool.submit(sub, xtask, Routing::NoOp), Ok(x));
    match pool.worker_step(qid) {
        Step::Ran { id, deliveries, .. } => {
            assert_eq!(id, producer);
            assert_eq!(deliveries, vec![DeliverOutcome::Enqueued]);
        }
        Step::Idle => panic!("producer was ready"),
    }
    match pool.worker_step(qid) {
        Step::Ran { id, .. } => assert_eq!(id, x),
        Step::Idle => panic!("X became full"),
    }
}

#[test]
fn delivery_ahead_of_insertion_is_a_permanent_failure() {
    let mut pool = Pool::new();
    let qid = pool.insert_queue(Queue::new()).unwrap();
    let sub = pool.task_submitter(qid).unwrap();
    let x = pool.reserve_id();
    let producer = pool
        .submit(
            sub,
            ready_task(Kind::Normal, Some(Value::Int(5))),
            Routing::Single(CondAddr::new(x, 0)),
        )
        .unwrap();
    // the producer runs before X's task is inserted: the delivery races
    // ahead, is reported as destination-not-found, and is never retried
    match pool.worker_step(qid) {
        Step::Ran { id, deliveries, .. } => {
            assert_eq!(id, producer);
            assert_eq!(
                deliveries,
                vec![DeliverOutcome::Failed(DeliverError::NotFound)]
            );
        }
        Step::Idle => panic!("producer was ready"),
    }
    // X's task, submitted afterwards, waits forever: the value is gone
    let mut xtask = waiting_task(Kind::Normal, vec![VType::Int], None);
    xtask.id = x;
    assert_eq!(pool.submit(sub, xtask, Routing::NoOp), Ok(x));
    assert!(matches!(pool.worker_step(qid), Step::Idle));
    assert_eq!(pool.pending_len(), 1);
}

#[test]
fn delivery_to_nil_address_is_refused() {
    let mut pool = Pool::new();
    let _ = pool.insert_queue(Queue::new());
    let from = TaskId(None);
    let oc = when_ci_comed(
        &mut pool.pending,
        &mut pool.queues,
        &CondAddr::new(TaskId(None), 0),
        Value::Int(1),
        &from,
    );
    assert_eq!(oc, DeliverOutcome::Failed(DeliverError::NilTaskId));
}

#[test]
fn out_of_range_slot_is_refused() {
    let mut pool = Pool::new();
    let qid = pool.insert_queue(Queue::new()).unwrap();
    let sub = pool.task_submitter(qid).unwrap();
    let dest = pool
        .submit(sub, waiting_task(Kind::Normal, vec![VType::Int], None), Routing::NoOp)
        .unwrap();
    let from = TaskId(None);
    let oc = when_ci_comed(
        &mut pool.pending,
        &mut pool.queues,
        &CondAddr::new(dest, 4),
        Value::Int(1),
        &from,
    );
    assert_eq!(oc, DeliverOutcome::Failed(DeliverError::OutOfRange));
    assert_eq!(pool.pending_len(), 1);
}

#[test]
fn pending_table_check_insert_remove() {
    let mut m = C1map::new();
    assert_eq!(m.len(), 0);
    let t = Task::new(Kind::Normal, ParamStore::new(vec![VType::Int]), None);
    let e = Entry { task: t, routing: Routing::NoOp };
    assert_eq!(m.try_insert(e, 5, 0), Some(5));
    assert_eq!(m.len(), 1);
    assert_eq!(m.check(TaskId(Some(5))), Some(TaskId(Some(5))));
    assert_eq!(m.check(TaskId(Some(6))), None);
    assert_eq!(m.check(TaskId(None)), None);
    let e2 = Entry {
        task: Task::new(Kind::Normal, ParamStore::new(vec![]), None),
        routing: Routing::NoOp,
    };
    // the occupied key refuses the second insertion
    assert_eq!(m.try_insert(e2, 5, 1), None);
    assert_eq!(m.len(), 1);
    let removed = m.remove(5).expect("inserted above");
    assert_eq!(removed.qid, 0);
    assert_eq!(m.len(), 0);
    assert!(m.remove(5).is_none());
}

#[test]
fn queue_orders_and_counts_entries() {
    let mut q = Queue::new();
    assert_eq!(q.len(), 0);
    let a = Task::new(Kind::Normal, ParamStore::new(vec![]), Some(Value::Int(1)));
    let b = Task::new(Kind::Normal, ParamStore::new(vec![]), Some(Value::Int(2)));
    q.push(taskorch::queue::Entry { task: a, routing: Routing::NoOp });
    q.push(taskorch::queue::Entry { task: b, routing: Routing::NoOp });
    assert_eq!(q.len(), 2);
    let first = q.pop().expect("two entries queued");
    assert_eq!(first.task.invoke(), Some(Value::Int(1)));
    let second = q.pop().expect("one entry left");
    assert_eq!(second.task.invoke(), Some(Value::Int(2)));
    assert!(q.pop().is_none());
    q.push(taskorch::queue::Entry {
        task: Task::new(Kind::Normal, ParamStore::new(vec![]), None),
        routing: Routing::NoOp,
    });
    q.clear();
    assert_eq!(q.len(), 0);
}
