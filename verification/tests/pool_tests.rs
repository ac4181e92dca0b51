use embed_pool::pool::{AcquireOutcome, PoolError, ReleaseOutcome, ResourcePool};

#[test]
fn fresh_pool_counts() {
    let p = ResourcePool::new(4);
    assert_eq!(p.capacity(), 4);
    assert_eq!(p.idle_count(), 0);
    assert_eq!(p.lent_count(), 0);
    assert_eq!(p.waiting_count(), 0);
    assert_eq!(p.constructed_count(), 0);
}

#[test]
fn acquire_constructs_lazily() {
    let mut p = ResourcePool::new(2);
    assert_eq!(p.acquire(1), AcquireOutcome::MustConstruct);
    assert_eq!(p.constructed_count(), 0);
    let id = p.construction_succeeded();
    assert_eq!(id, 0);
    assert_eq!(p.constructed_count(), 1);
    assert_eq!(p.lent_count(), 1);
    assert_eq!(p.idle_count(), 0);
}

#[test]
fn acquire_grants_idle_handle() {
    let mut p = ResourcePool::new(2);
    assert_eq!(p.acquire(1), AcquireOutcome::MustConstruct);
    let id = p.construction_succeeded();
    assert_eq!(p.release(id), Ok(ReleaseOutcome::Idled));
    assert_eq!(p.acquire(2), AcquireOutcome::Granted { resource_id: id });
    assert_eq!(p.constructed_count(), 1);
}

#[test]
fn acquire_enqueues_at_capacity() {
    let mut p = ResourcePool::new(1);
    assert_eq!(p.acquire(1), AcquireOutcome::MustConstruct);
    let _id = p.construction_succeeded();
    assert_eq!(p.acquire(2), AcquireOutcome::Enqueued);
    assert_eq!(p.waiting_count(), 1);
}

#[test]
fn capacity_bound_under_load() {
    let mut p = ResourcePool::new(2);
    let mut constructs = 0;
    for w in 0..10u64 {
        match p.acquire(w) {
            AcquireOutcome::MustConstruct => {
                p.construction_succeeded();
                constructs += 1;
            }
            AcquireOutcome::Granted { .. } => panic!("nothing was ever released"),
            AcquireOutcome::Enqueued => {}
        }
        assert!(p.lent_count() + p.idle_count() <= p.capacity());
    }
    assert_eq!(constructs, 2);
    assert_eq!(p.lent_count(), 2);
    assert_eq!(p.waiting_count(), 8);
}

#[test]
fn exclusive_handles() {
    let mut p = ResourcePool::new(2);
    assert_eq!(p.acquire(1), AcquireOutcome::MustConstruct);
    let a = p.construction_succeeded();
    assert_eq!(p.acquire(2), AcquireOutcome::MustConstruct);
    let b = p.construction_succeeded();
    assert_ne!(a, b);
}

#[test]
fn fifo_handoff_order() {
    let mut p = ResourcePool::new(1);
    assert_eq!(p.acquire(0), AcquireOutcome::MustConstruct);
    let id = p.construction_succeeded();
    assert_eq!(p.acquire(1), AcquireOutcome::Enqueued);
    assert_eq!(p.acquire(2), AcquireOutcome::Enqueued);
    assert_eq!(p.acquire(3), AcquireOutcome::Enqueued);
    assert_eq!(p.release(id), Ok(ReleaseOutcome::HandedOver { waiter_id: 1 }));
    assert_eq!(p.release(id), Ok(ReleaseOutcome::HandedOver { waiter_id: 2 }));
    assert_eq!(p.release(id), Ok(ReleaseOutcome::HandedOver { waiter_id: 3 }));
    assert_eq!(p.release(id), Ok(ReleaseOutcome::Idled));
}

#[test]
fn five_requests_two_constructions() {
    // Five concurrent requests against capacity 2: exactly two resources are
    // ever constructed, and every request eventually gets a handle.
    let mut p = ResourcePool::new(2);
    let mut held = Vec::new();
    let mut queued = Vec::new();
    for w in 0..5u64 {
        match p.acquire(w) {
            AcquireOutcome::MustConstruct => held.push(p.construction_succeeded()),
            AcquireOutcome::Granted { resource_id } => held.push(resource_id),
            AcquireOutcome::Enqueued => queued.push(w),
        }
    }
    assert_eq!(held.len(), 2);
    assert_eq!(queued, vec![2, 3, 4]);
    let mut served = 0;
    while let Some(id) = held.pop() {
        match p.release(id).unwrap() {
            ReleaseOutcome::HandedOver { waiter_id } => {
                assert_eq!(waiter_id, queued[served]);
                served += 1;
                held.push(id);
            }
            ReleaseOutcome::Idled => {}
        }
    }
    assert_eq!(served, 3);
    assert_eq!(p.constructed_count(), 2);
    assert_eq!(p.idle_count(), 2);
    assert_eq!(p.waiting_count(), 0);
}

#[test]
fn failed_construction_not_poisoning() {
    let mut p = ResourcePool::new(1);
    assert_eq!(p.acquire(1), AcquireOutcome::MustConstruct);
    assert_eq!(p.construction_failed(), None);
    assert_eq!(p.constructed_count(), 0);
    // The pool stays usable: a later acquire may retry construction.
    assert_eq!(p.acquire(2), AcquireOutcome::MustConstruct);
    let id = p.construction_succeeded();
    assert_eq!(p.release(id), Ok(ReleaseOutcome::Idled));
}

#[test]
fn failed_construction_hands_slot_to_waiter() {
    let mut p = ResourcePool::new(1);
    assert_eq!(p.acquire(1), AcquireOutcome::MustConstruct);
    assert_eq!(p.acquire(2), AcquireOutcome::Enqueued);
    assert_eq!(p.construction_failed(), Some(2));
    assert_eq!(p.waiting_count(), 0);
    // The slot travelled to the woken waiter, who constructs in turn.
    let id = p.construction_succeeded();
    assert_eq!(id, 0);
}

#[test]
fn failed_computation_recovers_capacity() {
    let mut p = ResourcePool::new(1);
    assert_eq!(p.acquire(1), AcquireOutcome::MustConstruct);
    let id = p.construction_succeeded();
    // The computation faults; the handle is released all the same.
    assert_eq!(p.release(id), Ok(ReleaseOutcome::Idled));
    // The next request gets a handle without a new construction.
    assert_eq!(p.acquire(2), AcquireOutcome::Granted { resource_id: id });
    assert_eq!(p.constructed_count(), 1);
}

#[test]
fn double_release_is_invalid() {
    let mut p = ResourcePool::new(1);
    assert_eq!(p.acquire(1), AcquireOutcome::MustConstruct);
    let id = p.construction_succeeded();
    assert_eq!(p.release(id), Ok(ReleaseOutcome::Idled));
    assert_eq!(p.release(id), Err(PoolError::InvalidHandle));
}

#[test]
fn foreign_handle_is_invalid() {
    let mut p = ResourcePool::new(1);
    assert_eq!(p.release(99), Err(PoolError::InvalidHandle));
    assert_eq!(p.discard(99), Err(PoolError::InvalidHandle));
}

#[test]
fn discard_frees_slot() {
    let mut p = ResourcePool::new(1);
    assert_eq!(p.acquire(1), AcquireOutcome::MustConstruct);
    let id = p.construction_succeeded();
    assert_eq!(p.discard(id), Ok(None));
    assert_eq!(p.idle_count(), 0);
    assert_eq!(p.lent_count(), 0);
    // The freed slot allows one more construction.
    assert_eq!(p.acquire(2), AcquireOutcome::MustConstruct);
    assert_eq!(p.construction_succeeded(), 1);
}

#[test]
fn discard_hands_slot_to_waiter() {
    let mut p = ResourcePool::new(1);
    assert_eq!(p.acquire(1), AcquireOutcome::MustConstruct);
    let id = p.construction_succeeded();
    assert_eq!(p.acquire(2), AcquireOutcome::Enqueued);
    assert_eq!(p.discard(id), Ok(Some(2)));
    let fresh = p.construction_succeeded();
    assert_ne!(fresh, id);
}

#[test]
fn cancel_wait_removes_waiter() {
    let mut p = ResourcePool::new(1);
    assert_eq!(p.acquire(1), AcquireOutcome::MustConstruct);
    let id = p.construction_succeeded();
    assert_eq!(p.acquire(2), AcquireOutcome::Enqueued);
    assert_eq!(p.acquire(3), AcquireOutcome::Enqueued);
    assert!(p.cancel_wait(2));
    assert!(!p.cancel_wait(2));
    assert_eq!(p.release(id), Ok(ReleaseOutcome::HandedOver { waiter_id: 3 }));
}

#[test]
fn zero_capacity_pool_only_queues() {
    let mut p = ResourcePool::new(0);
    assert_eq!(p.acquire(1), AcquireOutcome::Enqueued);
    assert_eq!(p.waiting_count(), 1);
}
