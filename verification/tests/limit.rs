use tokio::sync::{Semaphore, TryAcquireError};
use webworker::limit::permit_or_full;
use webworker::{Full, TaskLimit};

#[test]
fn unlimited_worker_always_accepts() {
    let limit = TaskLimit::new(None);
    assert_eq!(limit.capacity(), None);
    assert!(limit.semaphore().is_none());
    assert!(matches!(limit.try_reserve(), Ok(None)));
    assert!(matches!(limit.try_reserve(), Ok(None)));
}

#[test]
fn limited_worker_refuses_when_full() {
    let limit = TaskLimit::new(Some(2));
    assert_eq!(limit.capacity(), Some(2));
    let p1 = limit.try_reserve();
    assert!(matches!(p1, Ok(Some(_))));
    let p2 = limit.try_reserve();
    assert!(matches!(p2, Ok(Some(_))));
    assert_eq!(limit.capacity(), Some(0));
    assert!(matches!(limit.try_reserve(), Err(Full)));
    drop(p1);
    assert_eq!(limit.capacity(), Some(1));
    assert!(matches!(limit.try_reserve(), Ok(Some(_))));
}

#[test]
fn zero_limit_is_always_full() {
    let limit = TaskLimit::new(Some(0));
    assert_eq!(limit.capacity(), Some(0));
    assert!(matches!(limit.try_reserve(), Err(Full)));
}

#[test]
fn full_error_message() {
    assert_eq!(Full::message(), "WebWorker capacity reached");
}

#[test]
fn permit_or_full_maps_each_outcome() {
    let s = Semaphore::new(1);
    assert!(permit_or_full(s.try_acquire()).is_ok());
    assert!(matches!(permit_or_full(Err(TryAcquireError::NoPermits)), Err(Full)));
    assert!(matches!(permit_or_full(Err(TryAcquireError::Closed)), Err(Full)));
}
