use rase::pool::{JobQueue, Message, PoolError, QUEUE_CAPACITY};

#[test]
fn pool_needs_workers() {
    let r: Result<JobQueue<u32>, PoolError> = JobQueue::new(0);
    assert!(matches!(r, Err(PoolError::InvalidConfiguration)));
}

#[test]
fn saturated_queue_rejects_without_blocking() {
    let mut q: JobQueue<usize> = JobQueue::new(2).unwrap();
    for i in 0..QUEUE_CAPACITY {
        assert!(q.try_submit(i).is_ok());
    }
    assert_eq!(q.try_submit(7777), Err(7777));
    assert_eq!(q.try_submit(8888), Err(8888));
    assert_eq!(q.len(), QUEUE_CAPACITY);
    assert!(matches!(q.next(), Some(Message::NewJob(0))));
    assert!(q.try_submit(9999).is_ok());
}

#[test]
fn shutdown_runs_queued_jobs_first() {
    let mut q: JobQueue<u32> = JobQueue::new(3).unwrap();
    q.try_submit(1).unwrap();
    q.try_submit(2).unwrap();
    q.shutdown();
    assert!(q.is_closed());
    assert_eq!(q.try_submit(3), Err(3));
    assert!(matches!(q.next(), Some(Message::NewJob(1))));
    assert!(matches!(q.next(), Some(Message::NewJob(2))));
    for _ in 0..3 {
        assert!(matches!(q.next(), Some(Message::Terminate)));
    }
    assert!(q.next().is_none());
    q.shutdown();
    assert_eq!(q.len(), 0);
}

#[test]
fn queue_reports_its_capacity() {
    let q: JobQueue<u8> = JobQueue::new(1).unwrap();
    assert_eq!(q.capacity(), QUEUE_CAPACITY);
    assert_eq!(q.capacity(), 1000);
    assert_eq!(q.workers(), 1);
}
