use netpup::threading::JobQueue;

#[test]
fn fresh_queue_is_empty() {
    let mut q: JobQueue<u32> = JobQueue::new(4);
    assert_eq!(q.size(), 4);
    assert_eq!(q.len(), 0);
    assert_eq!(q.take(), None);
    assert_eq!(q.len(), 0);
}

#[test]
fn jobs_leave_in_the_order_they_came() {
    let mut q: JobQueue<&str> = JobQueue::new(1);
    q.submit("a");
    q.submit("b");
    assert_eq!(q.len(), 2);
    assert_eq!(q.take(), Some("a"));
    q.submit("c");
    assert_eq!(q.take(), Some("b"));
    assert_eq!(q.take(), Some("c"));
    assert_eq!(q.take(), None);
    assert_eq!(q.size(), 1);
}

#[test]
fn more_jobs_than_workers_are_each_handed_out_once() {
    let workers = 4;
    let jobs = 100;
    let mut q: JobQueue<usize> = JobQueue::new(workers);
    let mut seen = vec![0usize; jobs];
    let mut next = 0;
    let mut handed = vec![];
    while next < jobs || q.len() > 0 {
        for _ in 0..7 {
            if next < jobs {
                q.submit(next);
                next += 1;
            }
        }
        for _ in 0..workers {
            if let Some(job) = q.take() {
                seen[job] += 1;
                handed.push(job);
            }
        }
    }
    assert!(seen.iter().all(|n| *n == 1));
    assert_eq!(handed, (0..jobs).collect::<Vec<usize>>());
    assert_eq!(q.take(), None);
}

#[test]
fn queue_holds_boxed_jobs() {
    let mut q: JobQueue<Box<dyn FnOnce() -> u8>> = JobQueue::new(2);
    q.submit(Box::new(|| 1));
    q.submit(Box::new(|| 2));
    let first = q.take().unwrap();
    let second = q.take().unwrap();
    assert_eq!(first(), 1);
    assert_eq!(second(), 2);
    assert!(q.take().is_none());
}
