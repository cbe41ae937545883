use server::pool::{JobOutcome, Message, Worker, WorkerState};
use server::ThreadPool;

fn job_of(message: Option<Message<u32>>) -> Option<u32> {
    match message {
        Some(Message::NewJob(job)) => Some(job),
        _ => None,
    }
}

fn is_terminate(message: &Option<Message<u32>>) -> bool {
    matches!(message, Some(Message::Terminate))
}

#[test]
fn new_pool_has_exactly_the_workers_asked_for() {
    for size in [1usize, 2, 4, 9] {
        let pool: ThreadPool<u32> = ThreadPool::new(size);
        assert_eq!(pool.size(), size);
        assert_eq!(pool.pending(), 0);
        assert!(pool.is_accepting());
        assert!(!pool.is_drained());
        for id in 0..size {
            assert_eq!(
                pool.worker(id),
                Some(Worker { id, state: WorkerState::Waiting, joinable: true })
            );
        }
        assert_eq!(pool.worker(size), None);
    }
}

#[test]
fn five_jobs_run_once_each_whichever_worker_takes_them() {
    let mut pool: ThreadPool<u32> = ThreadPool::new(3);
    for stamp in 1..=5u32 {
        pool.execute(stamp);
    }
    assert_eq!(pool.pending(), 5);
    let mut seen: Vec<u32> = Vec::new();
    // Workers 2, 0 and 1 take turns, out of step with each other.
    seen.push(job_of(pool.take(2)).unwrap());
    seen.push(job_of(pool.take(0)).unwrap());
    pool.finish(2, JobOutcome::Completed);
    seen.push(job_of(pool.take(2)).unwrap());
    seen.push(job_of(pool.take(1)).unwrap());
    pool.finish(0, JobOutcome::Completed);
    seen.push(job_of(pool.take(0)).unwrap());
    assert_eq!(pool.pending(), 0);
    assert_eq!(seen, vec![1, 2, 3, 4, 5]);
    pool.finish(1, JobOutcome::Completed);
    assert!(pool.take(1).is_none());
    assert_eq!(pool.worker(1).unwrap().state, WorkerState::Waiting);
}

#[test]
fn take_from_empty_queue_changes_nothing() {
    let mut pool: ThreadPool<u32> = ThreadPool::new(2);
    assert!(pool.take(0).is_none());
    assert_eq!(pool.worker(0).unwrap().state, WorkerState::Waiting);
    assert_eq!(pool.pending(), 0);
}

#[test]
fn taking_a_job_makes_the_worker_run() {
    let mut pool: ThreadPool<u32> = ThreadPool::new(2);
    pool.execute(7);
    assert_eq!(job_of(pool.take(1)), Some(7));
    assert_eq!(pool.worker(1).unwrap().state, WorkerState::Running);
    assert_eq!(pool.worker(0).unwrap().state, WorkerState::Waiting);
    pool.finish(1, JobOutcome::Completed);
    assert_eq!(pool.worker(1).unwrap().state, WorkerState::Waiting);
}

#[test]
fn shutdown_sends_one_terminate_per_worker_behind_the_jobs() {
    let mut pool: ThreadPool<u32> = ThreadPool::new(3);
    pool.execute(10);
    pool.execute(20);
    let joined = pool.shutdown();
    assert_eq!(joined, vec![0, 1, 2]);
    assert!(!pool.is_accepting());
    assert_eq!(pool.pending(), 5);
    for id in 0..3 {
        assert!(!pool.worker(id).unwrap().joinable);
    }
    // The jobs come out first, then exactly three requests to exit.
    assert_eq!(job_of(pool.take(0)), Some(10));
    assert_eq!(job_of(pool.take(1)), Some(20));
    assert!(is_terminate(&pool.take(2)));
    assert_eq!(pool.worker(2).unwrap().state, WorkerState::Exited);
    pool.finish(0, JobOutcome::Completed);
    pool.finish(1, JobOutcome::Completed);
    assert!(!pool.is_drained());
    assert!(is_terminate(&pool.take(0)));
    assert!(is_terminate(&pool.take(1)));
    assert_eq!(pool.pending(), 0);
    assert!(pool.is_drained());
}

#[test]
fn second_shutdown_is_a_no_op() {
    let mut pool: ThreadPool<u32> = ThreadPool::new(4);
    pool.execute(1);
    assert_eq!(pool.shutdown(), vec![0, 1, 2, 3]);
    assert_eq!(pool.pending(), 5);
    assert_eq!(pool.shutdown(), Vec::<usize>::new());
    assert_eq!(pool.pending(), 5);
    assert!(!pool.is_accepting());
    for id in 0..4 {
        assert_eq!(
            pool.worker(id),
            Some(Worker { id, state: WorkerState::Waiting, joinable: false })
        );
    }
}

#[test]
fn shutdown_drains_jobs_in_flight() {
    let jobs: u32 = 6;
    let mut pool: ThreadPool<u32> = ThreadPool::new(2);
    for job in 0..jobs {
        pool.execute(job);
    }
    pool.shutdown();
    let mut completed: Vec<u32> = Vec::new();
    let mut turn: usize = 0;
    while !pool.is_drained() {
        let id = turn % 2;
        turn += 1;
        if pool.worker(id).unwrap().state != WorkerState::Waiting {
            continue;
        }
        if let Some(Message::NewJob(job)) = pool.take(id) {
            completed.push(job);
            pool.finish(id, JobOutcome::Completed);
        }
    }
    assert_eq!(completed, vec![0, 1, 2, 3, 4, 5]);
    assert_eq!(pool.pending(), 0);
}

#[test]
fn a_faulted_job_leaves_its_worker_ready_and_the_others_alone() {
    let mut pool: ThreadPool<u32> = ThreadPool::new(2);
    pool.execute(1);
    pool.execute(2);
    pool.execute(3);
    assert_eq!(job_of(pool.take(0)), Some(1));
    assert_eq!(job_of(pool.take(1)), Some(2));
    pool.finish(0, JobOutcome::Faulted);
    assert_eq!(pool.worker(0).unwrap().state, WorkerState::Waiting);
    assert_eq!(pool.worker(1).unwrap().state, WorkerState::Running);
    assert_eq!(pool.pending(), 1);
    assert_eq!(job_of(pool.take(0)), Some(3));
    pool.finish(1, JobOutcome::Completed);
    pool.finish(0, JobOutcome::Completed);
    assert!(pool.is_accepting());
}

#[test]
fn pool_carries_jobs_of_any_type() {
    let mut pool: ThreadPool<Box<dyn FnOnce() -> u32>> = ThreadPool::new(1);
    pool.execute(Box::new(|| 41 + 1));
    match pool.take(0) {
        Some(Message::NewJob(job)) => assert_eq!(job(), 42),
        _ => panic!("the job was not handed out"),
    }
}
