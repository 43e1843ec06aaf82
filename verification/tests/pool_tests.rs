use http_library::{Pool, PoolCreationError, WorkerAction};

#[test]
fn a_pool_of_size_zero_is_a_configuration_error() {
    let r: Result<Pool<u32>, PoolCreationError> = Pool::build(0);
    match r {
        Err(e) => assert_eq!(e, PoolCreationError::ZeroThreadsError),
        Ok(_) => panic!("a zero-size pool must not build"),
    }
}

#[test]
fn a_pool_of_size_n_accepts_n_jobs_and_hands_each_out_exactly_once() {
    let n: u32 = 4;
    let mut pool: Pool<u32> = Pool::build(n as usize).unwrap();
    for job in 0..n {
        pool.execute(job);
    }
    assert_eq!(pool.pending_len(), n as usize);
    let mut seen = vec![0u32; n as usize];
    for expected in 0..n {
        match pool.next_action() {
            WorkerAction::Run(job) => {
                assert_eq!(job, expected);
                seen[job as usize] += 1;
            },
            other => panic!("expected a job to run, got {:?}", other),
        }
    }
    assert!(seen.iter().all(|&c| c == 1));
    assert_eq!(pool.pending_len(), 0);
}

#[test]
fn jobs_come_out_in_submission_order() {
    let mut pool: Pool<&str> = Pool::build(2).unwrap();
    pool.execute("first");
    pool.execute("second");
    pool.execute("third");
    assert!(matches!(pool.next_action(), WorkerAction::Run("first")));
    assert!(matches!(pool.next_action(), WorkerAction::Run("second")));
    assert!(matches!(pool.next_action(), WorkerAction::Run("third")));
}

#[test]
fn an_idle_open_pool_makes_workers_wait() {
    let mut pool: Pool<u32> = Pool::build(1).unwrap();
    assert!(pool.is_open());
    assert!(matches!(pool.next_action(), WorkerAction::Wait));
}

#[test]
fn shutdown_drains_queued_jobs_before_any_worker_exits() {
    let mut pool: Pool<u32> = Pool::build(2).unwrap();
    pool.execute(10);
    pool.execute(20);
    pool.close();
    assert!(!pool.is_open());
    // Jobs submitted before the close still run to completion, in order.
    assert!(matches!(pool.next_action(), WorkerAction::Run(10)));
    assert!(matches!(pool.next_action(), WorkerAction::Run(20)));
    // Only a closed, drained queue lets a worker exit.
    assert!(matches!(pool.next_action(), WorkerAction::Exit));
    assert!(matches!(pool.next_action(), WorkerAction::Exit));
}
