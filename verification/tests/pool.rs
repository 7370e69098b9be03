use snippets::pool::message::{Directive, Message, Outcome, PoolError, TaskFailure};
use snippets::pool::thread_pool::{failed_prematurely, ThreadPool};
use snippets::pool::worker::{Worker, WorkerState};

/// Runs the pool to completion on one thread: the workers take turns, one
/// after the other, and each task bumps its own counter.
fn drain(pool: &mut ThreadPool<usize>, counters: &mut Vec<u32>, seen: &mut Vec<bool>) {
    let size = pool.size();
    let mut turn = 0;
    while !pool.is_terminated() {
        let worker = turn % size;
        turn += 1;
        match pool.receive(worker) {
            Ok(Directive::Run(task)) => {
                counters[task] += 1;
                seen[worker as usize] = true;
                assert_eq!(pool.complete(worker, Outcome::Completed), Ok(None));
            }
            Ok(Directive::Wait) => panic!("a draining pool left worker {} waiting", worker),
            Ok(Directive::Stop) => {}
            Err(PoolError::ChannelBroken) => {
                assert_eq!(pool.worker_state(worker), Some(WorkerState::Stopped));
            }
            Err(other) => panic!("unexpected error {:?}", other),
        }
    }
}

#[test]
fn pool_has_as_many_workers_as_asked_for() {
    for size in [1u32, 2, 4, 17] {
        let mut pool: ThreadPool<usize> = ThreadPool::new(size).unwrap();
        assert_eq!(pool.size(), size);
        for worker in 0..size {
            assert_eq!(pool.worker_state(worker), Some(WorkerState::Idle));
        }
        assert_eq!(pool.worker_state(size), None);

        let tasks = 5 * size as usize;
        let mut counters = vec![0u32; tasks];
        let mut seen = vec![false; size as usize];
        for task in 0..tasks {
            assert_eq!(pool.execute(task), Ok(()));
        }
        pool.shutdown();
        drain(&mut pool, &mut counters, &mut seen);
        assert!(seen.iter().all(|&s| s));
        assert_eq!(pool.size(), size);
    }
}

#[test]
fn zero_workers_are_refused() {
    let pool: Result<ThreadPool<usize>, PoolError> = ThreadPool::new(0);
    assert_eq!(pool.err(), Some(PoolError::ConstructionError));
}

#[test]
fn every_task_runs_exactly_once() {
    let mut pool: ThreadPool<usize> = ThreadPool::new(3).unwrap();
    let mut counters = vec![0u32; 50];
    let mut seen = vec![false; 3];
    for task in 0..50 {
        assert_eq!(pool.execute(task), Ok(()));
    }
    assert_eq!(pool.pending(), 50);
    pool.shutdown();
    assert_eq!(pool.pending(), 53);
    drain(&mut pool, &mut counters, &mut seen);
    assert!(pool.is_terminated());
    assert_eq!(pool.pending(), 0);
    assert_eq!(counters, vec![1u32; 50]);
}

#[test]
fn tasks_are_dispatched_first_in_first_out() {
    let mut pool: ThreadPool<&'static str> = ThreadPool::new(2).unwrap();
    pool.execute("a").unwrap();
    pool.execute("b").unwrap();
    pool.execute("c").unwrap();
    assert!(matches!(pool.receive(1), Ok(Directive::Run("a"))));
    assert!(matches!(pool.receive(0), Ok(Directive::Run("b"))));
    pool.complete(0, Outcome::Completed).unwrap();
    assert!(matches!(pool.receive(0), Ok(Directive::Run("c"))));
    pool.complete(1, Outcome::Completed).unwrap();
    assert!(matches!(pool.receive(1), Ok(Directive::Wait)));
}

#[test]
fn shutdown_waits_for_a_task_in_flight() {
    let mut pool: ThreadPool<usize> = ThreadPool::new(4).unwrap();
    pool.execute(0).unwrap();
    assert!(matches!(pool.receive(2), Ok(Directive::Run(0))));

    pool.shutdown();
    assert!(pool.is_shutting_down());
    for worker in [0u32, 1, 3] {
        assert!(matches!(pool.receive(worker), Ok(Directive::Stop)));
    }
    // the task has not finished: the pool is not done, and stays so
    assert!(!pool.is_terminated());
    assert_eq!(pool.receive(2), Err(PoolError::ChannelBroken));
    assert!(!pool.is_terminated());

    assert_eq!(pool.complete(2, Outcome::Completed), Ok(None));
    assert!(!pool.is_terminated());
    assert!(matches!(pool.receive(2), Ok(Directive::Stop)));
    assert!(pool.is_terminated());
}

#[test]
fn shutdown_drains_the_queue_before_terminating() {
    let mut pool: ThreadPool<usize> = ThreadPool::new(1).unwrap();
    pool.execute(10).unwrap();
    pool.execute(11).unwrap();
    pool.shutdown();
    assert!(matches!(pool.receive(0), Ok(Directive::Run(10))));
    pool.complete(0, Outcome::Completed).unwrap();
    assert!(matches!(pool.receive(0), Ok(Directive::Run(11))));
    pool.complete(0, Outcome::Completed).unwrap();
    assert!(!pool.is_terminated());
    assert!(matches!(pool.receive(0), Ok(Directive::Stop)));
    assert!(pool.is_terminated());
}

#[test]
fn pool_survives_a_failing_task() {
    let mut flag = false;
    let mut pool: ThreadPool<bool> = ThreadPool::new(1).unwrap();
    // `true` stands for the task that fails, `false` for the one that flips the flag
    pool.execute(true).unwrap();
    pool.execute(false).unwrap();
    pool.shutdown();
    loop {
        match pool.receive(0) {
            Ok(Directive::Run(fails)) => {
                let outcome = if fails {
                    Outcome::Panicked
                } else {
                    flag = true;
                    Outcome::Completed
                };
                let report = pool.complete(0, outcome).unwrap();
                assert_eq!(report, if fails { Some(TaskFailure { worker: 0 }) } else { None });
                assert_eq!(pool.worker_state(0), Some(WorkerState::Idle));
            }
            Ok(Directive::Stop) => break,
            other => panic!("unexpected {:?}", other),
        }
    }
    assert!(pool.is_terminated());
    assert!(flag);
}

#[test]
fn submission_after_shutdown_is_refused() {
    let mut pool: ThreadPool<usize> = ThreadPool::new(2).unwrap();
    pool.execute(1).unwrap();
    pool.shutdown();
    assert_eq!(pool.execute(2), Err(PoolError::SubmissionAfterShutdown));
    assert_eq!(pool.submit(3), Err(()));
    assert_eq!(pool.pending(), 3);
}

#[test]
fn second_shutdown_queues_nothing() {
    let mut pool: ThreadPool<usize> = ThreadPool::new(3).unwrap();
    pool.shutdown();
    assert_eq!(pool.pending(), 3);
    pool.shutdown();
    assert_eq!(pool.pending(), 3);
}

#[test]
fn queue_is_closed_to_strangers() {
    let mut pool: ThreadPool<usize> = ThreadPool::new(2).unwrap();
    pool.execute(1).unwrap();
    // not a worker of the pool
    assert_eq!(pool.receive(2), Err(PoolError::ChannelBroken));
    assert_eq!(pool.complete(2, Outcome::Completed), Err(PoolError::ChannelBroken));
    // an idle worker has nothing to report
    assert_eq!(pool.complete(0, Outcome::Panicked), Err(PoolError::ChannelBroken));
    assert_eq!(pool.pending(), 1);
    // a busy worker gets no second task
    assert!(matches!(pool.receive(0), Ok(Directive::Run(1))));
    pool.execute(2).unwrap();
    assert_eq!(pool.receive(0), Err(PoolError::ChannelBroken));
    assert_eq!(pool.pending(), 1);
}

#[test]
fn submit_takes_a_task_only_for_a_free_worker() {
    let mut pool: ThreadPool<usize> = ThreadPool::new(1).unwrap();
    assert_eq!(pool.submit(1), Ok(()));
    // the task still waits: nothing more is taken
    assert_eq!(pool.submit(2), Err(()));
    assert!(matches!(pool.receive(0), Ok(Directive::Run(1))));
    // the only worker is busy
    assert!(!pool.has_idle_worker());
    assert_eq!(pool.submit(3), Err(()));
    pool.complete(0, Outcome::Completed).unwrap();
    assert_eq!(pool.submit(4), Ok(()));
    assert!(matches!(pool.receive(0), Ok(Directive::Run(4))));
}

#[test]
fn worker_follows_its_state_machine() {
    let mut worker = Worker::new(7);
    assert_eq!(worker.id(), 7);
    assert_eq!(worker.state(), WorkerState::Idle);
    assert_eq!(worker.finish(Outcome::Panicked), None);

    assert!(matches!(worker.handle(Message::Execute(5u8)), Ok(Directive::Run(5))));
    assert_eq!(worker.state(), WorkerState::Busy);
    assert!(matches!(worker.handle(Message::Execute(6u8)), Err(Message::Execute(6))));
    assert_eq!(worker.finish(Outcome::Panicked), Some(TaskFailure { worker: 7 }));
    assert_eq!(worker.state(), WorkerState::Idle);

    assert!(matches!(worker.handle(Message::<u8>::Terminate), Ok(Directive::Stop)));
    assert_eq!(worker.state(), WorkerState::Stopped);
    // no way back
    assert!(matches!(worker.handle(Message::Execute(8u8)), Err(Message::Execute(8))));
    assert_eq!(worker.finish(Outcome::Completed), None);
    assert_eq!(worker.state(), WorkerState::Stopped);
}

#[test]
fn join_reports_each_failed_worker() {
    assert_eq!(failed_prematurely(&vec![false, true, false, true]), vec![1, 3]);
    assert_eq!(failed_prematurely(&vec![false; 4]), Vec::<u32>::new());
    assert_eq!(failed_prematurely(&vec![]), Vec::<u32>::new());
}
