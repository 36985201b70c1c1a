use std::cell::RefCell;
use std::rc::Rc;

use thread_pool::{on_message, Message, Step, ThreadPool, WorkQueue, Worker, WorkerState};

type Job = Box<dyn FnOnce()>;

/// Lets the worker `id` take one message off the queue and act on it, as its
/// loop would. Returns whether the worker stopped.
fn run_one(queue: &mut WorkQueue<Job>, id: usize, seen: &Rc<RefCell<Vec<usize>>>) -> bool {
    let m = queue.receive().expect("a message is waiting");
    let (state, step) = on_message(WorkerState::Running, m);
    match step {
        Step::Run(job) => {
            seen.borrow_mut().push(id);
            job();
            assert_eq!(state, WorkerState::Running);
            false
        }
        Step::Exit => {
            assert_eq!(state, WorkerState::Stopped);
            true
        }
    }
}

fn recording_job(log: &Rc<RefCell<Vec<u32>>>, tag: u32) -> Job {
    let log = Rc::clone(log);
    Box::new(move || log.borrow_mut().push(tag))
}

#[test]
fn new_numbers_workers_from_zero() {
    let pool = ThreadPool::new(5, |id: usize| id * 10);
    assert_eq!(pool.size(), 5);
    for (i, w) in pool.workers().iter().enumerate() {
        assert_eq!(w.id(), i);
        assert!(w.is_joinable());
    }
}

#[test]
fn new_spawns_once_per_worker_in_order() {
    let calls = RefCell::new(Vec::new());
    let pool = ThreadPool::new(3, |id: usize| {
        calls.borrow_mut().push(id);
        id + 100
    });
    assert_eq!(*calls.borrow(), vec![0, 1, 2]);
    assert_eq!(pool.size(), 3);
}

#[test]
fn new_with_one_worker() {
    let pool = ThreadPool::new(1, |id: usize| id);
    assert_eq!(pool.size(), 1);
    assert_eq!(pool.workers()[0].id(), 0);
}

#[test]
fn each_job_runs_exactly_once() {
    let pool = ThreadPool::new(3, |id: usize| id);
    let mut queue: WorkQueue<Job> = WorkQueue::new();
    let log = Rc::new(RefCell::new(Vec::new()));
    for tag in 0..7 {
        pool.execute(&mut queue, recording_job(&log, tag));
    }
    assert_eq!(queue.len(), 7);
    let seen = Rc::new(RefCell::new(Vec::new()));
    let mut turn: usize = 0;
    while !queue.is_empty() {
        assert!(!run_one(&mut queue, turn % 3, &seen));
        turn += 1;
    }
    assert_eq!(*log.borrow(), vec![0, 1, 2, 3, 4, 5, 6]);
    assert_eq!(seen.borrow().len(), 7);
    assert!(queue.receive().is_none());
}

#[test]
fn four_workers_four_jobs_four_distinct_ids() {
    let pool = ThreadPool::new(4, |id: usize| id);
    let mut queue: WorkQueue<Job> = WorkQueue::new();
    let ran = Rc::new(RefCell::new(Vec::new()));
    for tag in 0..4 {
        pool.execute(&mut queue, recording_job(&ran, tag));
    }
    let seen = Rc::new(RefCell::new(Vec::new()));
    for w in pool.workers() {
        assert!(!run_one(&mut queue, w.id(), &seen));
    }
    let mut ids = seen.borrow().clone();
    ids.sort();
    ids.dedup();
    assert_eq!(ids, vec![0, 1, 2, 3]);
    assert_eq!(ran.borrow().len(), 4);
}

#[test]
fn single_worker_runs_jobs_in_submission_order() {
    let pool = ThreadPool::new(1, |id: usize| id);
    let mut queue: WorkQueue<Job> = WorkQueue::new();
    let log = Rc::new(RefCell::new(Vec::new()));
    pool.execute(&mut queue, recording_job(&log, 1));
    pool.execute(&mut queue, recording_job(&log, 2));
    let seen = Rc::new(RefCell::new(Vec::new()));
    assert!(!run_one(&mut queue, 0, &seen));
    assert_eq!(*log.borrow(), vec![1]);
    assert!(!run_one(&mut queue, 0, &seen));
    assert_eq!(*log.borrow(), vec![1, 2]);
}

#[test]
fn shutdown_sends_one_terminate_per_worker() {
    let mut pool = ThreadPool::new(3, |id: usize| id + 7);
    let mut queue: WorkQueue<Job> = WorkQueue::new();
    let handles = pool.shutdown(&mut queue);
    assert_eq!(handles, vec![7, 8, 9]);
    assert_eq!(queue.len(), 3);
    while let Some(m) = queue.receive() {
        assert!(m.is_terminate());
    }
    for w in pool.workers() {
        assert!(!w.is_joinable());
    }
}

#[test]
fn job_submitted_before_shutdown_runs_before_terminate() {
    let mut pool = ThreadPool::new(2, |id: usize| id);
    let mut queue: WorkQueue<Job> = WorkQueue::new();
    let log = Rc::new(RefCell::new(Vec::new()));
    pool.execute(&mut queue, recording_job(&log, 42));
    let handles = pool.shutdown(&mut queue);
    assert_eq!(handles.len(), 2);
    assert_eq!(queue.len(), 3);
    let seen = Rc::new(RefCell::new(Vec::new()));
    assert!(!run_one(&mut queue, 0, &seen));
    assert_eq!(*log.borrow(), vec![42]);
    assert!(run_one(&mut queue, 0, &seen));
    assert!(run_one(&mut queue, 1, &seen));
    assert!(queue.is_empty());
}

#[test]
fn shutdown_twice_sends_and_returns_nothing_more() {
    let mut pool = ThreadPool::new(2, |id: usize| id);
    let mut queue: WorkQueue<Job> = WorkQueue::new();
    let first = pool.shutdown(&mut queue);
    assert_eq!(first, vec![0, 1]);
    assert_eq!(queue.len(), 2);
    let second = pool.shutdown(&mut queue);
    assert!(second.is_empty());
    assert_eq!(queue.len(), 2);
}

#[test]
fn take_threads_hands_out_each_handle_once() {
    let mut pool = ThreadPool::new(2, |id: usize| id + 1);
    assert_eq!(pool.take_threads(), vec![1, 2]);
    assert!(pool.take_threads().is_empty());
}

#[test]
fn worker_handle_is_taken_once() {
    let mut w = Worker::new(3, "handle");
    assert_eq!(w.id(), 3);
    assert!(w.is_joinable());
    assert_eq!(w.take_thread(), Some("handle"));
    assert!(!w.is_joinable());
    assert_eq!(w.take_thread(), None);
    assert_eq!(w.id(), 3);
}

#[test]
fn on_message_runs_job_or_stops() {
    let (state, step) = on_message(WorkerState::Running, Message::NewJob(5u8));
    assert_eq!(state, WorkerState::Running);
    assert!(matches!(step, Step::Run(5)));
    let (state, step) = on_message(WorkerState::Running, Message::<u8>::Terminate);
    assert_eq!(state, WorkerState::Stopped);
    assert!(matches!(step, Step::Exit));
}

#[test]
fn queue_is_first_in_first_out() {
    let mut queue: WorkQueue<u32> = WorkQueue::new();
    assert!(queue.is_empty());
    assert!(queue.receive().is_none());
    queue.send(Message::NewJob(1));
    queue.send(Message::Terminate);
    queue.send(Message::NewJob(2));
    assert_eq!(queue.len(), 3);
    assert!(matches!(queue.receive(), Some(Message::NewJob(1))));
    assert!(matches!(queue.receive(), Some(Message::Terminate)));
    assert!(matches!(queue.receive(), Some(Message::NewJob(2))));
    assert!(queue.receive().is_none());
}

#[test]
fn message_kind() {
    assert!(Message::<u8>::Terminate.is_terminate());
    assert!(!Message::NewJob(0u8).is_terminate());
}
