use clap_host::posix_fd::{
    drain_due, init_poll_thread, modify_fd, queue_events, register_fd, unregister_fd, FdEvent,
    Interest, CLAP_POSIX_FD_ERROR, CLAP_POSIX_FD_READ, CLAP_POSIX_FD_WRITE,
};
use clap_host::thread_pool::{
    all_done, init, request_exec, set_current_plugin, task_done, worker_count, worker_loop,
    worker_name, ExecPlan, Pool, WorkerStep,
};

/// Carry out a request the way the workers of the program do, one after the
/// other; the answer and the indices that ran.
fn run(pool: &mut Pool, n: u32, exec: Option<bool>) -> (bool, Vec<u32>) {
    let plan = request_exec(pool, n, exec, Some(4));
    let mut seen = Vec::new();
    match plan {
        ExecPlan::Inline => seen.push(0),
        ExecPlan::Dispatched { .. } => {
            let workers = worker_count(pool);
            let mut working = vec![false; workers];
            let mut turn = 0;
            while !all_done(pool, n) {
                let w = turn % workers;
                match worker_loop(pool, working[w]) {
                    WorkerStep::Run(i) => {
                        seen.push(i);
                        task_done(pool);
                        working[w] = true;
                    }
                    step => panic!("a worker has work to do, not {step:?}"),
                }
                turn += 1;
            }
        }
        _ => {}
    }
    (plan.accepted(), seen)
}

fn pool_with_plugin() -> Pool {
    let mut pool = Pool::new();
    init(&mut pool, Some(4));
    set_current_plugin(&mut pool, 0x1000);
    pool
}

#[test]
fn request_exec_zero_is_ok_without_work() {
    let mut pool = pool_with_plugin();
    assert_eq!(run(&mut pool, 0, Some(true)), (true, vec![]));
}

#[test]
fn request_exec_one_runs_on_caller() {
    let mut pool = pool_with_plugin();
    assert_eq!(request_exec(&mut pool, 1, Some(true), Some(4)), ExecPlan::Inline);
    assert_eq!(run(&mut pool, 1, Some(true)), (true, vec![0]));
}

#[test]
fn request_exec_fans_out_unique_indexes() {
    let mut pool = pool_with_plugin();
    let n = 4u32;
    let (ok, mut idxs) = run(&mut pool, n, Some(true));
    assert!(ok);
    assert_eq!(idxs.len() as u32, n);
    idxs.sort_unstable();
    assert_eq!(idxs, (0..n).collect::<Vec<_>>());
}

#[test]
fn request_exec_more_tasks_than_workers() {
    let mut pool = pool_with_plugin();
    let n = (worker_count(&pool) * 2) as u32;
    assert!(n > 1, "pool should have at least 2 workers for this test");
    let (ok, mut idxs) = run(&mut pool, n, Some(true));
    assert!(ok);
    assert_eq!(idxs.len() as u32, n);
    idxs.sort_unstable();
    assert_eq!(idxs, (0..n).collect::<Vec<_>>());
    // A second request starts over.
    assert_eq!(run(&mut pool, 2, Some(true)), (true, vec![0, 1]));
}

#[test]
fn request_exec_false_without_plugin_ext() {
    let mut pool = pool_with_plugin();
    assert!(!run(&mut pool, 2, None).0);
}

#[test]
fn request_exec_false_without_current_plugin() {
    let mut pool = pool_with_plugin();
    set_current_plugin(&mut pool, 0);
    assert!(!run(&mut pool, 2, Some(true)).0);
}

#[test]
fn request_exec_false_when_exec_is_none() {
    let mut pool = pool_with_plugin();
    assert!(!run(&mut pool, 2, Some(false)).0);
}

#[test]
fn the_missing_extension_is_reported_once() {
    let mut pool = pool_with_plugin();
    assert_eq!(request_exec(&mut pool, 2, None, Some(4)), ExecPlan::Refuse { warn: true });
    assert_eq!(request_exec(&mut pool, 2, None, Some(4)), ExecPlan::Refuse { warn: false });
}

#[test]
fn the_first_dispatch_starts_the_workers() {
    let mut pool = Pool::new();
    set_current_plugin(&mut pool, 0x1000);
    assert_eq!(request_exec(&mut pool, 1, Some(true), Some(3)), ExecPlan::Inline);
    assert_eq!(worker_count(&pool), 0);
    assert_eq!(request_exec(&mut pool, 2, Some(true), Some(3)), ExecPlan::Dispatched { spawn: 3 });
    assert_eq!(worker_count(&pool), 3);
    assert_eq!(request_exec(&mut pool, 2, Some(true), Some(8)), ExecPlan::Dispatched { spawn: 0 });
    assert_eq!(worker_count(&pool), 3);
    let mut other = Pool::new();
    set_current_plugin(&mut other, 0x1000);
    assert_eq!(request_exec(&mut other, 2, Some(true), None), ExecPlan::Dispatched { spawn: 1 });
}

#[test]
fn workers_wait_work_and_stop() {
    let mut pool = Pool::new();
    assert_eq!(worker_count(&pool), 0);
    assert_eq!(init(&mut pool, None), Some(1));
    assert_eq!(init(&mut pool, Some(8)), None);
    let mut other = Pool::new();
    assert_eq!(init(&mut other, Some(0)), Some(1));
    assert_eq!(worker_name(3), "clap-host-pool-3");
    assert_eq!(worker_loop(&mut pool, false), WorkerStep::Wait);
    set_current_plugin(&mut pool, 1);
    request_exec(&mut pool, 2, Some(true), None);
    pool.stop = true;
    // A worker in the middle of a request claims on before it stops.
    assert_eq!(worker_loop(&mut pool, true), WorkerStep::Run(0));
    assert_eq!(worker_loop(&mut pool, false), WorkerStep::Stop);
    assert_eq!(worker_loop(&mut pool, true), WorkerStep::Run(1));
    assert_eq!(worker_loop(&mut pool, true), WorkerStep::Stop);
}

#[test]
fn register_twice_fails() {
    let mut reg = init_poll_thread(true);
    let fd = 5;
    assert!(register_fd(&mut reg, fd, CLAP_POSIX_FD_READ, true));
    assert!(!register_fd(&mut reg, fd, CLAP_POSIX_FD_READ, true));
    assert!(unregister_fd(&mut reg, fd));
}

#[test]
fn register_without_read_or_write_fails() {
    let mut reg = init_poll_thread(true);
    let fd = 5;
    assert!(!register_fd(&mut reg, fd, 0, true));
    assert!(!register_fd(&mut reg, fd, CLAP_POSIX_FD_ERROR, true));
    assert!(!modify_fd(&mut reg, fd, 0, true));
    assert!(register_fd(&mut reg, fd, CLAP_POSIX_FD_READ, true));
    assert!(unregister_fd(&mut reg, fd));
}

#[test]
fn unregister_unknown_fails() {
    let mut reg = init_poll_thread(true);
    assert!(!unregister_fd(&mut reg, 1_000_000));
}

#[test]
fn modify_unknown_fails() {
    let mut reg = init_poll_thread(true);
    assert!(!modify_fd(&mut reg, 1_000_000, CLAP_POSIX_FD_WRITE, true));
}

#[test]
fn the_poller_has_the_last_word() {
    let mut reg = init_poll_thread(true);
    assert_eq!(
        reg.wanted(5, CLAP_POSIX_FD_READ | CLAP_POSIX_FD_WRITE | 8),
        Some(Interest { key: 5, readable: true, writable: true })
    );
    assert_eq!(reg.wanted(-1, CLAP_POSIX_FD_READ), None);
    assert_eq!(reg.changed(5, CLAP_POSIX_FD_READ), None);
    assert!(!register_fd(&mut reg, 5, CLAP_POSIX_FD_READ, false));
    assert!(!unregister_fd(&mut reg, 5));
    assert!(register_fd(&mut reg, 5, CLAP_POSIX_FD_READ, true));
    assert_eq!(reg.wanted(5, CLAP_POSIX_FD_READ), None);
    assert_eq!(
        reg.changed(5, CLAP_POSIX_FD_WRITE),
        Some(Interest { key: 5, readable: false, writable: true })
    );
    assert!(!modify_fd(&mut reg, 5, CLAP_POSIX_FD_WRITE, false));
    assert!(modify_fd(&mut reg, 5, CLAP_POSIX_FD_WRITE, true));
    let mut none = init_poll_thread(false);
    assert!(!register_fd(&mut none, 5, CLAP_POSIX_FD_READ, true));
    assert!(!unregister_fd(&mut none, 5));
}

#[test]
fn events_reach_registered_fds_in_order() {
    let mut reg = init_poll_thread(true);
    for fd in [3, 4] {
        assert!(register_fd(&mut reg, fd, CLAP_POSIX_FD_READ, true));
    }
    let report = |key: usize, readable: bool, writable: bool| Interest { key, readable, writable };
    queue_events(
        &mut reg,
        &[
            report(3, true, false),
            report(usize::MAX, true, true),
            report(9, true, true),
            report(4, true, true),
            report(3, false, false),
            report(4, false, true),
        ],
    );
    assert_eq!(drain_due(&mut reg, true), Some(FdEvent { fd: 3, flags: CLAP_POSIX_FD_READ }));
    assert_eq!(
        drain_due(&mut reg, true),
        Some(FdEvent { fd: 4, flags: CLAP_POSIX_FD_READ | CLAP_POSIX_FD_WRITE })
    );
    assert!(unregister_fd(&mut reg, 3));
    assert_eq!(drain_due(&mut reg, true), Some(FdEvent { fd: 4, flags: CLAP_POSIX_FD_WRITE }));
    assert_eq!(drain_due(&mut reg, true), None);
    queue_events(&mut reg, &[report(4, false, false)]);
    assert_eq!(drain_due(&mut reg, true), Some(FdEvent { fd: 4, flags: CLAP_POSIX_FD_ERROR }));
    queue_events(&mut reg, &[report(4, true, false)]);
    assert_eq!(drain_due(&mut reg, false), None);
    assert_eq!(drain_due(&mut reg, true), None);
}

#[test]
fn fd_constants_are_those_of_the_format() {
    assert_eq!(CLAP_POSIX_FD_READ, clap_sys::ext::posix_fd_support::CLAP_POSIX_FD_READ);
    assert_eq!(CLAP_POSIX_FD_WRITE, clap_sys::ext::posix_fd_support::CLAP_POSIX_FD_WRITE);
    assert_eq!(CLAP_POSIX_FD_ERROR, clap_sys::ext::posix_fd_support::CLAP_POSIX_FD_ERROR);
}
