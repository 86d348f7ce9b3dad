use actor_kit::shutdown::{failed_tasks, ShutdownCoordinator};
use std::sync::atomic::{AtomicUsize, Ordering};
use std::sync::Arc;

#[test]
fn tokens_share_one_signal() {
    let c = ShutdownCoordinator::new();
    let a = c.token();
    let b = c.token();
    assert!(a == b);
    assert!(!a.is_cancelled());
    b.cancel();
    assert!(a.is_cancelled());
}

#[test]
fn no_failures_reported_when_all_complete() {
    assert_eq!(failed_tasks(&vec![true, true, true]), Vec::<usize>::new());
    assert_eq!(failed_tasks(&vec![]), Vec::<usize>::new());
}

#[test]
fn every_failure_is_reported_in_order() {
    assert_eq!(failed_tasks(&vec![false, true, false, false]), vec![0, 2, 3]);
}

#[test]
fn shutdown_awaits_three_registered_tasks() {
    let rt = tokio::runtime::Builder::new_multi_thread().worker_threads(2).enable_all().build().unwrap();
    rt.block_on(async {
        let mut c = ShutdownCoordinator::new();
        let seen = Arc::new(AtomicUsize::new(0));
        for i in 0..3usize {
            let token = c.token();
            let seen = seen.clone();
            c.register_task(tokio::spawn(async move {
                token.cancelled().await;
                seen.fetch_add(1, Ordering::SeqCst);
                if i == 1 {
                    panic!("task one fails on shutdown");
                }
            }));
        }
        let watcher = c.token();
        let tasks = c.begin_shutdown();
        assert!(watcher.is_cancelled());
        assert_eq!(tasks.len(), 3);
        let mut ok = Vec::new();
        for t in tasks {
            ok.push(t.await.is_ok());
        }
        assert_eq!(seen.load(Ordering::SeqCst), 3);
        assert_eq!(failed_tasks(&ok), vec![1]);
    });
}

#[test]
fn begin_shutdown_is_idempotent_on_a_cancelled_signal() {
    let c = ShutdownCoordinator::new();
    let t = c.token();
    t.cancel();
    let tasks = c.begin_shutdown();
    assert!(tasks.is_empty());
    assert!(t.is_cancelled());
}
