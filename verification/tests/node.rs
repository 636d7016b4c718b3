use consensus_store::node::{Lifecycle, Node};
use consensus_store::status::Status;
use std::sync::atomic::{AtomicUsize, Ordering};
use std::sync::Arc;

#[test]
fn a_new_lifecycle_is_idle_and_empty() {
    let lifecycle: Lifecycle<u32> = Lifecycle::new();
    assert_eq!(lifecycle.status(), Status::Idle);
    assert_eq!(lifecycle.task_count(), 0);
}

#[test]
fn running_requests_keep_the_registry() {
    let mut lifecycle: Lifecycle<u32> = Lifecycle::new();
    lifecycle.add_task(7);
    lifecycle.add_task(8);
    assert_eq!(lifecycle.set_status(Status::Mining), vec![]);
    assert_eq!(lifecycle.status(), Status::Mining);
    assert_eq!(lifecycle.set_status(Status::Syncing), vec![]);
    assert_eq!(lifecycle.status(), Status::Syncing);
    assert_eq!(lifecycle.set_status(Status::Idle), vec![]);
    assert_eq!(lifecycle.status(), Status::Idle);
    assert_eq!(lifecycle.task_count(), 2);
}

#[test]
fn shutdown_hands_out_the_registry_in_order() {
    let mut lifecycle: Lifecycle<u32> = Lifecycle::new();
    lifecycle.add_task(7);
    lifecycle.add_task(8);
    lifecycle.add_task(9);
    assert_eq!(lifecycle.set_status(Status::ShuttingDown), vec![7, 8, 9]);
    assert_eq!(lifecycle.status(), Status::ShuttingDown);
    assert_eq!(lifecycle.task_count(), 0);
    assert_eq!(lifecycle.shut_down(), vec![]);
}

#[test]
fn nothing_leads_out_of_shutdown() {
    let mut lifecycle: Lifecycle<u32> = Lifecycle::new();
    assert_eq!(lifecycle.shut_down(), vec![]);
    for state in [Status::Idle, Status::Mining, Status::Syncing, Status::ShuttingDown] {
        lifecycle.set_status(state);
        assert_eq!(lifecycle.status(), Status::ShuttingDown);
    }
}

#[test]
fn a_task_added_during_shutdown_goes_to_the_next_request() {
    let mut lifecycle: Lifecycle<u32> = Lifecycle::new();
    lifecycle.add_task(1);
    assert_eq!(lifecycle.shut_down(), vec![1]);
    lifecycle.add_task(2);
    assert_eq!(lifecycle.set_status(Status::Mining), vec![]);
    assert_eq!(lifecycle.task_count(), 1);
    assert_eq!(lifecycle.shut_down(), vec![2]);
}

#[test]
fn node_status_follows_requests() {
    let node: Node<u32> = Node::new();
    assert_eq!(node.status(), Status::Idle);
    node.add_task(4);
    assert_eq!(node.set_status(Status::Syncing), vec![]);
    assert_eq!(node.status(), Status::Syncing);
    assert_eq!(node.set_status(Status::Mining), vec![]);
    assert_eq!(node.status(), Status::Mining);
    node.add_task(5);
    assert_eq!(node.shut_down(), vec![4, 5]);
    assert_eq!(node.status(), Status::ShuttingDown);
    assert_eq!(node.set_status(Status::Idle), vec![]);
    assert_eq!(node.status(), Status::ShuttingDown);
    assert_eq!(node.shut_down(), vec![]);
}

#[test]
fn shutdown_waits_for_every_task() {
    let runtime = tokio::runtime::Builder::new_multi_thread().worker_threads(2).build().unwrap();
    let node: Arc<Node<tokio::task::JoinHandle<()>>> = Arc::new(Node::new());
    let finished = Arc::new(AtomicUsize::new(0));
    for _ in 0..16 {
        let finished = finished.clone();
        node.add_task(runtime.spawn_blocking(move || {
            for _ in 0..1000 {
                std::hint::spin_loop();
            }
            finished.fetch_add(1, Ordering::SeqCst);
        }));
    }
    let drained = node.shut_down();
    assert_eq!(drained.len(), 16);
    for handle in drained {
        runtime.block_on(handle).unwrap();
    }
    assert_eq!(finished.load(Ordering::SeqCst), 16);
    assert_eq!(node.status(), Status::ShuttingDown);
}
