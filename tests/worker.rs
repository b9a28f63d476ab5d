use dispatch_core::worker::{worker_step, Received, WorkQueue, WorkerStep};

#[test]
fn item_is_handled_even_after_shutdown() {
    assert!(matches!(worker_step(Received::Item(7u32), true), WorkerStep::Handle(7)));
    assert!(matches!(worker_step(Received::Item(7u32), false), WorkerStep::Handle(7)));
}

#[test]
fn timeout_checks_shutdown() {
    assert!(matches!(worker_step::<u32>(Received::Timeout, false), WorkerStep::Wait));
    assert!(matches!(worker_step::<u32>(Received::Timeout, true), WorkerStep::Exit));
}

#[test]
fn closed_queue_ends_worker() {
    assert!(matches!(worker_step::<u32>(Received::Disconnected, false), WorkerStep::Exit));
}

#[test]
fn four_workers_drain_hundred_items_once_each() {
    let mut queue: WorkQueue<usize> = WorkQueue::new(4);
    for i in 0..100 {
        assert!(queue.push(i).is_ok());
    }
    let mut handled = vec![0u32; 100];
    let mut running = [true; 4];
    let mut shutdown = false;
    let mut rounds = 0;
    while running.iter().any(|r| *r) {
        for w in 0..4 {
            if !running[w] {
                continue;
            }
            match worker_step(queue.take(), shutdown) {
                WorkerStep::Handle(x) => handled[x] += 1,
                WorkerStep::Wait => {}
                WorkerStep::Exit => {
                    running[w] = false;
                    queue.worker_left();
                }
            }
        }
        rounds += 1;
        if rounds == 10 {
            shutdown = true;
        }
    }
    assert!(handled.iter().all(|c| *c == 1));
    assert_eq!(queue.len(), 0);
    // 25 rounds to drain, one more in which every worker sees shutdown.
    assert_eq!(rounds, 26);
    assert_eq!(queue.push(100), Err(100));
}

#[test]
fn queue_is_first_in_first_out() {
    let mut queue: WorkQueue<u8> = WorkQueue::new(1);
    queue.push(3).unwrap();
    queue.push(1).unwrap();
    queue.push(2).unwrap();
    assert!(matches!(queue.take(), Received::Item(3)));
    assert!(matches!(queue.take(), Received::Item(1)));
    assert!(matches!(queue.take(), Received::Item(2)));
    assert!(matches!(queue.take(), Received::Timeout));
}

#[test]
fn closed_input_reports_disconnected_after_draining() {
    let mut queue: WorkQueue<u8> = WorkQueue::new(2);
    queue.push(9).unwrap();
    queue.close_input();
    assert!(matches!(queue.take(), Received::Item(9)));
    assert!(matches!(queue.take(), Received::Disconnected));
}

#[test]
fn queue_refuses_items_once_workers_left() {
    let mut queue: WorkQueue<u8> = WorkQueue::new(1);
    queue.worker_left();
    assert_eq!(queue.push(5), Err(5));
    assert_eq!(queue.len(), 0);
}
