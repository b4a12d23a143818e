use rust_101::channel::ChannelModel;
use rust_101::channel::RecvOutcome;
use rust_101::coordination::Coordinator;
use rust_101::coordination::CoordinatorPhase;
use rust_101::coordination::TaskResult;
use rust_101::coordination::dispatch;
use rust_101::coordination::run_task;
use rust_101::coordination::run_to_completion;
use rust_101::coordination::run_unbounded_to_completion;
use rust_101::coordination::worker_payload;

fn distinct_ids(results: &[TaskResult]) -> bool {
    for (i, a) in results.iter().enumerate() {
        for b in results.iter().skip(i + 1) {
            if a.task_id == b.task_id {
                return false;
            }
        }
    }
    true
}

#[test]
fn three_inputs_with_seed_one_hundred() {
    let inputs = vec![10i64, 20, 30];
    let order = vec![0usize, 1, 2];
    let coord = run_to_completion(&inputs, 100, 3, &order);
    assert_eq!(coord.total, 160);
    assert_eq!(coord.results.len(), 3);
    assert_eq!(coord.phase, CoordinatorPhase::Closed);
    assert!(distinct_ids(&coord.results));
}

#[test]
fn the_total_ignores_arrival_order() {
    let inputs = vec![10i64, 20, 30];
    for order in [vec![0usize, 1, 2], vec![2, 0, 1], vec![1, 2, 0], vec![2, 1, 0]] {
        let coord = run_to_completion(&inputs, 100, 3, &order);
        assert_eq!(coord.total, 160);
        assert_eq!(coord.results.len(), 3);
        assert!(distinct_ids(&coord.results));
    }
}

#[test]
fn a_tight_capacity_still_delivers_everything() {
    let inputs = vec![10i64, 20, 30, 40, 50];
    let order = vec![4usize, 3, 2, 1, 0];
    let coord = run_to_completion(&inputs, 7, 1, &order);
    assert_eq!(coord.total, 7 + 150);
    assert_eq!(coord.results.len(), 5);
    assert!(distinct_ids(&coord.results));
}

#[test]
fn empty_input_closes_immediately_with_the_seed() {
    let inputs: Vec<i64> = vec![];
    let order: Vec<usize> = vec![];
    let coord = run_to_completion(&inputs, 100, 1, &order);
    assert_eq!(coord.total, 100);
    assert_eq!(coord.results.len(), 0);
    assert_eq!(coord.phase, CoordinatorPhase::Closed);
}

#[test]
fn the_unbounded_variant_collects_the_full_tally() {
    let inputs = vec![10i64, 20, 30, 40, 50, 60, 70, 80, 90, 100];
    let order = vec![0usize, 1, 2, 3, 7, 5, 6, 4, 9, 8];
    let coord = run_unbounded_to_completion(&inputs, 100, &order);
    assert_eq!(coord.total, 650);
    assert_eq!(coord.results.len(), 10);
    assert_eq!(coord.phase, CoordinatorPhase::Closed);
    assert!(distinct_ids(&coord.results));
}

#[test]
fn negative_payloads_cancel_out() {
    let inputs = vec![-10i64, 10, -25, 25];
    let order = vec![3usize, 2, 1, 0];
    let coord = run_to_completion(&inputs, 0, 2, &order);
    assert_eq!(coord.total, 0);
}

#[test]
fn dispatch_gives_each_input_to_its_own_task() {
    let inputs = vec![5i64, 6, 7];
    let tasks = dispatch(&inputs);
    assert_eq!(tasks.len(), 3);
    for (i, task) in tasks.iter().enumerate() {
        assert_eq!(task.id, i);
        assert_eq!(task.input, inputs[i]);
    }
}

#[test]
fn a_task_computes_the_identity_payload() {
    assert_eq!(worker_payload(42), 42);
    let inputs = vec![11i64];
    let tasks = dispatch(&inputs);
    let result = run_task(&tasks[0]);
    assert_eq!(result.task_id, 0);
    assert_eq!(result.payload, 11);
}

#[test]
fn the_coordinator_folds_each_result_once() {
    let mut coord = Coordinator::new(100);
    assert_eq!(coord.phase, CoordinatorPhase::Dispatching);
    coord.start_collecting();
    assert_eq!(coord.phase, CoordinatorPhase::Collecting);
    coord.on_result(TaskResult { task_id: 0, payload: 10 });
    coord.on_result(TaskResult { task_id: 1, payload: 20 });
    assert_eq!(coord.total, 130);
    assert_eq!(coord.results.len(), 2);
    coord.on_closed();
    assert_eq!(coord.phase, CoordinatorPhase::Closed);
    assert_eq!(coord.total, 130);
}

#[test]
fn a_bounded_channel_fills_at_its_capacity() {
    let mut chan: ChannelModel<TaskResult> = ChannelModel::new_bounded(2, 2);
    assert!(!chan.is_full());
    chan.send(TaskResult { task_id: 0, payload: 1 });
    assert!(!chan.is_full());
    chan.send(TaskResult { task_id: 1, payload: 2 });
    assert!(chan.is_full());
    assert!(chan.queue.len() <= 2);
    match chan.recv() {
        RecvOutcome::Received(r) => {
            assert_eq!(r.task_id, 0);
            assert_eq!(r.payload, 1);
        }
        RecvOutcome::Closed => panic!("expected the oldest message"),
    }
    assert!(!chan.is_full());
}

#[test]
fn closure_is_observed_only_after_draining() {
    let mut chan: ChannelModel<i64> = ChannelModel::new_unbounded(1);
    chan.send(5);
    chan.release_sender();
    match chan.recv() {
        RecvOutcome::Received(v) => assert_eq!(v, 5),
        RecvOutcome::Closed => panic!("a message was still outstanding"),
    }
    match chan.recv() {
        RecvOutcome::Received(_) => panic!("nothing was left to receive"),
        RecvOutcome::Closed => {}
    }
}
