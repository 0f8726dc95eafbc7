use worker_pool_demo::task::TaskInput;
use worker_pool_demo::web::{
    assign_worker, process_on_worker, schedule_batch, select_worker, settle_reply, worker_delay_ms,
    PoolError, ReplyOutcome,
};

fn input(id: u32, payload: &str) -> TaskInput {
    TaskInput { id, payload: payload.to_string() }
}

#[test]
fn worker_answer_names_the_worker() {
    let out = process_on_worker(&input(3, "web-task"), 2);
    assert_eq!(out.id, 3);
    assert_eq!(out.result, "processed by worker-2: web-task (len=8)");
    let out = process_on_worker(&input(4, "ñ"), 11);
    assert_eq!(out.result, "processed by worker-11: ñ (len=2)");
}

#[test]
fn worker_delays() {
    assert_eq!(worker_delay_ms(0), 10);
    assert_eq!(worker_delay_ms(1), 15);
    assert_eq!(worker_delay_ms(3), 25);
    assert_eq!(worker_delay_ms(u32::MAX), 10 + 5 * u32::MAX as u64);
}

#[test]
fn round_robin_assignment() {
    assert_eq!(assign_worker(0, 3), 0);
    assert_eq!(assign_worker(1, 3), 1);
    assert_eq!(assign_worker(5, 3), 2);
    assert_eq!(assign_worker(6, 3), 0);
    assert_eq!(assign_worker(41, 1), 0);
}

#[test]
fn batch_is_dealt_out_in_turn() {
    let inputs: Vec<TaskInput> = (0..5).map(|i| input(i, &format!("t{}", i))).collect();
    let results = schedule_batch(inputs, 2);
    let workers: Vec<u32> = results.iter().map(|r| r.worker_index).collect();
    assert_eq!(workers, vec![0, 1, 0, 1, 0]);
    let delays: Vec<u64> = results.iter().map(|r| r.delay_ms).collect();
    assert_eq!(delays, vec![10, 15, 10, 15, 10]);
    for (i, r) in results.iter().enumerate() {
        assert_eq!(r.output.id, i as u32);
        assert_eq!(
            r.output.result,
            format!("processed by worker-{}: t{} (len=2)", i % 2, i)
        );
    }
}

#[test]
fn batch_is_balanced() {
    let inputs: Vec<TaskInput> = (0..10).map(|i| input(i, "x")).collect();
    let results = schedule_batch(inputs, 4);
    let mut load = [0usize; 4];
    for r in &results {
        load[r.worker_index as usize] += 1;
    }
    assert_eq!(load, [3, 3, 2, 2]);
}

#[test]
fn empty_batch_needs_no_worker() {
    let results = schedule_batch(Vec::new(), 0);
    assert!(results.is_empty());
}

#[test]
fn select_first_worker() {
    assert_eq!(select_worker(3), Ok(0));
    assert_eq!(select_worker(1), Ok(0));
}

#[test]
fn select_worker_without_workers() {
    let err = select_worker(0).unwrap_err();
    assert_eq!(err, PoolError::NoWorkers);
    assert_eq!(err.message(), "No workers available");
}

#[test]
fn reply_with_result_type_resolves() {
    let outcome = settle_reply(Some("result".to_string()), 1, 2);
    assert!(matches!(outcome, ReplyOutcome::Resolve(1)));
}

#[test]
fn other_replies_reject() {
    assert!(matches!(settle_reply(Some("error".to_string()), 1, 2), ReplyOutcome::Reject(2)));
    assert!(matches!(settle_reply(Some("Result".to_string()), 1, 2), ReplyOutcome::Reject(2)));
    assert!(matches!(settle_reply(Some(String::new()), 1, 2), ReplyOutcome::Reject(2)));
    assert!(matches!(settle_reply(None, 1, 2), ReplyOutcome::Reject(2)));
}
