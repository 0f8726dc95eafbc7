use worker_pool_demo::decimal::push_decimal;
use worker_pool_demo::native::{run_tasks_parallel, NativeWorkerPool};
use worker_pool_demo::task::{process_task, TaskInput, TaskOutput};

fn input(id: u32, payload: &str) -> TaskInput {
    TaskInput { id, payload: payload.to_string() }
}

#[test]
fn test_native_pool() {
    let tasks: Vec<TaskInput> = (0..4)
        .map(|i| TaskInput {
            id: i,
            payload: format!("task-{}", i),
        })
        .collect();
    let results = run_tasks_parallel(tasks);
    assert_eq!(results.len(), 4);
    println!("Native test passed: {:?}", results);
}

#[test]
fn process_task_describes_ascii_payload() {
    let out = process_task(input(7, "task-0"));
    assert_eq!(out.id, 7);
    assert_eq!(out.result, "processed: task-0 (len=6)");
}

#[test]
fn process_task_empty_payload() {
    let out = process_task(input(0, ""));
    assert_eq!(out.id, 0);
    assert_eq!(out.result, "processed:  (len=0)");
}

#[test]
fn process_task_counts_bytes_not_chars() {
    let out = process_task(input(1, "привет"));
    assert_eq!(out.result, "processed: привет (len=12)");
    let out = process_task(input(2, "héllo"));
    assert_eq!(out.result, "processed: héllo (len=6)");
    let out = process_task(input(3, "€"));
    assert_eq!(out.result, "processed: € (len=3)");
    let out = process_task(input(4, "🦀"));
    assert_eq!(out.result, "processed: 🦀 (len=4)");
}

#[test]
fn process_task_length_with_many_digits() {
    let payload = "x".repeat(12345);
    let out = process_task(input(u32::MAX, &payload));
    assert_eq!(out.id, u32::MAX);
    assert_eq!(out.result, format!("processed: {} (len=12345)", payload));
}

#[test]
fn run_tasks_parallel_keeps_order_and_content() {
    let tasks: Vec<TaskInput> = (0..100u32)
        .map(|i| input(1000 - i, &format!("native-task-{}", i)))
        .collect();
    let expected: Vec<TaskOutput> = tasks.iter().cloned().map(process_task).collect();
    let results = run_tasks_parallel(tasks);
    assert_eq!(results.len(), 100);
    for (i, (got, want)) in results.iter().zip(expected.iter()).enumerate() {
        assert_eq!(got.id, 1000 - i as u32);
        assert_eq!(got.id, want.id);
        assert_eq!(got.result, want.result);
        assert_eq!(got.result, format!("processed: native-task-{} (len={})", i, format!("native-task-{}", i).len()));
    }
}

#[test]
fn run_tasks_parallel_empty() {
    let results = run_tasks_parallel(Vec::new());
    assert!(results.is_empty());
}

#[test]
fn native_pool_can_be_created_more_than_once() {
    let first = NativeWorkerPool::new(4);
    let second = NativeWorkerPool::new(2);
    drop(first);
    drop(second);
    let results = run_tasks_parallel(vec![input(9, "after-pool")]);
    assert_eq!(results[0].result, "processed: after-pool (len=10)");
}

#[test]
fn decimal_rendering() {
    let cases: [(usize, &str); 6] = [
        (0, "0"),
        (9, "9"),
        (10, "10"),
        (101, "101"),
        (1234567890, "1234567890"),
        (4294967295, "4294967295"),
    ];
    for (n, want) in cases {
        let mut s = String::from("n=");
        push_decimal(&mut s, n);
        assert_eq!(s, format!("n={}", want));
    }
    let mut s = String::new();
    push_decimal(&mut s, usize::MAX);
    assert_eq!(s, usize::MAX.to_string());
}
