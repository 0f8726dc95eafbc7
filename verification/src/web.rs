//! The decisions of the browser pool of Web Workers: which worker runs which
//! task, what it answers and after what delay, and how a worker's reply settles
//! a task. Creating workers, timers and promises is left to the caller.

use vstd::prelude::*;
use vstd::arithmetic::div_mod::{lemma_fundamental_div_mod, lemma_fundamental_div_mod_converse};

use crate::decimal::{decimal_digits, decimal_value, is_numeral, lemma_rendering_is_numeral, push_decimal};
use crate::task::{byte_len, utf8_len, TaskInput, TaskOutput};
use vstd::utf8::encode_utf8;

verus! {

/// `processed by worker-<worker>: <payload> (len=<byte length of payload>)`.
pub open spec fn worker_text(worker: u32, payload: Seq<char>) -> Seq<char> {
    "processed by worker-"@ + decimal_digits(worker as nat) + ": "@ + payload + " (len="@
        + decimal_digits(utf8_len(payload)) + ")"@
}

/// The delay, in milliseconds, after which worker `worker` answers: later
/// workers answer later.
pub open spec fn worker_delay(worker: u32) -> nat {
    (10 + 5 * worker) as nat
}

/// Processes one task on worker `worker_index`: the identifier is kept and the
/// result names the worker.
pub fn process_on_worker(input: &TaskInput, worker_index: u32) -> (output: TaskOutput)
    ensures
        output.id == input.id,
        output.result@ == worker_text(worker_index, input.payload@),
{
    let len = byte_len(input.payload.as_str());
    let mut result = String::new();
    result.append("processed by worker-");
    push_decimal(&mut result, worker_index as usize);
    result.append(": ");
    result.append(input.payload.as_str());
    result.append(" (len=");
    push_decimal(&mut result, len);
    result.append(")");
    TaskOutput { id: input.id, result }
}

/// What `process_on_worker` answers, read back from its output: the identifier
/// of the input, then `processed by worker-`, a numeral whose value is the
/// worker, `: `, the payload character for character, ` (len=`, a numeral whose
/// value is the payload's UTF-8 byte length, and `)`.
pub proof fn law_worker_answer(input: TaskInput, worker_index: u32, output: TaskOutput)
    requires
        output.id == input.id,
        output.result@ == worker_text(worker_index, input.payload@),
    ensures
        output.id == input.id,
        exists|worker_field: Seq<char>, len_field: Seq<char>|
            {
                &&& is_numeral(worker_field)
                &&& decimal_value(worker_field) == worker_index
                &&& is_numeral(len_field)
                &&& decimal_value(len_field) == encode_utf8(input.payload@).len()
                &&& output.result@ == "processed by worker-"@ + worker_field + ": "@
                    + input.payload@ + " (len="@ + len_field + ")"@
            },
{
    lemma_worker_text_reads_back(worker_index, input.payload@);
}

proof fn lemma_worker_text_reads_back(worker: u32, payload: Seq<char>)
    ensures
        exists|worker_field: Seq<char>, len_field: Seq<char>|
            {
                &&& is_numeral(worker_field)
                &&& decimal_value(worker_field) == worker
                &&& is_numeral(len_field)
                &&& decimal_value(len_field) == encode_utf8(payload).len()
                &&& worker_text(worker, payload) == "processed by worker-"@ + worker_field + ": "@
                    + payload + " (len="@ + len_field + ")"@
            },
{
    let worker_field = decimal_digits(worker as nat);
    let len_field = decimal_digits(utf8_len(payload));
    lemma_rendering_is_numeral(worker as nat);
    lemma_rendering_is_numeral(utf8_len(payload));
    assert(worker_text(worker, payload) == "processed by worker-"@ + worker_field + ": "@ + payload
        + " (len="@ + len_field + ")"@);
}

/// The delay, in milliseconds, before worker `worker_index` answers.
pub fn worker_delay_ms(worker_index: u32) -> (delay: u64)
    ensures
        delay == worker_delay(worker_index),
        delay == 10 + 5 * worker_index,
{
    10 + 5 * (worker_index as u64)
}

/// The worker of task `task_index` when tasks are dealt out in turn to
/// `worker_count` workers.
pub fn assign_worker(task_index: usize, worker_count: u32) -> (worker: u32)
    requires
        worker_count > 0,
    ensures
        worker == (task_index as int) % (worker_count as int),
        worker < worker_count,
{
    (task_index % (worker_count as usize)) as u32
}

/// One task of a batch, as a worker settles it.
pub struct WorkerResult {
    /// The worker that runs the task.
    pub worker_index: u32,
    /// How long, in milliseconds, the worker takes before it answers.
    pub delay_ms: u64,
    /// The worker's answer.
    pub output: TaskOutput,
}

/// Entry `i` of `results` is task `inputs[i]` run by worker `i % worker_count`.
pub open spec fn scheduled(inputs: Seq<TaskInput>, worker_count: u32, results: Seq<WorkerResult>) -> bool {
    &&& results.len() == inputs.len()
    &&& forall|i: int| #![trigger results[i]] 0 <= i < inputs.len() ==> {
        &&& results[i].worker_index == i % (worker_count as int)
        &&& results[i].delay_ms == worker_delay(results[i].worker_index)
        &&& results[i].output.id == inputs[i].id
        &&& results[i].output.result@ == worker_text(results[i].worker_index, inputs[i].payload@)
    }
}

/// Deals a batch of tasks out to `worker_count` workers in turn and works out
/// each worker's answer; the answers stand in the order of the tasks.
pub fn schedule_batch(inputs: Vec<TaskInput>, worker_count: u32) -> (results: Vec<WorkerResult>)
    requires
        inputs.len() == 0 || worker_count > 0,
    ensures
        scheduled(inputs@, worker_count, results@),
{
    let mut results: Vec<WorkerResult> = Vec::new();
    let n = inputs.len();
    let mut i: usize = 0;
    while i < n
        invariant
            n == inputs.len(),
            i <= n,
            n == 0 || worker_count > 0,
            results.len() == i,
            forall|j: int| #![trigger results[j]] 0 <= j < i ==> {
                &&& results[j].worker_index == j % (worker_count as int)
                &&& results[j].delay_ms == worker_delay(results[j].worker_index)
                &&& results[j].output.id == inputs[j].id
                &&& results[j].output.result@ == worker_text(results[j].worker_index, inputs[j].payload@)
            },
        decreases n - i,
    {
        let worker_index = assign_worker(i, worker_count);
        let output = process_on_worker(&inputs[i], worker_index);
        let delay_ms = worker_delay_ms(worker_index);
        results.push(WorkerResult { worker_index, delay_ms, output });
        i += 1;
    }
    results
}

/// What `schedule_batch` gives back, read entry by entry: as many entries as
/// tasks; entry `i` keeps the identifier of task `i`, is run by worker
/// `i % worker_count` (a worker of the pool), waits `10 + 5 * worker`
/// milliseconds, and its text names that worker, repeats task `i`'s payload and
/// gives that payload's UTF-8 byte length, as `process_on_worker` does.
pub proof fn law_batch_entries(inputs: Seq<TaskInput>, worker_count: u32, results: Seq<WorkerResult>)
    requires
        inputs.len() == 0 || worker_count > 0,
        scheduled(inputs, worker_count, results),
    ensures
        results.len() == inputs.len(),
        forall|i: int|
            #![trigger results[i]]
            0 <= i < inputs.len() ==> {
                &&& results[i].output.id == inputs[i].id
                &&& results[i].worker_index == i % (worker_count as int)
                &&& results[i].worker_index < worker_count
                &&& results[i].delay_ms == 10 + 5 * results[i].worker_index
                &&& exists|worker_field: Seq<char>, len_field: Seq<char>|
                    {
                        &&& is_numeral(worker_field)
                        &&& decimal_value(worker_field) == results[i].worker_index
                        &&& is_numeral(len_field)
                        &&& decimal_value(len_field) == encode_utf8(inputs[i].payload@).len()
                        &&& results[i].output.result@ == "processed by worker-"@ + worker_field + ": "@
                            + inputs[i].payload@ + " (len="@ + len_field + ")"@
                    }
            },
{
    assert forall|i: int| #![trigger results[i]] 0 <= i < inputs.len() implies {
        &&& results[i].output.id == inputs[i].id
        &&& results[i].worker_index == i % (worker_count as int)
        &&& results[i].worker_index < worker_count
        &&& results[i].delay_ms == 10 + 5 * results[i].worker_index
        &&& exists|worker_field: Seq<char>, len_field: Seq<char>|
            {
                &&& is_numeral(worker_field)
                &&& decimal_value(worker_field) == results[i].worker_index
                &&& is_numeral(len_field)
                &&& decimal_value(len_field) == encode_utf8(inputs[i].payload@).len()
                &&& results[i].output.result@ == "processed by worker-"@ + worker_field + ": "@
                    + inputs[i].payload@ + " (len="@ + len_field + ")"@
            }
    } by {
        lemma_worker_text_reads_back(results[i].worker_index, inputs[i].payload@);
    }
}

/// How many entries of `assigned` name worker `worker`.
pub open spec fn load(assigned: Seq<u32>, worker: u32) -> nat
    decreases assigned.len(),
{
    if assigned.len() == 0 {
        0
    } else {
        load(assigned.drop_last(), worker) + if assigned.last() == worker {
            1nat
        } else {
            0nat
        }
    }
}

/// Dealing tasks out in turn balances the workers: of `n` tasks, worker `k` gets
/// `n / worker_count` of them, and one more when `k < n % worker_count`.
pub proof fn lemma_round_robin_balanced(assigned: Seq<u32>, worker_count: u32, k: u32)
    requires
        worker_count > 0,
        k < worker_count,
        forall|i: int| 0 <= i < assigned.len() ==> #[trigger] assigned[i] == i % (worker_count as int),
    ensures
        load(assigned, k) == assigned.len() / (worker_count as nat) + if k < assigned.len() % (
        worker_count as nat) {
            1nat
        } else {
            0nat
        },
    decreases assigned.len(),
{
    let n = assigned.len() as int;
    let w = worker_count as int;
    if n > 0 {
        let prev = assigned.drop_last();
        assert forall|i: int| 0 <= i < prev.len() implies #[trigger] prev[i] == i % w by {
            assert(prev[i] == assigned[i]);
        }
        lemma_round_robin_balanced(prev, worker_count, k);
        let m = n - 1;
        let q = m / w;
        let r = m % w;
        lemma_fundamental_div_mod(m, w);
        assert(assigned.last() == r);
        assert(0 <= r < w);
        assert(w * q == q * w) by (nonlinear_arith);
        assert(m == q * w + r);
        assert(prev.len() == m);
        assert(load(assigned, k) == load(prev, k) + if r == k {
            1nat
        } else {
            0nat
        });
        if r + 1 < w {
            lemma_fundamental_div_mod_converse(n, w, q, r + 1);
            assert(n / w == q && n % w == r + 1);
        } else {
            assert((q + 1) * w == q * w + w) by (nonlinear_arith);
            lemma_fundamental_div_mod_converse(n, w, q + 1, 0);
            assert(n / w == q + 1 && n % w == 0);
        }
        assert(prev.len() / (worker_count as nat) == q);
        assert(prev.len() % (worker_count as nat) == r);
    } else {
        lemma_fundamental_div_mod_converse(0, w, 0, 0);
    }
}

/// The workers that `schedule_batch` picked, task by task.
pub open spec fn assigned_workers(results: Seq<WorkerResult>) -> Seq<u32> {
    results.map_values(|r: WorkerResult| r.worker_index)
}

/// A batch scheduled over `worker_count` workers is balanced: of its `n` tasks,
/// worker `k` runs `n / worker_count`, and one more when `k < n % worker_count`.
pub proof fn lemma_batch_balanced(
    inputs: Seq<TaskInput>,
    worker_count: u32,
    results: Seq<WorkerResult>,
    k: u32,
)
    requires
        scheduled(inputs, worker_count, results),
        worker_count > 0,
        k < worker_count,
    ensures
        load(assigned_workers(results), k) == inputs.len() / (worker_count as nat) + if k
            < inputs.len() % (worker_count as nat) {
            1nat
        } else {
            0nat
        },
{
    let assigned = assigned_workers(results);
    assert forall|i: int| 0 <= i < assigned.len() implies #[trigger] assigned[i] == i % (
    worker_count as int) by {
        assert(assigned[i] == results[i].worker_index);
    }
    lemma_round_robin_balanced(assigned, worker_count, k);
}

/// Different workers answer after different delays.
pub proof fn lemma_delays_distinct(a: u32, b: u32)
    requires
        a != b,
    ensures
        worker_delay(a) != worker_delay(b),
{
}

/// Why a task could not be handed to a worker.
#[derive(Debug, Clone, Copy, PartialEq, Eq)]
pub enum PoolError {
    /// The pool has no worker.
    NoWorkers,
}

impl PoolError {
    /// The text with which the task's promise is rejected.
    pub fn message(&self) -> (text: &'static str)
        ensures
            text@ == "No workers available"@,
    {
        match self {
            PoolError::NoWorkers => "No workers available",
        }
    }
}

/// The worker that takes a task when every task goes to the first worker:
/// worker `0`, or an error when there is none.
pub fn select_worker(worker_count: u32) -> (selected: Result<u32, PoolError>)
    ensures
        worker_count > 0 <==> selected is Ok,
        selected matches Ok(w) ==> w == 0,
        selected matches Err(e) ==> e == PoolError::NoWorkers,
{
    if worker_count == 0 {
        Err(PoolError::NoWorkers)
    } else {
        Ok(0)
    }
}

/// How a worker's reply settles its task.
pub enum ReplyOutcome<V> {
    /// The task succeeded with this value.
    Resolve(V),
    /// The task failed with this value.
    Reject(V),
}

/// Settles a task from a worker's reply: a reply whose `type` is the text
/// `result` resolves the task with the reply's result; any other reply,
/// including one without a textual `type`, rejects it with the reply's error.
pub fn settle_reply<V>(reply_type: Option<String>, result: V, error: V) -> (outcome: ReplyOutcome<V>)
    ensures
        (reply_type matches Some(t) && t@ == "result"@) ==> outcome == ReplyOutcome::Resolve(result),
        !(reply_type matches Some(t) && t@ == "result"@) ==> outcome == ReplyOutcome::Reject(error),
{
    let mut expected = String::new();
    expected.append("result");
    match reply_type {
        Some(t) => {
            if t == expected {
                ReplyOutcome::Resolve(result)
            } else {
                ReplyOutcome::Reject(error)
            }
        },
        None => ReplyOutcome::Reject(error),
    }
}

} // verus!
