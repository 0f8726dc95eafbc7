//! The host pool: tasks processed on rayon's worker threads.

use vstd::prelude::*;

use rayon::iter::{IntoParallelIterator, ParallelIterator};

use crate::decimal::{decimal_value, is_numeral};
use crate::task::{law_process_task, processed, process_task, TaskInput, TaskOutput};
use vstd::utf8::encode_utf8;

verus! {

/// `outputs` holds, position by position, the processing of `inputs`.
pub open spec fn processed_all(inputs: Seq<TaskInput>, outputs: Seq<TaskOutput>) -> bool {
    &&& outputs.len() == inputs.len()
    &&& forall|i: int| 0 <= i < inputs.len() ==> #[trigger] outputs[i]@ == processed(inputs[i]@)
}

/// What `run_tasks_parallel` gives back, read entry by entry: one output per
/// input, and output `i` keeps the identifier of input `i` and reads
/// `processed: `, the payload of input `i` character for character, ` (len=`, a
/// numeral whose value is that payload's UTF-8 byte length, and `)`.
pub proof fn law_parallel_batch(inputs: Seq<TaskInput>, outputs: Seq<TaskOutput>)
    requires
        processed_all(inputs, outputs),
    ensures
        outputs.len() == inputs.len(),
        forall|i: int|
            #![trigger outputs[i]]
            0 <= i < inputs.len() ==> {
                &&& outputs[i].id == inputs[i].id
                &&& exists|len_field: Seq<char>|
                    {
                        &&& is_numeral(len_field)
                        &&& decimal_value(len_field) == encode_utf8(inputs[i].payload@).len()
                        &&& outputs[i].result@ == "processed: "@ + inputs[i].payload@ + " (len="@
                            + len_field + ")"@
                    }
            },
{
    assert forall|i: int| #![trigger outputs[i]] 0 <= i < inputs.len() implies {
        &&& outputs[i].id == inputs[i].id
        &&& exists|len_field: Seq<char>|
            {
                &&& is_numeral(len_field)
                &&& decimal_value(len_field) == encode_utf8(inputs[i].payload@).len()
                &&& outputs[i].result@ == "processed: "@ + inputs[i].payload@ + " (len="@
                    + len_field + ")"@
            }
    } by {
        law_process_task(inputs[i], outputs[i]);
    }
}

/// Runs `process_task` on every input on rayon's thread pool
/// (`into_par_iter().map(..).collect()`).
///
/// Trusted: rayon's `collect` into a `Vec` from the indexed iterator of a `Vec`
/// keeps the order of the items (rayon documents that the parallel and the
/// sequential collection agree), so the result holds `process_task` of each
/// input at that input's position.
#[verifier::external_body]
fn par_process(inputs: Vec<TaskInput>) -> (outputs: Vec<TaskOutput>)
    ensures
        processed_all(inputs@, outputs@),
{
    inputs.into_par_iter().map(process_task).collect()
}

/// Processes all tasks in parallel; the outputs come back in the order of the inputs.
pub fn run_tasks_parallel(inputs: Vec<TaskInput>) -> (outputs: Vec<TaskOutput>)
    ensures
        processed_all(inputs@, outputs@),
{
    par_process(inputs)
}

/// Sets up rayon's global pool with `num_threads` threads (`0`: rayon's default)
/// through `ThreadPoolBuilder::new().num_threads(..).build_global()`.
///
/// Trusted, and nothing is stated of the result: `build_global` fails when the
/// global pool has already been set up in this process, and whether it has
/// depends on the process's history.
#[verifier::external_body]
fn install_global_pool(num_threads: usize) -> (installed: bool) {
    rayon::ThreadPoolBuilder::new().num_threads(num_threads).build_global().is_ok()
}

/// A pool that runs tasks on rayon's global thread pool.
pub struct NativeWorkerPool {
    size: usize,
}

impl View for NativeWorkerPool {
    type V = usize;

    /// The number of threads that the pool was asked for.
    closed spec fn view(&self) -> usize {
        self.size
    }
}

impl NativeWorkerPool {
    /// Asks rayon for a global pool of `size` threads; where the global pool
    /// already exists it is kept as it is.
    pub fn new(size: usize) -> (pool: Self)
        ensures
            pool@ == size,
    {
        let _ = install_global_pool(size);
        NativeWorkerPool { size }
    }
}

} // verus!
