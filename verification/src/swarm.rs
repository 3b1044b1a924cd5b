//! Parallel browser swarm: task and result records, and the decisions
//! that surround running them (task naming, timeouts, failed joins).

use vstd::prelude::*;
use crate::text::{owned, push_str, push_decimal, decimal};

verus! {

/// Configuration of a swarm.
#[derive(Debug, Clone, Copy, PartialEq, Eq, Structural)]
pub struct SwarmConfig {
    /// Maximum number of concurrent workers.
    pub max_workers: usize,
    /// Per-worker timeout in seconds.
    pub worker_timeout_secs: u64,
}

impl Default for SwarmConfig {
    fn default() -> (c: Self)
        ensures
            c.max_workers == 6,
            c.worker_timeout_secs == 300,
    {
        SwarmConfig { max_workers: 6, worker_timeout_secs: 300 }
    }
}

/// A unit of work for the swarm.
#[derive(Debug, Clone)]
pub struct SwarmTask {
    /// Unique identifier of the task.
    pub id: String,
    /// What the task does.
    pub description: String,
    /// Optional starting URL.
    pub start_url: Option<String>,
}

/// The outcome of one task.
#[derive(Debug, Clone)]
pub struct SwarmResult {
    /// Identifier of the task.
    pub task_id: String,
    /// The task completed successfully.
    pub success: bool,
    /// Result payload.
    pub result: String,
    /// Wall-clock duration in milliseconds.
    pub duration_ms: u64,
    /// Number of pages visited.
    pub pages_visited: usize,
}

/// The result recorded for a task that ran out of time.
pub fn timed_out_result(task_id: String, timeout_secs: u64) -> (r: SwarmResult)
    requires
        timeout_secs * 1000 <= u64::MAX,
    ensures
        r.task_id == task_id,
        !r.success,
        r.result@ == "task timed out"@,
        r.duration_ms == timeout_secs * 1000,
        r.pages_visited == 0,
{
    SwarmResult {
        task_id,
        success: false,
        result: owned("task timed out"),
        duration_ms: timeout_secs * 1000,
        pages_visited: 0,
    }
}

/// The result recorded for a task whose worker could not be joined.
pub fn join_error_result(message: &str) -> (r: SwarmResult)
    ensures
        r.task_id@ == "unknown"@,
        !r.success,
        r.result@ == "join error: "@ + message@,
        r.duration_ms == 0,
        r.pages_visited == 0,
{
    let mut result = owned("join error: ");
    push_str(&mut result, message);
    SwarmResult {
        task_id: owned("unknown"),
        success: false,
        result,
        duration_ms: 0,
        pages_visited: 0,
    }
}

/// Fans lists of URLs out across a swarm.
#[derive(Debug, Clone, Copy)]
pub struct SwarmOrchestrator;

/// Identifier of the `i`-th URL task.
pub open spec fn url_task_id(i: nat) -> Seq<char> {
    "url-task-"@ + decimal(i)
}

impl SwarmOrchestrator {
    /// One task per URL, in order: the `i`-th has id `url-task-{i}`, the
    /// shared description, and the URL to start from.
    pub fn url_tasks(urls: Vec<String>, description: &str) -> (r: Vec<SwarmTask>)
        ensures
            r@.len() == urls@.len(),
            forall|i: int| #![trigger r@[i]]
                0 <= i < r@.len() ==> (r@[i].id@ == url_task_id(i as nat) && r@[i].description@
                    == description@ && (r@[i].start_url matches Some(u) && u@ == urls@[i]@)),
    {
        let mut r: Vec<SwarmTask> = Vec::new();
        let n = urls.len();
        let mut rest = urls;
        let ghost all = rest@;
        let mut taken: Vec<String> = Vec::new();
        let mut i: usize = 0;
        while i < n
            invariant
                n == all.len(),
                i <= n,
                r@.len() == i,
                rest@ == all.skip(i as int),
                forall|k: int| #![trigger r@[k]]
                    0 <= k < i ==> (r@[k].id@ == url_task_id(k as nat) && r@[k].description@
                        == description@ && (r@[k].start_url matches Some(u) && u@ == all[k]@)),
            decreases n - i,
        {
            let url = rest.remove(0);
            assert(all.skip(i as int)[0] == url);
            assert(all.skip(i + 1) =~= all.skip(i as int).drop_first());
            let mut id = owned("url-task-");
            push_decimal(&mut id, i as u64);
            r.push(SwarmTask { id, description: owned(description), start_url: Some(url) });
            i += 1;
        }
        r
    }

    /// The result of visiting a task's URL: the URL (or nothing) as the
    /// payload, one page visited.
    pub fn visit_result(task: SwarmTask, duration_ms: u64) -> (r: SwarmResult)
        ensures
            r.task_id == task.id,
            r.success,
            r.result@ == (match task.start_url {
                Some(u) => u@,
                None => Seq::<char>::empty(),
            }),
            r.duration_ms == duration_ms,
            r.pages_visited == 1,
    {
        let result = match task.start_url {
            Some(u) => u,
            None => String::new(),
        };
        SwarmResult { task_id: task.id, success: true, result, duration_ms, pages_visited: 1 }
    }
}

} // verus!
