//! Worker pools: how many threads a pool runs, which core each is pinned
//! to, and what a worker does with one work item.
//!
//! The threads themselves are started by the program around the library;
//! their loop takes an item from the queue and hands it to `process`.

use vstd::prelude::*;
use super::command_queue::{deliver, CommandQueue, WorkItem, WorkResult, MAX_QUEUE_CAPACITY};
use super::handler::{
    execute_concurrent, execute_kv_concurrent, execute_vector, is_vector_command, kv_after,
    reads_scores, reply_to, vector_after,
};
use crate::protocol::command::Command;
use crate::protocol::payload::byte_strings;
use crate::protocol::response::{Response, ResponseModel};
use crate::storage::concurrent_store::{cpu_count, ConcurrentStore};
use crate::vector::semantic::SemanticCache;

verus! {

/// The default capacity of a command queue.
pub const DEFAULT_QUEUE_CAPACITY: usize = 10000;

/// Worker pool configuration.
#[derive(Debug, Clone, Copy, PartialEq, Eq, Structural)]
pub struct WorkerPoolConfig {
    /// Number of worker threads (0 = one per core).
    pub num_workers: usize,
    /// Whether each worker is pinned to a core.
    pub pin_to_cores: bool,
    /// Capacity of the command queue.
    pub queue_capacity: usize,
}

impl Default for WorkerPoolConfig {
    /// One pinned worker per core of this machine and a queue of 10,000.
    fn default() -> (c: WorkerPoolConfig)
        ensures
            c.pin_to_cores,
            c.queue_capacity == DEFAULT_QUEUE_CAPACITY,
    {
        WorkerPoolConfig {
            num_workers: cpu_count(),
            pin_to_cores: true,
            queue_capacity: DEFAULT_QUEUE_CAPACITY,
        }
    }
}

impl WorkerPoolConfig {
    /// The number of threads to start on a machine of `cores` cores: the
    /// configured number, or one per core where it is zero.
    pub fn worker_count(&self, cores: usize) -> (n: usize)
        ensures
            n == if self.num_workers == 0 {
                cores
            } else {
                self.num_workers
            },
    {
        if self.num_workers == 0 {
            cores
        } else {
            self.num_workers
        }
    }

    /// The core to pin worker `worker` to, where `cores` cores can be
    /// pinned to: its own, if pinning is on and there is one.
    pub fn core_for(&self, worker: usize, cores: usize) -> (core: Option<usize>)
        ensures
            core == if self.pin_to_cores && worker < cores {
                Some(worker)
            } else {
                None
            },
    {
        if self.pin_to_cores && worker < cores {
            Some(worker)
        } else {
            None
        }
    }
}

impl View for WorkResult {
    type V = ResponseModel;

    open spec fn view(&self) -> ResponseModel {
        match *self {
            WorkResult::Okay => ResponseModel::Okay,
            WorkResult::Nil => ResponseModel::Nil,
            WorkResult::Value(data) => ResponseModel::Value(data@),
            WorkResult::Integer(n) => ResponseModel::Integer(n),
            WorkResult::Error(msg) => ResponseModel::Error(msg@),
            WorkResult::Pong => ResponseModel::Pong,
            WorkResult::Array(items) => ResponseModel::Array(byte_strings(items@)),
        }
    }
}

impl WorkResult {
    /// The result that stands for a response.
    pub fn from_response(response: Response) -> (r: WorkResult)
        ensures
            r@ == response@,
    {
        match response {
            Response::Okay => WorkResult::Okay,
            Response::Nil => WorkResult::Nil,
            Response::Value(data) => WorkResult::Value(data),
            Response::Integer(n) => WorkResult::Integer(n),
            Response::Error(msg) => WorkResult::Error(msg),
            Response::Pong => WorkResult::Pong,
            Response::Array(items) => WorkResult::Array(items),
        }
    }

    /// The response that stands for this result.
    pub fn into_response(self) -> (r: Response)
        ensures
            r@ == self@,
    {
        match self {
            WorkResult::Okay => Response::Okay,
            WorkResult::Nil => Response::Nil,
            WorkResult::Value(data) => Response::Value(data),
            WorkResult::Integer(n) => Response::Integer(n),
            WorkResult::Error(msg) => Response::Error(msg),
            WorkResult::Pong => Response::Pong,
            WorkResult::Array(items) => Response::Array(items),
        }
    }
}

/// A pool of workers on one queue.
pub struct WorkerPool {
    config: WorkerPoolConfig,
    queue: CommandQueue,
    started: usize,
}

impl WorkerPool {
    /// The configuration of this pool.
    pub closed spec fn spec_config(&self) -> WorkerPoolConfig {
        self.config
    }

    /// The number of workers that were started.
    pub closed spec fn spec_num_workers(&self) -> usize {
        self.started
    }

    /// The capacity of this pool's queue.
    pub closed spec fn queue_capacity(&self) -> usize {
        self.queue.spec_capacity()
    }

    /// A pool without workers, with a queue of the configured capacity,
    /// which must be one that a queue can be made with.
    pub fn new(config: WorkerPoolConfig) -> (p: WorkerPool)
        requires
            config.queue_capacity <= MAX_QUEUE_CAPACITY,
        ensures
            p.spec_config() == config,
            p.spec_num_workers() == 0,
            p.queue_capacity() == config.queue_capacity,
    {
        WorkerPool { config, queue: CommandQueue::new(config.queue_capacity), started: 0 }
    }

    /// Records that the pool's workers are started and returns how many
    /// they are on a machine of `cores` cores.
    pub fn start(&mut self, cores: usize) -> (n: usize)
        ensures
            n == if old(self).spec_config().num_workers == 0 {
                cores
            } else {
                old(self).spec_config().num_workers
            },
            final(self).spec_num_workers() == n,
            final(self).spec_config() == old(self).spec_config(),
            final(self).queue_capacity() == old(self).queue_capacity(),
    {
        let n = self.config.worker_count(cores);
        self.started = n;
        n
    }

    /// The queue on which this pool takes work.
    pub fn queue(&self) -> (q: &CommandQueue)
        ensures
            q.spec_capacity() == self.queue_capacity(),
    {
        &self.queue
    }

    /// The number of workers.
    pub fn num_workers(&self) -> (n: usize)
        ensures
            n == self.spec_num_workers(),
    {
        self.started
    }

    /// Executes a command against the stores at `now` and returns the
    /// result: the answer that `execute_concurrent` gives.
    pub fn execute_command(
        store: &mut ConcurrentStore,
        vector_store: &mut SemanticCache,
        cmd: Command,
        now: u64,
        scores: &Vec<u32>,
    ) -> (r: WorkResult)
        requires
            old(store).wf(),
            old(vector_store).wf(),
            reads_scores(old(vector_store).spec_config(), cmd@) ==> scores@.len()
                == old(vector_store)@.len(),
        ensures
            final(store).wf(),
            final(vector_store).wf(),
            final(vector_store).spec_config() == old(vector_store).spec_config(),
            r@ == reply_to(
                old(store)@,
                old(vector_store)@,
                old(vector_store).spec_config(),
                cmd@,
                now,
                scores@,
            ),
            final(store)@ == kv_after(old(store)@, cmd@, now),
            final(vector_store)@ == vector_after(
                old(vector_store)@,
                old(vector_store).spec_config(),
                cmd@,
                now,
            ),
    {
        WorkResult::from_response(execute_concurrent(store, vector_store, cmd, now, scores))
    }

    /// What a worker of the key/value pool does with one item: execute
    /// its command against the store and send the result to the connection
    /// that waits for it. Returns whether the connection was still there.
    pub fn process_kv(store: &mut ConcurrentStore, item: WorkItem, now: u64) -> (delivered: bool)
        requires
            old(store).wf(),
            !is_vector_command(item.command@),
        ensures
            final(store).wf(),
            final(store)@ == kv_after(old(store)@, item.command@, now),
    {
        let WorkItem { command, request_id: _, response_tx } = item;
        let result = WorkResult::from_response(execute_kv_concurrent(store, command, now));
        deliver(response_tx, result)
    }

    /// What a worker of the vector pool does with one item: execute its
    /// command against the cache and send the result to the connection
    /// that waits for it. Returns whether the connection was still there.
    pub fn process_vector(
        vector_store: &mut SemanticCache,
        item: WorkItem,
        now: u64,
        scores: &Vec<u32>,
    ) -> (delivered: bool)
        requires
            old(vector_store).wf(),
            is_vector_command(item.command@),
            reads_scores(old(vector_store).spec_config(), item.command@) ==> scores@.len()
                == old(vector_store)@.len(),
        ensures
            final(vector_store).wf(),
            final(vector_store).spec_config() == old(vector_store).spec_config(),
            final(vector_store)@ == vector_after(
                old(vector_store)@,
                old(vector_store).spec_config(),
                item.command@,
                now,
            ),
    {
        let WorkItem { command, request_id: _, response_tx } = item;
        let result = WorkResult::from_response(execute_vector(vector_store, command, now, scores));
        deliver(response_tx, result)
    }

    /// What a worker does with one item: execute its command and send the
    /// result to the connection that waits for it. Returns whether the
    /// connection was still there. The stores change as `execute_command`
    /// says, whether or not the result is delivered.
    pub fn process(
        store: &mut ConcurrentStore,
        vector_store: &mut SemanticCache,
        item: WorkItem,
        now: u64,
        scores: &Vec<u32>,
    ) -> (delivered: bool)
        requires
            old(store).wf(),
            old(vector_store).wf(),
            reads_scores(old(vector_store).spec_config(), item.command@) ==> scores@.len()
                == old(vector_store)@.len(),
        ensures
            final(store).wf(),
            final(vector_store).wf(),
            final(vector_store).spec_config() == old(vector_store).spec_config(),
            final(store)@ == kv_after(old(store)@, item.command@, now),
            final(vector_store)@ == vector_after(
                old(vector_store)@,
                old(vector_store).spec_config(),
                item.command@,
                now,
            ),
    {
        let WorkItem { command, request_id: _, response_tx } = item;
        let result = WorkerPool::execute_command(store, vector_store, command, now, scores);
        deliver(response_tx, result)
    }
}

} // verus!
