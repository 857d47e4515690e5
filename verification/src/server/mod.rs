//! Server: configuration, the command queue, the execution of commands
//! against the stores, and the decisions of a connection.
//!
//! Light key/value traffic and heavy vector work go to separate pools, so
//! that a flood of searches cannot delay a GET.

pub mod buffer_pool;
pub mod command_queue;
pub mod config;
pub mod handler;
pub mod worker_pool;

pub use buffer_pool::BufferPool;
pub use command_queue::{CommandQueue, WorkItem, WorkResult};
pub use config::Config;
pub use handler::Handler;
pub use worker_pool::{WorkerPool, WorkerPoolConfig};

use vstd::prelude::*;
use crate::metrics::{Metrics, MetricsModel};
use crate::protocol::command::{parse_command, Command, CommandModel};
use crate::protocol::frame::{opcode_name, Frame, OpCode, ProtocolError};
use crate::protocol::response::{Response, ResponseModel};
use crate::storage::concurrent_store::{
    cpu_count, shard_amount, shard_amount_for, ConcurrentStore,
};
use crate::storage::entry::no_entries;
use crate::storage::store::Store;
use crate::vector::semantic::SemanticCache;
use command_queue::Rejected;
use handler::{is_vector_command, parse_failure, reply_frame, vector_work};

verus! {

/// The two pools of workers.
#[derive(Debug, Clone, Copy, PartialEq, Eq, Structural)]
pub enum Pool {
    /// Key/value work: sized to the cores and pinned to them.
    Kv,
    /// Vector work: few threads, not pinned.
    Vector,
}

/// The pool that a command goes to: the vector pool for VADD and VSEARCH,
/// the key/value pool for every other command.
pub open spec fn pool_of(cmd: CommandModel) -> Pool {
    if is_vector_command(cmd) {
        Pool::Vector
    } else {
        Pool::Kv
    }
}

/// Computes the pool that a command goes to.
pub fn route(cmd: &Command) -> (pool: Pool)
    ensures
        pool == pool_of(cmd@),
{
    if vector_work(cmd) {
        Pool::Vector
    } else {
        Pool::Kv
    }
}

/// The answer to a request whose queue is full.
pub open spec fn queue_full_reply() -> ResponseModel {
    ResponseModel::Error("queue full"@)
}

/// The answer to a request whose worker is gone.
pub open spec fn worker_error_reply() -> ResponseModel {
    ResponseModel::Error("worker error"@)
}

/// What became of a request that was handed to a queue.
pub enum Submitted {
    /// The request is in the queue of this pool; its result will come on
    /// its channel.
    Queued(Pool),
    /// The queue did not take the request; this frame answers it.
    Refused(Frame),
}

/// Single-threaded server: one key/value store, one semantic cache, and
/// the metrics of what was executed.
pub struct Server {
    config: Config,
    handler: Handler,
    metrics: Metrics,
}

impl Server {
    /// The handler's stores and the metrics are well formed.
    pub closed spec fn wf(&self) -> bool {
        self.handler.wf() && self.metrics.wf()
    }

    /// The handler of this server.
    pub closed spec fn spec_handler(&self) -> Handler {
        self.handler
    }

    /// The configuration of this server.
    pub closed spec fn spec_config(&self) -> Config {
        self.config
    }

    /// What the metrics have recorded.
    pub closed spec fn recorded(&self) -> MetricsModel {
        self.metrics@
    }

    /// A server with empty stores that has recorded nothing.
    pub fn new(config: Config) -> (s: Server)
        ensures
            s.wf(),
            s.spec_handler().entries() == no_entries(),
            s.spec_handler().index().len() == 0,
            s.spec_config() == config,
            s.recorded() == MetricsModel::fresh(),
    {
        Server {
            config,
            handler: Handler::new(Store::new(), SemanticCache::with_defaults()),
            metrics: Metrics::new(),
        }
    }

    /// The configuration.
    pub fn config(&self) -> (c: &Config)
        ensures
            *c == self.spec_config(),
    {
        &self.config
    }

    /// The metrics.
    pub fn metrics(&self) -> (m: &Metrics)
        requires
            self.wf(),
        ensures
            m.wf(),
            m@ == self.recorded(),
    {
        &self.metrics
    }

    /// The address to listen on: the bind address, a colon and the port.
    pub fn listen_address(&self) -> (addr: String)
        ensures
            addr@ == self.spec_config().bind@ + ":"@ + crate::text::decimal_text(
                self.spec_config().port as nat,
            ),
    {
        let mut addr = self.config.bind.clone();
        addr.append(":");
        let port = crate::text::decimal(self.config.port as u64);
        addr.append(port.as_str());
        addr
    }

    /// The handler, to execute requests with.
    pub fn handler(&mut self) -> (h: &mut Handler)
        ensures
            *h == old(self).spec_handler(),
            *final(h) == final(self).spec_handler(),
            final(self).spec_config() == old(self).spec_config(),
            final(self).recorded() == old(self).recorded(),
    {
        &mut self.handler
    }

    /// Records that a request with this opcode was answered after
    /// `latency_us` microseconds.
    pub fn record(&mut self, opcode: OpCode, latency_us: u64)
        requires
            old(self).wf(),
        ensures
            final(self).wf(),
            final(self).recorded() == old(self).recorded().recorded(
                opcode_name(opcode),
                latency_us,
            ),
            final(self).spec_handler() == old(self).spec_handler(),
            final(self).spec_config() == old(self).spec_config(),
    {
        self.metrics.record_operation(opcode.name(), latency_us);
    }
}

/// Multi-threaded server: a sharded key/value store, a semantic cache, and
/// two pools of workers.
pub struct ConcurrentServer {
    config: Config,
    store: ConcurrentStore,
    vector_store: SemanticCache,
    metrics: Metrics,
    queue_capacity: usize,
}

impl ConcurrentServer {
    /// Both stores and the metrics are well formed.
    pub closed spec fn wf(&self) -> bool {
        self.store.wf() && self.vector_store.wf() && self.metrics.wf()
    }

    /// The configuration of this server.
    pub closed spec fn spec_config(&self) -> Config {
        self.config
    }

    /// The capacity of each pool's queue.
    pub closed spec fn spec_queue_capacity(&self) -> usize {
        self.queue_capacity
    }

    /// The key/value store.
    pub closed spec fn spec_store(&self) -> ConcurrentStore {
        self.store
    }

    /// The semantic cache.
    pub closed spec fn spec_vector_store(&self) -> SemanticCache {
        self.vector_store
    }

    /// The metrics.
    pub closed spec fn spec_metrics(&self) -> Metrics {
        self.metrics
    }

    /// A server with empty stores and the default pool configuration.
    pub fn new(config: Config) -> (s: ConcurrentServer)
        ensures
            s.wf(),
            s.spec_config() == config,
    {
        ConcurrentServer::with_worker_config(config, WorkerPoolConfig::default())
    }

    /// A server with empty stores. The key/value store gets about four
    /// shards per key/value worker: a power of two, at least two. Where
    /// the number of workers is left to the machine, it is that of its
    /// cores.
    pub fn with_worker_config(config: Config, worker_config: WorkerPoolConfig) -> (s:
        ConcurrentServer)
        ensures
            s.wf(),
            s.spec_config() == config,
            s.spec_queue_capacity() == worker_config.queue_capacity,
            s.spec_store()@ == no_entries(),
            s.spec_vector_store()@.len() == 0,
            s.spec_metrics()@ == MetricsModel::fresh(),
            config.kv_workers > 0 ==> s.spec_store().shard_count() == shard_amount_for(
                config.kv_workers,
            ),
            config.kv_workers == 0 ==> exists|cores: usize|
                s.spec_store().shard_count() == #[trigger] shard_amount_for(cores),
    {
        let workers = config.kv_worker_count(cpu_count());
        ConcurrentServer {
            config,
            store: ConcurrentStore::with_shard_amount(shard_amount(workers)),
            vector_store: SemanticCache::with_defaults(),
            metrics: Metrics::new(),
            queue_capacity: worker_config.queue_capacity,
        }
    }

    /// The configuration of the key/value pool on a machine of `cores`
    /// cores: one worker per core unless configured, pinned to cores.
    pub fn kv_pool_config(&self, cores: usize) -> (c: WorkerPoolConfig)
        ensures
            c == (WorkerPoolConfig {
                num_workers: if self.spec_config().kv_workers == 0 {
                    cores
                } else {
                    self.spec_config().kv_workers
                },
                pin_to_cores: true,
                queue_capacity: self.spec_queue_capacity(),
            }),
    {
        WorkerPoolConfig {
            num_workers: self.config.kv_worker_count(cores),
            pin_to_cores: true,
            queue_capacity: self.queue_capacity,
        }
    }

    /// The configuration of the vector pool: four workers unless
    /// configured, not pinned.
    pub fn vector_pool_config(&self) -> (c: WorkerPoolConfig)
        ensures
            c == (WorkerPoolConfig {
                num_workers: if self.spec_config().vector_workers == 0 {
                    config::DEFAULT_VECTOR_WORKERS
                } else {
                    self.spec_config().vector_workers
                },
                pin_to_cores: false,
                queue_capacity: self.spec_queue_capacity(),
            }),
    {
        WorkerPoolConfig {
            num_workers: self.config.vector_worker_count(),
            pin_to_cores: false,
            queue_capacity: self.queue_capacity,
        }
    }

    /// The configuration.
    pub fn config(&self) -> (c: &Config)
        ensures
            *c == self.spec_config(),
    {
        &self.config
    }

    /// The key/value store.
    pub fn store(&self) -> (s: &ConcurrentStore)
        requires
            self.wf(),
        ensures
            s.wf(),
            *s == self.spec_store(),
    {
        &self.store
    }

    /// The metrics.
    pub fn metrics(&self) -> (m: &Metrics)
        requires
            self.wf(),
        ensures
            m.wf(),
            *m == self.spec_metrics(),
    {
        &self.metrics
    }

    /// The stores and the metrics of this server, to share them among
    /// the workers.
    pub fn into_parts(self) -> (parts: (ConcurrentStore, SemanticCache, Metrics))
        requires
            self.wf(),
        ensures
            parts.0.wf(),
            parts.1.wf(),
            parts.2.wf(),
            parts.0 == self.spec_store(),
            parts.1 == self.spec_vector_store(),
            parts.2 == self.spec_metrics(),
    {
        (self.store, self.vector_store, self.metrics)
    }
}

/// The decisions of one connection of the multi-threaded server.
pub struct ConcurrentHandler {
    kv_queue: CommandQueue,
    vector_queue: CommandQueue,
}

impl ConcurrentHandler {
    /// The queue of the key/value pool.
    pub closed spec fn kv_queue(&self) -> CommandQueue {
        self.kv_queue
    }

    /// The queue of the vector pool.
    pub closed spec fn vector_queue(&self) -> CommandQueue {
        self.vector_queue
    }

    /// A handler that routes to the two queues.
    pub fn new(kv_queue: CommandQueue, vector_queue: CommandQueue) -> (h: ConcurrentHandler)
        ensures
            h.kv_queue() == kv_queue,
            h.vector_queue() == vector_queue,
    {
        ConcurrentHandler { kv_queue, vector_queue }
    }

    /// The queue of a pool.
    pub fn queue_of(&self, pool: Pool) -> (q: &CommandQueue)
        ensures
            *q == match pool {
                Pool::Vector => self.vector_queue(),
                Pool::Kv => self.kv_queue(),
            },
    {
        match pool {
            Pool::Vector => &self.vector_queue,
            Pool::Kv => &self.kv_queue,
        }
    }

    /// The queue that a command is handed to: that of the vector pool for
    /// VADD and VSEARCH, that of the key/value pool for every other
    /// command.
    pub fn queue_for(&self, cmd: &Command) -> (q: &CommandQueue)
        ensures
            *q == if is_vector_command(cmd@) {
                self.vector_queue()
            } else {
                self.kv_queue()
            },
    {
        self.queue_of(route(cmd))
    }

    /// What becomes of a request, given what the queue of its pool said
    /// when the request was handed to it: it is queued in that pool where
    /// the queue took it, and answered at once with the error "queue full"
    /// where the queue did not.
    pub fn submitted(outcome: Result<(), Rejected>, pool: Pool, request_id: u64) -> (r:
        Submitted)
        ensures
            match outcome {
                Ok(_) => r matches Submitted::Queued(p) && p == pool,
                Err(_) => r matches Submitted::Refused(f) && f@ == reply_frame(
                    queue_full_reply(),
                    request_id,
                ) && f.header.request_id == request_id,
            },
    {
        match outcome {
            Ok(()) => Submitted::Queued(pool),
            Err(_) => Submitted::Refused(ConcurrentHandler::queue_full_frame(request_id)),
        }
    }

    /// The frame that answers a request whose queue was full.
    pub fn queue_full_frame(request_id: u64) -> (f: Frame)
        ensures
            f@ == reply_frame(queue_full_reply(), request_id),
            f.header.request_id == request_id,
    {
        Response::Error(String::from_str("queue full")).to_frame(request_id)
    }

    /// The frame that answers a request that carries no command.
    pub fn parse_failure_frame(request_id: u64, e: ProtocolError) -> (f: Frame)
        ensures
            f@ == reply_frame(ResponseModel::Error(e.text()), request_id),
            f.header.request_id == request_id,
    {
        parse_failure(e).to_frame(request_id)
    }

    /// The frame that answers a request whose result has come back, or
    /// whose worker went away without one.
    pub fn result_frame(request_id: u64, result: Option<WorkResult>) -> (f: Frame)
        ensures
            f.header.request_id == request_id,
            f@ == reply_frame(
                match result {
                    Some(r) => r@,
                    None => worker_error_reply(),
                },
                request_id,
            ),
    {
        match result {
            Some(r) => r.into_response().to_frame(request_id),
            None => Response::Error(String::from_str("worker error")).to_frame(request_id),
        }
    }

    /// What a connection does with a frame that it has read: a frame that
    /// carries a command is handed to the queue of its pool, with the
    /// channel on which the connection will wait for the result; a frame
    /// that carries none, or one whose queue does not take it, is answered
    /// at once, with the reading error or with the error "queue full".
    pub fn dispatch(
        &self,
        frame: &Frame,
        response_tx: tokio::sync::oneshot::Sender<WorkResult>,
    ) -> (r: Submitted)
        ensures
            match parse_command(frame.header.opcode, frame.payload@) {
                Err(e) => r matches Submitted::Refused(f) && f@ == reply_frame(
                    ResponseModel::Error(e.text()),
                    frame.header.request_id,
                ),
                Ok(cmd) => match r {
                    Submitted::Queued(pool) => pool == pool_of(cmd),
                    Submitted::Refused(f) => f@ == reply_frame(
                        queue_full_reply(),
                        frame.header.request_id,
                    ),
                },
            },
    {
        let request_id = frame.header.request_id;
        match Command::from_frame(frame) {
            Ok(command) => self.submit(WorkItem { command, request_id, response_tx }),
            Err(e) => Submitted::Refused(ConcurrentHandler::parse_failure_frame(request_id, e)),
        }
    }

    /// Hands a request to the queue of the pool that its command goes to,
    /// without waiting. Where the queue does not take it, the request is
    /// answered at once with the error "queue full". Whether the queue
    /// takes it depends on what other threads have put into the queue and
    /// taken out of it: `route` says which pool is asked, `queue_of` which
    /// queue that is, and `submitted` what follows from its answer.
    pub fn submit(&self, item: WorkItem) -> (r: Submitted)
        ensures
            match r {
                Submitted::Queued(pool) => pool == pool_of(item.command@),
                Submitted::Refused(f) => f@ == reply_frame(queue_full_reply(), item.request_id),
            },
    {
        let request_id = item.request_id;
        let pool = route(&item.command);
        let outcome = self.queue_of(pool).try_send(item);
        ConcurrentHandler::submitted(outcome, pool, request_id)
    }
}

} // verus!
