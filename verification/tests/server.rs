use celrix::protocol::codec::VcpCodec;
use celrix::protocol::command::Command;
use celrix::protocol::frame::{Frame, OpCode, ProtocolError};
use celrix::protocol::response::Response;
use celrix::server::buffer_pool::BufferPool;
use celrix::server::command_queue::{CommandQueue, Idle, Rejected, Unsent, WorkItem, WorkResult};
use celrix::server::config::Config;
use celrix::server::handler::{
    execute, execute_concurrent, execute_kv, execute_kv_concurrent, execute_vector, vector_work,
    Handler,
};
use celrix::server::worker_pool::{WorkerPool, WorkerPoolConfig};
use celrix::server::{route, ConcurrentHandler, ConcurrentServer, Pool, Server, Submitted};
use celrix::storage::concurrent_store::ConcurrentStore;
use celrix::storage::store::Store;
use celrix::vector::score::score_from_bits;
use celrix::vector::semantic::{SemanticCache, SemanticCacheConfig};

const SECOND: u64 = 1_000_000_000;

fn bits(v: &[f32]) -> Vec<u32> {
    v.iter().map(|x| x.to_bits()).collect()
}

fn key_of(x: f32) -> u32 {
    score_from_bits((x + 0.0).to_bits())
}

fn cosine(a: &[f32], b: &[f32]) -> f32 {
    let dot: f32 = a.iter().zip(b.iter()).map(|(x, y)| x * y).sum();
    let ma: f32 = a.iter().map(|x| x * x).sum::<f32>().sqrt();
    let mb: f32 = b.iter().map(|x| x * x).sum::<f32>().sqrt();
    if ma * mb > 0.0 {
        dot / (ma * mb)
    } else {
        0.0
    }
}

fn scores_for(vectors: &[Vec<u32>], query: &[f32]) -> Vec<u32> {
    vectors
        .iter()
        .map(|v| {
            let stored: Vec<f32> = v.iter().map(|b| f32::from_bits(*b)).collect();
            key_of(cosine(query, &stored))
        })
        .collect()
}

fn item(command: Command, request_id: u64) -> (WorkItem, tokio::sync::oneshot::Receiver<WorkResult>) {
    let (tx, rx) = tokio::sync::oneshot::channel();
    (WorkItem { command, request_id, response_tx: tx }, rx)
}

fn handler() -> Handler {
    let cache = SemanticCache::new(SemanticCacheConfig::default().with_dimension(3).with_threshold(key_of(0.8)));
    Handler::new(Store::new(), cache)
}

fn roundtrip(h: &mut Handler, request: Frame, now: u64, scores: &Vec<u32>) -> Frame {
    // what a connection does: bytes in, frame, command, answer, bytes out
    let mut wire: Vec<u8> = Vec::new();
    request.encode(&mut wire);
    let mut codec = VcpCodec::new();
    let frame = codec.decode(&mut wire).unwrap().unwrap();
    let parsed = Command::from_frame(&frame);
    let reply = h.respond(frame.header.request_id, parsed, now, scores);
    let mut out: Vec<u8> = Vec::new();
    reply.encode(&mut out);
    VcpCodec::new().decode(&mut out).unwrap().unwrap()
}

fn request(command: Command, request_id: u64) -> Frame {
    let (opcode, payload) = command.encode();
    Frame::new(opcode, request_id, payload)
}

#[test]
fn ping_is_answered_with_pong_and_the_same_request_id() {
    let mut h = handler();
    let reply = roundtrip(&mut h, Frame::new(OpCode::Ping, 7, Vec::new()), 0, &vec![]);
    assert_eq!(reply.header.opcode, OpCode::Pong);
    assert_eq!(reply.header.request_id, 7);
    assert_eq!(reply.header.payload_len, 0);
    assert!(reply.payload.is_empty());
    let mut bytes: Vec<u8> = Vec::new();
    reply.encode(&mut bytes);
    assert_eq!(bytes[5], 0x02);
    assert_eq!(bytes.len(), 22);
}

#[test]
fn set_then_get() {
    let mut h = handler();
    let set = request(Command::SetKey { key: b"hello".to_vec(), value: b"world".to_vec(), ttl: None }, 1);
    assert_eq!(roundtrip(&mut h, set, 0, &vec![]).header.opcode, OpCode::Okay);
    let got = roundtrip(&mut h, request(Command::Get { key: b"hello".to_vec() }, 2), 0, &vec![]);
    assert_eq!(got.header.opcode, OpCode::Value);
    assert_eq!(got.header.request_id, 2);
    assert_eq!(got.payload, b"world".to_vec());
    assert_eq!(got.payload.len(), 5);
    let missing = roundtrip(&mut h, request(Command::Get { key: b"other".to_vec() }, 3), 0, &vec![]);
    assert_eq!(missing.header.opcode, OpCode::Nil);
}

#[test]
fn a_value_expires_after_its_time_to_live() {
    let mut h = handler();
    let set = request(Command::SetKey { key: b"k".to_vec(), value: b"v".to_vec(), ttl: Some(1) }, 1);
    assert_eq!(roundtrip(&mut h, set, 10 * SECOND, &vec![]).header.opcode, OpCode::Okay);
    let get = || request(Command::Get { key: b"k".to_vec() }, 2);
    assert_eq!(roundtrip(&mut h, get(), 10 * SECOND, &vec![]).payload, b"v".to_vec());
    assert_eq!(roundtrip(&mut h, get(), 11 * SECOND, &vec![]).payload, b"v".to_vec());
    let late = roundtrip(&mut h, get(), 11 * SECOND + 100_000_000, &vec![]);
    assert_eq!(late.header.opcode, OpCode::Nil);
    let exists = roundtrip(&mut h, request(Command::Exists { key: b"k".to_vec() }, 3), 12 * SECOND, &vec![]);
    assert_eq!(Response::from_frame(&exists), Ok(Response::Integer(0)));
}

#[test]
fn del_answers_one_then_zero() {
    let mut h = handler();
    let set = request(Command::SetKey { key: b"a".to_vec(), value: b"1".to_vec(), ttl: None }, 1);
    roundtrip(&mut h, set, 0, &vec![]);
    let exists = roundtrip(&mut h, request(Command::Exists { key: b"a".to_vec() }, 2), 0, &vec![]);
    assert_eq!(Response::from_frame(&exists), Ok(Response::Integer(1)));
    let first = roundtrip(&mut h, request(Command::Del { key: b"a".to_vec() }, 3), 0, &vec![]);
    assert_eq!(first.header.opcode, OpCode::Integer);
    assert_eq!(first.payload, vec![0, 0, 0, 0, 0, 0, 0, 1]);
    let exists = roundtrip(&mut h, request(Command::Exists { key: b"a".to_vec() }, 4), 0, &vec![]);
    assert_eq!(Response::from_frame(&exists), Ok(Response::Integer(0)));
    let second = roundtrip(&mut h, request(Command::Del { key: b"a".to_vec() }, 5), 0, &vec![]);
    assert_eq!(Response::from_frame(&second), Ok(Response::Integer(0)));
}

#[test]
fn vadd_and_vsearch() {
    let mut h = handler();
    let add1 = request(Command::VAdd { key: b"q1".to_vec(), vector: bits(&[1.0, 0.0, 0.0]) }, 1);
    let add2 = request(Command::VAdd { key: b"q2".to_vec(), vector: bits(&[0.0, 1.0, 0.0]) }, 2);
    assert_eq!(roundtrip(&mut h, add1, 0, &vec![]).header.opcode, OpCode::Okay);
    assert_eq!(roundtrip(&mut h, add2, 0, &vec![]).header.opcode, OpCode::Okay);

    let query = [0.95, 0.1, 0.0];
    let scores = scores_for(&h.vectors(), &query);
    let found = roundtrip(&mut h, request(Command::VSearch { vector: bits(&query), k: 5 }, 3), 0, &scores);
    assert_eq!(Response::from_frame(&found), Ok(Response::Array(vec![b"q1".to_vec()])));

    let query = [0.0, 0.0, 1.0];
    let scores = scores_for(&h.vectors(), &query);
    let none = roundtrip(&mut h, request(Command::VSearch { vector: bits(&query), k: 5 }, 4), 0, &scores);
    assert_eq!(Response::from_frame(&none), Ok(Response::Array(vec![])));
}

#[test]
fn a_vector_of_the_wrong_dimension_is_refused() {
    let mut h = handler();
    let add = request(Command::VAdd { key: b"q".to_vec(), vector: bits(&[1.0, 0.0]) }, 1);
    let reply = roundtrip(&mut h, add, 0, &vec![]);
    assert_eq!(
        Response::from_frame(&reply),
        Ok(Response::Error("Dimension mismatch: expected 3, got 2".to_string()))
    );
    assert!(h.vectors().is_empty());
    let search = request(Command::VSearch { vector: bits(&[1.0]), k: 1 }, 2);
    let reply = roundtrip(&mut h, search, 0, &vec![]);
    assert_eq!(
        Response::from_frame(&reply),
        Ok(Response::Error("Dimension mismatch: expected 3, got 1".to_string()))
    );
}

#[test]
fn a_frame_without_a_command_is_answered_with_an_error() {
    let mut h = handler();
    let bad = Frame::new(OpCode::Get, 9, vec![0, 0, 0, 9, b'x']);
    let reply = roundtrip(&mut h, bad, 0, &vec![]);
    assert_eq!(reply.header.request_id, 9);
    assert_eq!(
        Response::from_frame(&reply),
        Ok(Response::Error("Not enough data for payload".to_string()))
    );
    let not_a_request = Frame::new(OpCode::Okay, 10, Vec::new());
    let reply = roundtrip(&mut h, not_a_request, 0, &vec![]);
    assert_eq!(
        Response::from_frame(&reply),
        Ok(Response::Error("Unexpected opcode for command: Ok".to_string()))
    );
    assert_eq!(
        ConcurrentHandler::parse_failure_frame(4, ProtocolError::InvalidMagic).payload,
        b"Invalid magic bytes".to_vec()
    );
}

#[test]
fn both_executors_answer_alike() {
    let mut store = Store::new();
    let mut sharded = ConcurrentStore::new();
    let mut cache = SemanticCache::with_defaults();
    let mut cache2 = SemanticCache::with_defaults();
    let commands = || {
        vec![
            Command::Ping,
            Command::Get { key: b"k".to_vec() },
            Command::SetKey { key: b"k".to_vec(), value: b"v".to_vec(), ttl: Some(5) },
            Command::Get { key: b"k".to_vec() },
            Command::Exists { key: b"k".to_vec() },
            Command::Del { key: b"k".to_vec() },
            Command::Del { key: b"k".to_vec() },
            Command::VAdd { key: b"v".to_vec(), vector: vec![1, 2] },
        ]
    };
    let expected = vec![
        Response::Pong,
        Response::Nil,
        Response::Okay,
        Response::Value(b"v".to_vec()),
        Response::Integer(1),
        Response::Integer(1),
        Response::Integer(0),
        Response::Error("Dimension mismatch: expected 1536, got 2".to_string()),
    ];
    for ((a, b), want) in commands().into_iter().zip(commands()).zip(expected) {
        assert_eq!(execute(&mut store, &mut cache, a, 0, &vec![]), want);
        assert_eq!(execute_concurrent(&mut sharded, &mut cache2, b, 0, &vec![]), want);
    }
    let result = WorkerPool::execute_command(&mut sharded, &mut cache2, Command::Ping, 0, &vec![]);
    assert!(matches!(result, WorkResult::Pong));
}

#[test]
fn vector_work_goes_to_the_vector_pool() {
    assert_eq!(route(&Command::Ping), Pool::Kv);
    assert_eq!(route(&Command::Get { key: vec![] }), Pool::Kv);
    assert_eq!(route(&Command::SetKey { key: vec![], value: vec![], ttl: None }), Pool::Kv);
    assert_eq!(route(&Command::Del { key: vec![] }), Pool::Kv);
    assert_eq!(route(&Command::Exists { key: vec![] }), Pool::Kv);
    assert_eq!(route(&Command::VAdd { key: vec![], vector: vec![] }), Pool::Vector);
    assert_eq!(route(&Command::VSearch { vector: vec![], k: 1 }), Pool::Vector);
}

#[test]
fn test_queue_send_recv() {
    let queue = CommandQueue::new(10);
    let (item, _rx) = item(Command::Ping, 1);

    queue.send(item).unwrap();
    let received = queue.recv().unwrap();
    assert_eq!(received.request_id, 1);
}

#[test]
fn test_queue_mpmc() {
    let queue = CommandQueue::new(100);
    for i in 0..4u64 {
        for j in 0..25u64 {
            let (item, _rx) = item(Command::Get { key: format!("key-{}-{}", i, j).into_bytes() }, i * 25 + j);
            queue.clone().send(item).unwrap();
        }
    }
    assert_eq!(queue.len(), 100);
    assert!(queue.is_full());
    let mut total = 0;
    while queue.try_recv().is_ok() {
        total += 1;
    }
    assert_eq!(total, 100);
    assert!(queue.is_empty());
    assert_eq!(queue.capacity(), 100);
    assert!(matches!(queue.try_recv(), Err(Idle::Empty)));
}

#[test]
fn a_full_queue_gives_the_item_back() {
    let queue = CommandQueue::new(1);
    let (first, _rx1) = item(Command::Ping, 1);
    let (second, _rx2) = item(Command::Del { key: b"k".to_vec() }, 2);
    assert!(queue.try_send(first).is_ok());
    match queue.try_send(second) {
        Err(Rejected::Full(back)) => {
            assert_eq!(back.request_id, 2);
            assert_eq!(back.command, Command::Del { key: b"k".to_vec() });
        }
        other => panic!("{:?}", other),
    }
    assert_eq!(CommandQueue::new(0).capacity(), 0);
    assert_eq!(CommandQueue::new(12345).capacity(), 12345);
}

#[test]
fn a_saturated_queue_answers_queue_full_at_once() {
    let handler = ConcurrentHandler::new(CommandQueue::new(1), CommandQueue::new(1));
    let set = |id: u64| Command::SetKey { key: vec![id as u8], value: vec![], ttl: None };
    let (a, _ra) = item(set(1), 1);
    let (b, _rb) = item(set(2), 2);
    let (c, _rc) = item(set(3), 3);
    assert!(matches!(handler.submit(a), Submitted::Queued(Pool::Kv)));
    let mut refused = 0;
    for (work, id) in [(b, 2u64), (c, 3u64)] {
        match handler.submit(work) {
            Submitted::Refused(frame) => {
                refused += 1;
                assert_eq!(frame.header.request_id, id);
                assert_eq!(frame.header.opcode, OpCode::Error);
                let text = String::from_utf8(frame.payload).unwrap();
                assert!(text.contains("queue full"));
            }
            Submitted::Queued(_) => panic!("the queue has room for one"),
        }
    }
    assert_eq!(refused, 2);
    // the vector queue is another queue: it still has room
    let (v, _rv) = item(Command::VSearch { vector: vec![], k: 1 }, 4);
    assert!(matches!(handler.submit(v), Submitted::Queued(Pool::Vector)));
    assert_eq!(ConcurrentHandler::queue_full_frame(5).payload, b"queue full".to_vec());
}

#[test]
fn results_travel_back_to_the_connection() {
    let mut store = ConcurrentStore::new();
    let mut cache = SemanticCache::with_defaults();
    let (set, mut rx) = item(Command::SetKey { key: b"k".to_vec(), value: b"v".to_vec(), ttl: None }, 1);
    assert!(WorkerPool::process(&mut store, &mut cache, set, 0, &vec![]));
    let result = rx.try_recv().unwrap();
    assert!(matches!(result, WorkResult::Okay));
    assert_eq!(store.get_at(&b"k".to_vec(), 0), Some(b"v".to_vec()));
    let frame = ConcurrentHandler::result_frame(1, Some(result));
    assert_eq!(frame.header.opcode, OpCode::Okay);
    assert_eq!(frame.header.request_id, 1);
    // a connection that went away: the work is done, the result is dropped
    let (del, rx) = item(Command::Del { key: b"k".to_vec() }, 2);
    drop(rx);
    assert!(!WorkerPool::process(&mut store, &mut cache, del, 0, &vec![]));
    assert!(store.is_empty());
    // a worker that went away
    let lost = ConcurrentHandler::result_frame(3, None);
    assert_eq!(Response::from_frame(&lost), Ok(Response::Error("worker error".to_string())));
    let value = ConcurrentHandler::result_frame(4, Some(WorkResult::Array(vec![b"a".to_vec()])));
    assert_eq!(Response::from_frame(&value), Ok(Response::Array(vec![b"a".to_vec()])));
    assert_eq!(WorkResult::from_response(Response::Integer(4)).into_response(), Response::Integer(4));
    assert_eq!(WorkResult::Value(vec![1]).into_response(), Response::Value(vec![1]));
    assert_eq!(WorkResult::Nil.into_response(), Response::Nil);
    assert_eq!(WorkResult::Error("e".to_string()).into_response(), Response::Error("e".to_string()));
}

#[test]
fn pool_sizes_and_pinning() {
    let config = Config::default();
    assert_eq!(config.bind, "0.0.0.0");
    assert_eq!(config.port, 6380);
    assert_eq!(config.kv_worker_count(8), 8);
    assert_eq!(config.vector_worker_count(), 4);
    let config = config.with_port(7000).with_bind("127.0.0.1").with_ttl_interval(3);
    assert_eq!(config.port, 7000);
    assert_eq!(config.bind, "127.0.0.1");
    assert_eq!(config.ttl_cleaner_interval, 3);
    let mut sized = config.clone();
    sized.kv_workers = 2;
    sized.vector_workers = 0;
    assert_eq!(sized.kv_worker_count(8), 2);
    assert_eq!(sized.vector_worker_count(), 4);

    let server = ConcurrentServer::with_worker_config(
        sized,
        WorkerPoolConfig { num_workers: 0, pin_to_cores: true, queue_capacity: 77 },
    );
    let kv = server.kv_pool_config(8);
    assert_eq!(kv, WorkerPoolConfig { num_workers: 2, pin_to_cores: true, queue_capacity: 77 });
    let vector = server.vector_pool_config();
    assert_eq!(vector, WorkerPoolConfig { num_workers: 4, pin_to_cores: false, queue_capacity: 77 });
    assert_eq!(server.store().len(), 0);
    assert_eq!(server.config().port, 7000);
    assert_eq!(kv.core_for(1, 2), Some(1));
    assert_eq!(kv.core_for(2, 2), None);
    assert_eq!(vector.core_for(0, 2), None);
    assert_eq!(kv.worker_count(16), 2);
    assert_eq!(WorkerPoolConfig { num_workers: 0, ..kv }.worker_count(16), 16);

    let mut pool = WorkerPool::new(vector);
    assert_eq!(pool.num_workers(), 0);
    assert_eq!(pool.start(8), 4);
    assert_eq!(pool.num_workers(), 4);
    assert_eq!(pool.queue().capacity(), 77);
    let defaults = WorkerPoolConfig::default();
    assert!(defaults.pin_to_cores);
    assert_eq!(defaults.queue_capacity, 10000);
    assert!(defaults.num_workers >= 1);

    let single = Server::new(Config::default());
    assert_eq!(single.listen_address(), "0.0.0.0:6380");
    assert_eq!(ConcurrentServer::new(Config::default()).config().vector_workers, 4);
}

#[test]
fn test_buffer_pool() {
    let pool = BufferPool::new(10, 1024);

    let mut buffers: Vec<_> = (0..10).map(|_| pool.get()).collect();
    assert!(pool.is_empty());

    let extra = pool.get();
    assert_eq!(extra.capacity(), 1024);

    for buf in buffers.drain(..) {
        pool.put(buf);
    }
    pool.put(extra);

    assert_eq!(pool.len(), 10);
}

#[test]
fn test_buffer_reuse() {
    let pool = BufferPool::new(1, 1024);

    let mut buf = pool.get();
    buf.extend_from_slice(b"test data");
    assert!(!buf.is_empty());

    pool.put(buf);

    let buf2 = pool.get();
    assert!(buf2.is_empty());
}

#[test]
fn buffer_pool_defaults() {
    let pool = BufferPool::with_defaults();
    assert_eq!(pool.len(), 1024);
    assert_eq!(pool.buffer_size(), 4096);
    assert!(pool.put(Vec::new()) == false);
    let one = pool.get();
    assert!(one.is_empty());
    assert!(pool.put(one));
}

#[test]
fn a_sent_item_is_received_by_any_handle_of_the_queue() {
    let queue = CommandQueue::new(2);
    let (first, _r1) = item(Command::Ping, 1);
    let (second, _r2) = item(Command::Get { key: b"k".to_vec() }, 2);
    assert!(queue.send(first).is_ok());
    assert!(queue.send_timeout(second, 50).is_ok());
    assert_eq!(queue.len(), 2);
    assert!(queue.is_full());

    // no room: the item comes back when the time is over
    let (third, _r3) = item(Command::Del { key: b"d".to_vec() }, 3);
    match queue.send_timeout(third, 10) {
        Err(Unsent::Timeout(back)) => {
            assert_eq!(back.request_id, 3);
            assert_eq!(back.command, Command::Del { key: b"d".to_vec() });
        }
        other => panic!("{:?}", other),
    }

    let receiver = queue.receiver();
    assert_eq!(receiver.try_recv().unwrap().request_id, 1);
    let other = queue.clone();
    assert_eq!(other.recv().unwrap().request_id, 2);
    assert!(queue.is_empty());

    let sender = queue.sender();
    let (fourth, _r4) = item(Command::Ping, 4);
    assert!(sender.try_send(fourth).is_ok());
    assert_eq!(queue.try_recv().unwrap().request_id, 4);
}

#[test]
fn a_worker_stops_when_every_sender_is_gone() {
    let queue = CommandQueue::new(1);
    let receiver = queue.receiver();
    let (work, _rx) = item(Command::Ping, 7);
    assert!(queue.send(work).is_ok());
    drop(queue);
    assert_eq!(receiver.recv().unwrap().request_id, 7);
    assert!(receiver.recv().is_err());
}

#[test]
fn a_command_travels_under_its_opcode() {
    assert_eq!(Command::Ping.opcode(), OpCode::Ping);
    assert_eq!(Command::Get { key: vec![1] }.opcode(), OpCode::Get);
    assert_eq!(Command::SetKey { key: vec![1], value: vec![], ttl: None }.opcode(), OpCode::SetKey);
    assert_eq!(Command::Del { key: vec![1] }.opcode(), OpCode::Del);
    assert_eq!(Command::Exists { key: vec![1] }.opcode(), OpCode::Exists);
    assert_eq!(Command::VAdd { key: vec![1], vector: vec![] }.opcode(), OpCode::VAdd);
    assert_eq!(Command::VSearch { vector: vec![], k: 3 }.opcode(), OpCode::VSearch);
    assert_eq!(Command::SetKey { key: vec![1], value: vec![], ttl: None }.opcode().name(), "Set");
}

#[test]
fn the_server_records_what_it_answered() {
    let mut server = Server::new(Config::default());
    assert_eq!(server.metrics().total_ops(), 0);
    server.record(OpCode::Get, 100);
    server.record(OpCode::Get, 300);
    server.record(OpCode::SetKey, 200);
    assert_eq!(server.metrics().total_ops(), 3);
    assert_eq!(server.metrics().ops_of("Get"), 2);
    assert_eq!(server.metrics().ops_of("Set"), 1);
    assert_eq!(server.metrics().ops_of("Del"), 0);
    assert_eq!(server.metrics().min_latency_us(), 100);
    assert_eq!(server.metrics().max_latency_us(), 300);
    assert_eq!(server.metrics().latency_sum_us(), 600);
    assert_eq!(server.metrics().latency_count(), 3);
    assert_eq!(server.metrics().avg_latency_tenths(), 2000);
}

#[test]
fn the_handler_sweeps_what_has_expired() {
    let mut server = Server::new(Config::default());
    let h = server.handler();
    let set = |k: &[u8], ttl: Option<u64>| Command::SetKey { key: k.to_vec(), value: b"v".to_vec(), ttl };
    h.execute(set(b"short", Some(1)), 0, &vec![]);
    h.execute(set(b"long", Some(10)), 0, &vec![]);
    h.execute(set(b"forever", None), 0, &vec![]);
    assert_eq!(h.sweep_at(SECOND), 0);
    assert_eq!(h.sweep_at(SECOND + 1), 1);
    assert_eq!(h.execute(Command::Del { key: b"short".to_vec() }, 0, &vec![]), Response::Integer(0));
    assert_eq!(h.sweep_at(11 * SECOND), 1);
    assert_eq!(h.sweep_at(u64::MAX), 0);
    assert_eq!(h.execute(Command::Get { key: b"forever".to_vec() }, u64::MAX, &vec![]), Response::Value(b"v".to_vec()));
}

#[test]
fn the_parts_of_a_concurrent_server_start_empty() {
    let server = ConcurrentServer::with_worker_config(
        Config::default(),
        WorkerPoolConfig { num_workers: 2, pin_to_cores: false, queue_capacity: 8 },
    );
    assert_eq!(server.metrics().total_ops(), 0);
    let (mut store, mut cache, mut metrics) = server.into_parts();
    assert!(store.is_empty());
    assert!(cache.is_empty());
    let (work, mut rx) = item(Command::SetKey { key: b"k".to_vec(), value: b"v".to_vec(), ttl: None }, 1);
    let opcode = work.command.opcode();
    assert!(WorkerPool::process(&mut store, &mut cache, work, 0, &vec![]));
    metrics.record_operation(opcode.name(), 5);
    assert!(matches!(rx.try_recv().unwrap(), WorkResult::Okay));
    assert_eq!(store.len(), 1);
    assert_eq!(metrics.ops_of("Set"), 1);
}

#[test]
fn vadd_stores_the_key_as_the_value() {
    let mut store = ConcurrentStore::new();
    let mut cache = SemanticCache::new(SemanticCacheConfig::default().with_dimension(2));
    let add = |k: &[u8], v: &[f32]| Command::VAdd { key: k.to_vec(), vector: bits(v) };
    assert_eq!(execute_concurrent(&mut store, &mut cache, add(b"q1", &[1.0, 0.0]), 7, &vec![]), Response::Okay);
    assert_eq!(execute_concurrent(&mut store, &mut cache, add(b"q2", &[0.0, 1.0]), 8, &vec![]), Response::Okay);
    assert_eq!(execute_concurrent(&mut store, &mut cache, add(b"q1", &[1.0, 1.0]), 9, &vec![]), Response::Okay);
    assert!(store.is_empty());
    assert_eq!(cache.len(), 2);
    assert_eq!(cache.vectors(), vec![bits(&[1.0, 1.0]), bits(&[0.0, 1.0])]);
    let found = cache.get(&b"q1".to_vec()).unwrap();
    assert_eq!(found.value, Some(b"q1".to_vec()));
    assert_eq!(found.metadata, None);
    // a vector of another dimension is refused and changes nothing
    assert_eq!(
        execute_concurrent(&mut store, &mut cache, add(b"q3", &[1.0]), 10, &vec![]),
        Response::Error("Dimension mismatch: expected 2, got 1".to_string())
    );
    assert_eq!(cache.len(), 2);
    assert_eq!(
        execute_concurrent(
            &mut store,
            &mut cache,
            Command::VSearch { vector: bits(&[1.0, 0.0, 0.0]), k: 5 },
            11,
            &vec![0, 0]
        ),
        Response::Error("Dimension mismatch: expected 2, got 3".to_string())
    );
}

#[test]
fn a_connection_answers_at_once_what_it_cannot_queue() {
    let kv = CommandQueue::new(1);
    let vector = CommandQueue::new(1);
    let handler = ConcurrentHandler::new(kv.clone(), vector.clone());

    // a frame that carries a command goes to the queue of its pool
    let (tx, _rx) = tokio::sync::oneshot::channel();
    let set = request(Command::SetKey { key: b"k".to_vec(), value: b"v".to_vec(), ttl: None }, 41);
    assert!(matches!(handler.dispatch(&set, tx), Submitted::Queued(Pool::Kv)));
    assert_eq!(kv.len(), 1);
    assert_eq!(vector.len(), 0);
    let queued = kv.try_recv().unwrap();
    assert_eq!(queued.request_id, 41);
    assert_eq!(queued.command, Command::SetKey { key: b"k".to_vec(), value: b"v".to_vec(), ttl: None });

    let (tx, _rx) = tokio::sync::oneshot::channel();
    let search = request(Command::VSearch { vector: vec![1], k: 2 }, 42);
    assert!(matches!(handler.dispatch(&search, tx), Submitted::Queued(Pool::Vector)));
    assert_eq!(vector.try_recv().unwrap().request_id, 42);

    // a frame that carries no command is answered with the reading error
    let (tx, _rx) = tokio::sync::oneshot::channel();
    let broken = Frame::new(OpCode::Get, 43, vec![0, 0, 0, 9, b'k']);
    match handler.dispatch(&broken, tx) {
        Submitted::Refused(reply) => {
            assert_eq!(reply.header.request_id, 43);
            assert_eq!(reply.header.opcode, OpCode::Error);
            assert_eq!(reply.payload, b"Not enough data for payload".to_vec());
        }
        Submitted::Queued(_) => panic!("a broken frame is no work"),
    }
    let (tx, _rx) = tokio::sync::oneshot::channel();
    match handler.dispatch(&Frame::new(OpCode::MGet, 44, vec![]), tx) {
        Submitted::Refused(reply) => {
            assert_eq!(reply.header.request_id, 44);
            assert_eq!(reply.payload, b"Unexpected opcode for command: MGet".to_vec());
        }
        Submitted::Queued(_) => panic!("the extended family is not executed"),
    }
    assert!(kv.is_empty() && vector.is_empty());

    // a full queue answers at once
    let (tx, _rx) = tokio::sync::oneshot::channel();
    assert!(matches!(handler.dispatch(&request(Command::Ping, 45), tx), Submitted::Queued(Pool::Kv)));
    let (tx, _rx) = tokio::sync::oneshot::channel();
    match handler.dispatch(&request(Command::Ping, 46), tx) {
        Submitted::Refused(reply) => {
            assert_eq!(reply.header.request_id, 46);
            assert_eq!(reply.payload, b"queue full".to_vec());
        }
        Submitted::Queued(_) => panic!("the queue has room for one"),
    }
}

#[test]
fn each_pool_works_on_its_own_store() {
    let mut store = ConcurrentStore::new();
    let mut cache = SemanticCache::new(SemanticCacheConfig::default().with_dimension(1).with_threshold(key_of(0.5)));

    assert!(!vector_work(&Command::Ping));
    assert!(!vector_work(&Command::Get { key: vec![] }));
    assert!(vector_work(&Command::VAdd { key: vec![], vector: vec![] }));
    assert!(vector_work(&Command::VSearch { vector: vec![], k: 0 }));

    // key/value work
    let (set, mut rx) = item(Command::SetKey { key: b"k".to_vec(), value: b"v".to_vec(), ttl: Some(2) }, 1);
    assert!(WorkerPool::process_kv(&mut store, set, 0));
    assert!(matches!(rx.try_recv().unwrap(), WorkResult::Okay));
    let (get, mut rx) = item(Command::Get { key: b"k".to_vec() }, 2);
    assert!(WorkerPool::process_kv(&mut store, get, 2 * SECOND));
    match rx.try_recv().unwrap() {
        WorkResult::Value(v) => assert_eq!(v, b"v".to_vec()),
        other => panic!("{:?}", other),
    }
    let (late, mut rx) = item(Command::Get { key: b"k".to_vec() }, 3);
    assert!(WorkerPool::process_kv(&mut store, late, 2 * SECOND + 1));
    assert!(matches!(rx.try_recv().unwrap(), WorkResult::Nil));
    let (ping, mut rx) = item(Command::Ping, 4);
    assert!(WorkerPool::process_kv(&mut store, ping, 0));
    assert!(matches!(rx.try_recv().unwrap(), WorkResult::Pong));
    assert_eq!(execute_kv_concurrent(&mut store, Command::Exists { key: b"k".to_vec() }, 0), Response::Integer(1));
    assert_eq!(execute_kv_concurrent(&mut store, Command::Del { key: b"k".to_vec() }, 0), Response::Integer(1));
    assert_eq!(execute_kv_concurrent(&mut store, Command::Del { key: b"k".to_vec() }, 0), Response::Integer(0));

    let mut single = Store::new();
    assert_eq!(
        execute_kv(&mut single, Command::SetKey { key: b"a".to_vec(), value: b"1".to_vec(), ttl: None }, 9),
        Response::Okay
    );
    assert_eq!(execute_kv(&mut single, Command::Get { key: b"a".to_vec() }, u64::MAX), Response::Value(b"1".to_vec()));
    assert_eq!(execute_kv(&mut single, Command::Get { key: b"b".to_vec() }, 0), Response::Nil);

    // vector work
    let (add, mut rx) = item(Command::VAdd { key: b"q".to_vec(), vector: bits(&[1.0]) }, 5);
    assert!(WorkerPool::process_vector(&mut cache, add, 0, &vec![]));
    assert!(matches!(rx.try_recv().unwrap(), WorkResult::Okay));
    let (search, mut rx) = item(Command::VSearch { vector: bits(&[2.0]), k: 1 }, 6);
    let scores = scores_for(&cache.vectors(), &[2.0]);
    assert!(WorkerPool::process_vector(&mut cache, search, 0, &scores));
    match rx.try_recv().unwrap() {
        WorkResult::Array(keys) => assert_eq!(keys, vec![b"q".to_vec()]),
        other => panic!("{:?}", other),
    }
    assert_eq!(
        execute_vector(&mut cache, Command::VSearch { vector: bits(&[-1.0]), k: 1 }, 0, &vec![key_of(-1.0)]),
        Response::Array(vec![])
    );
    assert!(store.is_empty());
    assert_eq!(cache.len(), 1);
}

#[test]
fn a_request_is_queued_or_refused_as_its_queue_says() {
    let kv = CommandQueue::new(4);
    let vector = CommandQueue::new(4);
    let handler = ConcurrentHandler::new(kv.clone(), vector.clone());

    // which queue is asked
    let (first, _r1) = item(Command::Get { key: b"k".to_vec() }, 1);
    assert!(handler.queue_for(&first.command).try_send(first).is_ok());
    assert_eq!((kv.len(), vector.len()), (1, 0));
    let (second, _r2) = item(Command::VAdd { key: b"q".to_vec(), vector: vec![] }, 2);
    assert!(handler.queue_for(&second.command).try_send(second).is_ok());
    assert_eq!((kv.len(), vector.len()), (1, 1));
    assert_eq!(kv.try_recv().unwrap().request_id, 1);
    assert_eq!(vector.try_recv().unwrap().request_id, 2);

    // what follows from the answer of the queue
    assert!(matches!(ConcurrentHandler::submitted(Ok(()), Pool::Kv, 7), Submitted::Queued(Pool::Kv)));
    assert!(matches!(
        ConcurrentHandler::submitted(Ok(()), Pool::Vector, 7),
        Submitted::Queued(Pool::Vector)
    ));
    let (full, _r3) = item(Command::Ping, 8);
    match ConcurrentHandler::submitted(Err(Rejected::Full(full)), Pool::Kv, 8) {
        Submitted::Refused(frame) => {
            assert_eq!(frame.header.request_id, 8);
            assert_eq!(frame.header.opcode, OpCode::Error);
            assert_eq!(frame.payload, b"queue full".to_vec());
        }
        Submitted::Queued(_) => panic!("the queue did not take it"),
    }
    let (gone, _r4) = item(Command::Ping, 9);
    match ConcurrentHandler::submitted(Err(Rejected::Disconnected(gone)), Pool::Vector, 9) {
        Submitted::Refused(frame) => {
            assert_eq!(frame.header.request_id, 9);
            assert_eq!(frame.payload, b"queue full".to_vec());
        }
        Submitted::Queued(_) => panic!("the queue did not take it"),
    }
}

#[test]
fn a_search_is_cut_at_the_number_of_results_it_asks_for() {
    let mut store = ConcurrentStore::new();
    let mut cache = SemanticCache::new(
        SemanticCacheConfig::default().with_dimension(3).with_threshold(key_of(0.8)),
    );
    let add = |k: &[u8], v: &[f32]| Command::VAdd { key: k.to_vec(), vector: bits(v) };
    assert!(matches!(
        WorkerPool::execute_command(&mut store, &mut cache, add(b"q1", &[1.0, 0.0, 0.0]), 0, &vec![]),
        WorkResult::Okay
    ));
    assert!(matches!(
        WorkerPool::execute_command(&mut store, &mut cache, add(b"q3", &[0.9, 0.1, 0.0]), 0, &vec![]),
        WorkResult::Okay
    ));
    let query = [1.0f32, 0.0, 0.0];
    let search = |cache: &mut SemanticCache, store: &mut ConcurrentStore, k: usize| {
        let scores = scores_for(&cache.vectors(), &query);
        WorkerPool::execute_command(store, cache, Command::VSearch { vector: bits(&query), k }, 0, &scores)
    };
    // one result asked for: the most similar, and no more
    match search(&mut cache, &mut store, 1) {
        WorkResult::Array(keys) => assert_eq!(keys, vec![b"q1".to_vec()]),
        other => panic!("{:?}", other),
    }
    match search(&mut cache, &mut store, 2) {
        WorkResult::Array(keys) => assert_eq!(keys, vec![b"q1".to_vec(), b"q3".to_vec()]),
        other => panic!("{:?}", other),
    }
    // more asked for than there are: all that reach the threshold, also
    // beyond the number that the cache's own lookups are cut at
    match search(&mut cache, &mut store, 10) {
        WorkResult::Array(keys) => assert_eq!(keys.len(), 2),
        other => panic!("{:?}", other),
    }
    match search(&mut cache, &mut store, 0) {
        WorkResult::Array(keys) => assert!(keys.is_empty()),
        other => panic!("{:?}", other),
    }
    // a query of another dimension is refused whatever the scores are
    assert_eq!(
        execute_vector(&mut cache, Command::VSearch { vector: bits(&[1.0]), k: 1 }, 0, &vec![]),
        Response::Error("Dimension mismatch: expected 3, got 1".to_string())
    );
    let mut h = Handler::new(Store::new(), cache);
    let scores = scores_for(&h.vectors(), &query);
    assert_eq!(
        h.execute(Command::VSearch { vector: bits(&query), k: 1 }, 0, &scores),
        Response::Array(vec![b"q1".to_vec()])
    );
}

#[test]
fn the_configured_payload_limit_reaches_the_codec() {
    let config = Config::default();
    assert_eq!(config.max_payload, u32::MAX);
    let limited = config.with_max_payload(4).with_port(1);
    assert_eq!(limited.max_payload, 4);
    let mut codec = limited.codec();
    let mut wire: Vec<u8> = Vec::new();
    Frame::new(OpCode::Value, 1, b"12345".to_vec()).encode(&mut wire);
    assert_eq!(codec.decode(&mut wire), Err(ProtocolError::PayloadTooLarge(5)));
    let mut wire: Vec<u8> = Vec::new();
    Frame::new(OpCode::Value, 2, b"1234".to_vec()).encode(&mut wire);
    assert_eq!(codec.decode(&mut wire).unwrap().unwrap().payload, b"1234".to_vec());
    let mut open = Config::default().codec();
    let mut wire: Vec<u8> = Vec::new();
    Frame::new(OpCode::Value, 3, vec![7; 100_000]).encode(&mut wire);
    assert_eq!(open.decode(&mut wire).unwrap().unwrap().payload.len(), 100_000);
}
