//! Command queue: the bounded channel that carries work from the
//! connections to the workers, and the single-shot channel that carries
//! each result back.
//!
//! Both ends of the queue are shared between threads, so what a call finds
//! in it is not known beforehand: every outcome is handled.

use vstd::prelude::*;
use crate::protocol::command::Command;

verus! {

#[verifier::external_type_specification]
#[verifier::external_body]
#[verifier::reject_recursive_types(T)]
pub struct ExSender<T>(crossbeam::channel::Sender<T>);

#[verifier::external_type_specification]
#[verifier::external_body]
#[verifier::reject_recursive_types(T)]
pub struct ExReceiver<T>(crossbeam::channel::Receiver<T>);

#[verifier::external_type_specification]
#[verifier::external_body]
#[verifier::reject_recursive_types(T)]
pub struct ExReplySender<T>(tokio::sync::oneshot::Sender<T>);

/// What a worker hands back for a command.
#[derive(Debug)]
pub enum WorkResult {
    /// The command was carried out.
    Okay,
    /// The value of a key.
    Value(Vec<u8>),
    /// A number.
    Integer(i64),
    /// There is no such key.
    Nil,
    /// The command failed, and why.
    Error(String),
    /// The answer to a ping.
    Pong,
    /// A list of byte strings.
    Array(Vec<Vec<u8>>),
}

/// A command on its way to a worker, with the channel for its result.
#[derive(Debug)]
pub struct WorkItem {
    /// The command to execute.
    pub command: Command,
    /// The request identifier, echoed on the response.
    pub request_id: u64,
    /// Where the worker sends the result.
    pub response_tx: tokio::sync::oneshot::Sender<WorkResult>,
}

/// Why the queue did not take an item; the item comes back.
#[derive(Debug)]
pub enum Rejected {
    /// The queue holds as many items as it has room for.
    Full(WorkItem),
    /// Every receiver is gone.
    Disconnected(WorkItem),
}

/// Why an item was not sent in time; the item comes back.
#[derive(Debug)]
pub enum Unsent {
    /// The queue had no room before the time was over.
    Timeout(WorkItem),
    /// Every receiver is gone.
    Disconnected(WorkItem),
}

/// Why the queue gave no item.
#[derive(Debug, Clone, Copy, PartialEq, Eq, Structural)]
pub enum Idle {
    /// The queue holds no item.
    Empty,
    /// The queue holds no item and every sender is gone.
    Disconnected,
}

/// The greatest capacity that a queue can be made with: beyond it the
/// slots of the channel, one work item and a counter each, do not fit
/// the address space.
pub const MAX_QUEUE_CAPACITY: usize = usize::MAX / 256;

/// `bounded` of crossbeam's channel module: a channel with room for
/// `capacity` messages. The crate panics where the capacity is too large
/// for it to lay the channel out, so large capacities are left out.
/// Nothing is claimed of the two ends.
#[verifier::external_body]
fn channel_bounded(capacity: usize) -> (ends: (
    crossbeam::channel::Sender<WorkItem>,
    crossbeam::channel::Receiver<WorkItem>,
))
    requires
        capacity <= MAX_QUEUE_CAPACITY,
{
    crossbeam::channel::bounded(capacity)
}

/// `Sender::try_send` of crossbeam: sends at once or fails; on failure the
/// item comes back unchanged. Which of the outcomes occurs depends on what
/// other threads have done.
#[verifier::external_body]
fn channel_try_send(sender: &crossbeam::channel::Sender<WorkItem>, item: WorkItem) -> (r: Result<
    (),
    Rejected,
>)
    ensures
        r matches Err(Rejected::Full(back)) ==> back == item,
        r matches Err(Rejected::Disconnected(back)) ==> back == item,
{
    match sender.try_send(item) {
        Ok(()) => Ok(()),
        Err(crossbeam::channel::TrySendError::Full(back)) => Err(Rejected::Full(back)),
        Err(crossbeam::channel::TrySendError::Disconnected(back)) => Err(
            Rejected::Disconnected(back),
        ),
    }
}

/// `Sender::send` of crossbeam: waits for room and sends; once every
/// receiver is gone it fails, and the item comes back unchanged.
#[verifier::external_body]
fn channel_send(sender: &crossbeam::channel::Sender<WorkItem>, item: WorkItem) -> (r: Result<
    (),
    WorkItem,
>)
    ensures
        r matches Err(back) ==> back == item,
{
    sender.send(item).map_err(|e| e.0)
}

/// `Sender::send_timeout` of crossbeam, with the time in milliseconds:
/// waits for room, for no longer than the time, and sends; on failure the
/// item comes back unchanged.
#[verifier::external_body]
fn channel_send_timeout(
    sender: &crossbeam::channel::Sender<WorkItem>,
    item: WorkItem,
    timeout_ms: u64,
) -> (r: Result<(), Unsent>)
    ensures
        r matches Err(Unsent::Timeout(back)) ==> back == item,
        r matches Err(Unsent::Disconnected(back)) ==> back == item,
{
    match sender.send_timeout(item, std::time::Duration::from_millis(timeout_ms)) {
        Ok(()) => Ok(()),
        Err(crossbeam::channel::SendTimeoutError::Timeout(back)) => Err(Unsent::Timeout(back)),
        Err(crossbeam::channel::SendTimeoutError::Disconnected(back)) => Err(
            Unsent::Disconnected(back),
        ),
    }
}

/// `Receiver::try_recv` of crossbeam: takes an item at once or fails.
/// Nothing is claimed of the outcome.
#[verifier::external_body]
fn channel_try_recv(receiver: &crossbeam::channel::Receiver<WorkItem>) -> (r: Result<
    WorkItem,
    Idle,
>) {
    match receiver.try_recv() {
        Ok(item) => Ok(item),
        Err(crossbeam::channel::TryRecvError::Empty) => Err(Idle::Empty),
        Err(crossbeam::channel::TryRecvError::Disconnected) => Err(Idle::Disconnected),
    }
}

/// `Receiver::recv` of crossbeam: waits until an item is there and takes
/// it, or returns nothing once the queue is empty and every sender is
/// gone. Nothing is claimed of the outcome.
#[verifier::external_body]
fn channel_recv(receiver: &crossbeam::channel::Receiver<WorkItem>) -> (r: Option<WorkItem>) {
    receiver.recv().ok()
}

/// `Sender::len` of crossbeam: the number of messages in the channel at
/// some moment of the call. Nothing is claimed of it.
#[verifier::external_body]
fn channel_len(sender: &crossbeam::channel::Sender<WorkItem>) -> (n: usize) {
    sender.len()
}

/// `Sender::is_full` of crossbeam. Nothing is claimed of it.
#[verifier::external_body]
fn channel_is_full(sender: &crossbeam::channel::Sender<WorkItem>) -> (full: bool) {
    sender.is_full()
}

/// `Sender::is_empty` of crossbeam. Nothing is claimed of it.
#[verifier::external_body]
fn channel_is_empty(sender: &crossbeam::channel::Sender<WorkItem>) -> (empty: bool) {
    sender.is_empty()
}

/// `oneshot::Sender::send` of tokio: hands the result to the waiting
/// connection, or gives it back unchanged where the connection is gone.
#[verifier::external_body]
fn reply_send(tx: tokio::sync::oneshot::Sender<WorkResult>, result: WorkResult) -> (r: Result<
    (),
    WorkResult,
>)
    ensures
        r matches Err(back) ==> back == result,
{
    tx.send(result)
}

/// `Sender::clone` of crossbeam: another handle on the sending side of
/// the same channel. Nothing is claimed of it.
#[verifier::external_body]
fn sender_clone(sender: &crossbeam::channel::Sender<WorkItem>) -> (s: crossbeam::channel::Sender<
    WorkItem,
>) {
    sender.clone()
}

/// `Receiver::clone` of crossbeam: another handle on the receiving side
/// of the same channel. Nothing is claimed of it.
#[verifier::external_body]
fn receiver_clone(receiver: &crossbeam::channel::Receiver<WorkItem>) -> (r:
    crossbeam::channel::Receiver<WorkItem>) {
    receiver.clone()
}

/// Bounded multi-producer, multi-consumer queue of work items. A clone
/// is another handle on the same queue.
pub struct CommandQueue {
    sender: crossbeam::channel::Sender<WorkItem>,
    receiver: crossbeam::channel::Receiver<WorkItem>,
    capacity: usize,
}

impl CommandQueue {
    /// The capacity that this queue was made with.
    pub closed spec fn spec_capacity(&self) -> usize {
        self.capacity
    }

    /// A queue with room for `capacity` items. A capacity that no
    /// channel can be laid out for is left out.
    pub fn new(capacity: usize) -> (q: CommandQueue)
        requires
            capacity <= MAX_QUEUE_CAPACITY,
        ensures
            q.spec_capacity() == capacity,
    {
        let (sender, receiver) = channel_bounded(capacity);
        CommandQueue { sender, receiver, capacity }
    }

    /// Puts an item into the queue without waiting. Where the queue is
    /// full or has no receiver, the item comes back.
    pub fn try_send(&self, item: WorkItem) -> (r: Result<(), Rejected>)
        ensures
            r matches Err(Rejected::Full(back)) ==> back == item,
            r matches Err(Rejected::Disconnected(back)) ==> back == item,
    {
        channel_try_send(&self.sender, item)
    }

    /// Puts an item into the queue, waiting for room if need be. Once
    /// every receiver is gone, the item comes back.
    pub fn send(&self, item: WorkItem) -> (r: Result<(), WorkItem>)
        ensures
            r matches Err(back) ==> back == item,
    {
        channel_send(&self.sender, item)
    }

    /// Puts an item into the queue, waiting for room for no longer than
    /// `timeout_ms` milliseconds. Where there was no room in that time, or
    /// every receiver is gone, the item comes back.
    pub fn send_timeout(&self, item: WorkItem, timeout_ms: u64) -> (r: Result<(), Unsent>)
        ensures
            r matches Err(Unsent::Timeout(back)) ==> back == item,
            r matches Err(Unsent::Disconnected(back)) ==> back == item,
    {
        channel_send_timeout(&self.sender, item, timeout_ms)
    }

    /// Another handle on the sending side, for a producer.
    pub fn sender(&self) -> crossbeam::channel::Sender<WorkItem> {
        sender_clone(&self.sender)
    }

    /// Another handle on the receiving side, for a consumer.
    pub fn receiver(&self) -> crossbeam::channel::Receiver<WorkItem> {
        receiver_clone(&self.receiver)
    }

    /// Takes an item out of the queue without waiting.
    pub fn try_recv(&self) -> (r: Result<WorkItem, Idle>) {
        channel_try_recv(&self.receiver)
    }

    /// Takes an item out of the queue, waiting for one if need be.
    /// Returns nothing once the queue is empty and every sender is gone:
    /// this is when a worker stops.
    pub fn recv(&self) -> (r: Option<WorkItem>) {
        channel_recv(&self.receiver)
    }

    /// The number of items in the queue, as of some moment of the call.
    pub fn len(&self) -> usize {
        channel_len(&self.sender)
    }

    /// Whether the queue was empty at some moment of the call.
    pub fn is_empty(&self) -> bool {
        channel_is_empty(&self.sender)
    }

    /// Whether the queue was full at some moment of the call.
    pub fn is_full(&self) -> bool {
        channel_is_full(&self.sender)
    }

    /// The capacity of the queue.
    pub fn capacity(&self) -> (n: usize)
        ensures
            n == self.spec_capacity(),
    {
        self.capacity
    }
}

impl Clone for CommandQueue {
    fn clone(&self) -> (q: CommandQueue)
        ensures
            q.spec_capacity() == self.spec_capacity(),
    {
        CommandQueue {
            sender: sender_clone(&self.sender),
            receiver: receiver_clone(&self.receiver),
            capacity: self.capacity,
        }
    }
}

/// Sends `result` into a reply channel. Returns whether the connection
/// was still there, which depends on what the connection's task has done;
/// a result that nobody waits for is dropped.
pub fn deliver(response_tx: tokio::sync::oneshot::Sender<WorkResult>, result: WorkResult) -> (
    delivered: bool
) {
    reply_send(response_tx, result).is_ok()
}

impl WorkItem {
    /// Sends `result` to the connection that waits for this item's
    /// result. Returns whether the connection was still there.
    pub fn reply(self, result: WorkResult) -> (delivered: bool) {
        deliver(self.response_tx, result)
    }
}

} // verus!
