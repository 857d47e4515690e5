//! Buffer pool: byte buffers that are handed out empty and taken back for
//! reuse, so that the hot path allocates little.
//!
//! The pool is shared between threads, so how many buffers it holds at a
//! given moment is not known beforehand.

use vstd::prelude::*;

verus! {

#[verifier::external_type_specification]
#[verifier::external_body]
#[verifier::reject_recursive_types(T)]
pub struct ExArrayQueue<T>(crossbeam::queue::ArrayQueue<T>);

/// The default size of a buffer.
pub const DEFAULT_BUFFER_SIZE: usize = 4096;

/// The default number of buffers.
pub const DEFAULT_POOL_CAPACITY: usize = 1024;

/// The greatest number of buffers that a pool can be made for: beyond it
/// the slots of the queue, one buffer and a counter each, do not fit the
/// address space.
pub const MAX_POOL_CAPACITY: usize = usize::MAX / 64;

/// `ArrayQueue::new` of crossbeam: an empty queue with room for `capacity`
/// elements. The crate panics where the capacity is zero or too large for
/// it to lay the queue out, so those are left out. Nothing is claimed of
/// the queue.
#[verifier::external_body]
fn slots_new(capacity: usize) -> (q: crossbeam::queue::ArrayQueue<Vec<u8>>)
    requires
        0 < capacity <= MAX_POOL_CAPACITY,
{
    crossbeam::queue::ArrayQueue::new(capacity)
}

/// `ArrayQueue::push` of crossbeam: puts the buffer into the queue, or
/// gives it back unchanged where the queue is full.
#[verifier::external_body]
fn slots_push(q: &crossbeam::queue::ArrayQueue<Vec<u8>>, buf: Vec<u8>) -> (r: Result<(), Vec<u8>>)
    ensures
        r matches Err(back) ==> back == buf,
{
    q.push(buf)
}

/// `ArrayQueue::pop` of crossbeam: takes a buffer out of the queue, if it
/// holds one. Nothing is claimed of the buffer.
#[verifier::external_body]
fn slots_pop(q: &crossbeam::queue::ArrayQueue<Vec<u8>>) -> (r: Option<Vec<u8>>) {
    q.pop()
}

/// `ArrayQueue::len` of crossbeam: the number of buffers in the queue at
/// some moment of the call. Nothing is claimed of it.
#[verifier::external_body]
fn slots_len(q: &crossbeam::queue::ArrayQueue<Vec<u8>>) -> (n: usize) {
    q.len()
}

/// `ArrayQueue::is_empty` of crossbeam. Nothing is claimed of it.
#[verifier::external_body]
fn slots_is_empty(q: &crossbeam::queue::ArrayQueue<Vec<u8>>) -> (empty: bool) {
    q.is_empty()
}

/// Pool of byte buffers.
pub struct BufferPool {
    pool: crossbeam::queue::ArrayQueue<Vec<u8>>,
    buffer_size: usize,
}

impl BufferPool {
    /// The size that new buffers are allocated with.
    pub closed spec fn spec_buffer_size(&self) -> usize {
        self.buffer_size
    }

    /// A pool of `capacity` buffers of `buffer_size` bytes each.
    pub fn new(capacity: usize, buffer_size: usize) -> (p: BufferPool)
        requires
            0 < capacity <= MAX_POOL_CAPACITY,
        ensures
            p.spec_buffer_size() == buffer_size,
    {
        let pool = slots_new(capacity);
        let mut i: usize = 0;
        while i < capacity
            invariant
                i <= capacity,
            decreases capacity - i,
        {
            let buf: Vec<u8> = Vec::with_capacity(buffer_size);
            let _ = slots_push(&pool, buf);
            i += 1;
        }
        BufferPool { pool, buffer_size }
    }

    /// A pool of 1024 buffers of 4096 bytes each.
    pub fn with_defaults() -> (p: BufferPool)
        ensures
            p.spec_buffer_size() == DEFAULT_BUFFER_SIZE,
    {
        BufferPool::new(DEFAULT_POOL_CAPACITY, DEFAULT_BUFFER_SIZE)
    }

    /// An empty buffer: one of the pool, or a new one where the pool has
    /// none.
    pub fn get(&self) -> (buf: Vec<u8>)
        ensures
            buf@.len() == 0,
    {
        match slots_pop(&self.pool) {
            Some(mut buf) => {
                buf.clear();
                buf
            },
            None => Vec::with_capacity(self.buffer_size),
        }
    }

    /// Takes a buffer back: it is emptied, and kept where the pool has
    /// room. Returns whether it was kept, which depends on what other
    /// threads have put into the pool and taken out of it.
    pub fn put(&self, buf: Vec<u8>) -> (kept: bool) {
        let mut buf = buf;
        buf.clear();
        slots_push(&self.pool, buf).is_ok()
    }

    /// The number of buffers in the pool, as of some moment of the call.
    pub fn len(&self) -> usize {
        slots_len(&self.pool)
    }

    /// Whether the pool was empty at some moment of the call.
    pub fn is_empty(&self) -> bool {
        slots_is_empty(&self.pool)
    }

    /// The size that new buffers are allocated with.
    pub fn buffer_size(&self) -> (n: usize)
        ensures
            n == self.spec_buffer_size(),
    {
        self.buffer_size
    }
}

} // verus!
