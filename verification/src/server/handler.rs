//! Execution of commands against the stores.
//!
//! Key/value commands read and change the key/value store; VADD and
//! VSEARCH read and change the semantic cache. A search is given the
//! similarity of each stored vector to its query, in the order of the
//! cache, by the caller that computed them.

use vstd::prelude::*;
use crate::protocol::command::{parsed_command_view, Command, CommandModel};
use crate::protocol::frame::{new_frame, Frame, FrameModel, ProtocolError};
use crate::protocol::response::{Response, ResponseModel};
use crate::storage::concurrent_store::ConcurrentStore;
use crate::storage::entry::{expired, expiry, live_entries, live_value, EntryModel};
use crate::storage::store::Store;
use crate::vector::embedding_store::{upsert, DimensionMismatch, IndexModel};
use crate::vector::ranking::{lemma_search_ordering, nearest};
use crate::vector::semantic::{
    new_entry, results_of, results_view, SemanticCache, SemanticCacheConfig, SemanticModel,
    SemanticResult,
};

verus! {

/// Whether a command is vector work.
pub open spec fn is_vector_command(cmd: CommandModel) -> bool {
    cmd is VAdd || cmd is VSearch
}

/// The answer to a key/value command on a store at `now`.
pub open spec fn kv_reply(entries: Map<Seq<u8>, EntryModel>, cmd: CommandModel, now: u64)
    -> ResponseModel {
    match cmd {
        CommandModel::Get { key } => match live_value(entries, key, now) {
            Some(v) => ResponseModel::Value(v),
            None => ResponseModel::Nil,
        },
        CommandModel::SetKey { .. } => ResponseModel::Okay,
        CommandModel::Del { key } => ResponseModel::Integer(
            if entries.contains_key(key) {
                1
            } else {
                0
            },
        ),
        CommandModel::Exists { key } => ResponseModel::Integer(
            if live_value(entries, key, now) is Some {
                1
            } else {
                0
            },
        ),
        _ => ResponseModel::Pong,
    }
}

/// The store after a key/value command at `now`.
pub open spec fn kv_after(entries: Map<Seq<u8>, EntryModel>, cmd: CommandModel, now: u64) -> Map<
    Seq<u8>,
    EntryModel,
> {
    match cmd {
        CommandModel::SetKey { key, value, ttl } => entries.insert(
            key,
            (value, expiry(now, ttl)),
        ),
        CommandModel::Del { key } => entries.remove(key),
        _ => entries,
    }
}

/// The keys of a list of results.
pub open spec fn result_keys(results: Seq<SemanticModel>) -> Seq<Seq<u8>> {
    Seq::new(results.len(), |i: int| results[i].key)
}

/// The answer to a search for `k` results on a cache, given the
/// similarities: the keys of the `k` entries nearest to the query among
/// those that reach the cache's threshold, or an error where the query
/// has not the cache's dimension.
pub open spec fn search_reply(
    index: IndexModel,
    config: SemanticCacheConfig,
    query: Seq<u32>,
    k: usize,
    scores: Seq<u32>,
) -> ResponseModel {
    if query.len() != config.dimension {
        ResponseModel::Error(
            (DimensionMismatch { expected: config.dimension, got: query.len() as usize }).text(),
        )
    } else {
        ResponseModel::Array(
            result_keys(results_of(index, nearest(scores, config.similarity_threshold, k as int))),
        )
    }
}

/// Whether the similarities are read for a command: for a search whose
/// query has the cache's dimension.
pub open spec fn reads_scores(config: SemanticCacheConfig, cmd: CommandModel) -> bool {
    cmd matches CommandModel::VSearch { vector, .. } && vector.len() == config.dimension
}

/// The answer to a VADD on a cache.
pub open spec fn add_reply(config: SemanticCacheConfig, vector: Seq<u32>) -> ResponseModel {
    if vector.len() != config.dimension {
        ResponseModel::Error(
            (DimensionMismatch { expected: config.dimension, got: vector.len() as usize }).text(),
        )
    } else {
        ResponseModel::Okay
    }
}

/// The answer to a vector command on a cache, given the similarities.
pub open spec fn vector_reply(
    index: IndexModel,
    config: SemanticCacheConfig,
    cmd: CommandModel,
    scores: Seq<u32>,
) -> ResponseModel {
    match cmd {
        CommandModel::VAdd { vector, .. } => add_reply(config, vector),
        CommandModel::VSearch { vector, k } => search_reply(index, config, vector, k, scores),
        _ => ResponseModel::Pong,
    }
}

/// The cache after a command at `now`: a VADD whose vector has the
/// cache's dimension stores it with the key as its value, in the place
/// that the key had or behind all others; nothing else changes the cache.
pub open spec fn vector_after(
    index: IndexModel,
    config: SemanticCacheConfig,
    cmd: CommandModel,
    now: u64,
) -> IndexModel {
    match cmd {
        CommandModel::VAdd { key, vector } => if vector.len() == config.dimension {
            upsert(index, key, new_entry(vector, key, None, now))
        } else {
            index
        },
        _ => index,
    }
}

/// The answer to a command: that of the cache to VADD and VSEARCH, that
/// of the key/value store to every other command.
pub open spec fn reply_to(
    entries: Map<Seq<u8>, EntryModel>,
    index: IndexModel,
    config: SemanticCacheConfig,
    cmd: CommandModel,
    now: u64,
    scores: Seq<u32>,
) -> ResponseModel {
    if is_vector_command(cmd) {
        vector_reply(index, config, cmd, scores)
    } else {
        kv_reply(entries, cmd, now)
    }
}

/// A search for `k` results is answered with no more than `k` keys: those
/// of the entries that the ranking of the similarities puts first.
pub proof fn lemma_search_cut(
    index: IndexModel,
    config: SemanticCacheConfig,
    query: Seq<u32>,
    k: usize,
    scores: Seq<u32>,
)
    requires
        query.len() == config.dimension,
    ensures
        search_reply(index, config, query, k, scores) matches ResponseModel::Array(keys)
            && keys.len() == nearest(scores, config.similarity_threshold, k as int).len()
            && keys.len() <= k,
{
    lemma_search_ordering(scores, config.similarity_threshold, k as int);
}

/// A vector of the wrong dimension is refused and changes nothing: a VADD
/// of it is answered with an error and leaves the cache as it was, and a
/// VSEARCH with it is answered with an error.
pub proof fn lemma_dimension_safety(
    index: IndexModel,
    config: SemanticCacheConfig,
    key: Seq<u8>,
    vector: Seq<u32>,
    k: usize,
    now: u64,
    scores: Seq<u32>,
)
    requires
        vector.len() != config.dimension,
    ensures
        vector_reply(index, config, CommandModel::VAdd { key, vector }, scores) is Error,
        vector_after(index, config, CommandModel::VAdd { key, vector }, now) == index,
        vector_reply(index, config, CommandModel::VSearch { vector, k }, scores) is Error,
        vector_after(index, config, CommandModel::VSearch { vector, k }, now) == index,
{
}

/// Deleting a key that is there answers 1, and a question for the key
/// that follows answers 0; deleting a key that is not there answers 0.
pub proof fn lemma_del_semantics(
    entries: Map<Seq<u8>, EntryModel>,
    key: Seq<u8>,
    now: u64,
    later: u64,
)
    ensures
        entries.contains_key(key) ==> kv_reply(entries, CommandModel::Del { key }, now)
            == ResponseModel::Integer(1),
        !entries.contains_key(key) ==> kv_reply(entries, CommandModel::Del { key }, now)
            == ResponseModel::Integer(0),
        kv_reply(
            kv_after(entries, CommandModel::Del { key }, now),
            CommandModel::Exists { key },
            later,
        ) == ResponseModel::Integer(0),
        kv_reply(
            kv_after(entries, CommandModel::Del { key }, now),
            CommandModel::Del { key },
            later,
        ) == ResponseModel::Integer(0),
{
}

/// What was set is got until its time to live is over, and not after.
pub proof fn lemma_set_then_get(
    entries: Map<Seq<u8>, EntryModel>,
    key: Seq<u8>,
    value: Seq<u8>,
    ttl: Option<u64>,
    now: u64,
    later: u64,
)
    ensures
        ({
            let set = CommandModel::SetKey { key, value, ttl };
            let got = kv_reply(kv_after(entries, set, now), CommandModel::Get { key }, later);
            &&& kv_reply(entries, set, now) == ResponseModel::Okay
            &&& expired(expiry(now, ttl), later) ==> got == ResponseModel::Nil
            &&& !expired(expiry(now, ttl), later) ==> got == ResponseModel::Value(value)
        }),
{
}

fn search_keys(results: Vec<SemanticResult>) -> (keys: Vec<Vec<u8>>)
    ensures
        crate::protocol::payload::byte_strings(keys@) == result_keys(results_view(results@)),
{
    let mut keys: Vec<Vec<u8>> = Vec::new();
    let mut i: usize = 0;
    while i < results.len()
        invariant
            i <= results@.len(),
            keys@.len() == i,
            forall|j: int| 0 <= j < i ==> (#[trigger] keys@[j])@ == results@[j].key@,
        decreases results@.len() - i,
    {
        keys.push(results[i].key.clone());
        i += 1;
    }
    assert(crate::protocol::payload::byte_strings(keys@) =~= result_keys(
        results_view(results@),
    ));
    keys
}

/// Executes VADD or VSEARCH against the cache at `now`.
pub fn execute_vector(cache: &mut SemanticCache, cmd: Command, now: u64, scores: &Vec<u32>) -> (r:
    Response)
    requires
        old(cache).wf(),
        is_vector_command(cmd@),
        reads_scores(old(cache).spec_config(), cmd@) ==> scores@.len() == old(cache)@.len(),
    ensures
        final(cache).wf(),
        final(cache).spec_config() == old(cache).spec_config(),
        r@ == vector_reply(old(cache)@, old(cache).spec_config(), cmd@, scores@),
        final(cache)@ == vector_after(old(cache)@, old(cache).spec_config(), cmd@, now),
{
    match cmd {
        Command::VAdd { key, vector } => {
            let value = key.clone();
            match cache.set_at(key, vector, value, None, now) {
                Ok(()) => Response::Okay,
                Err(e) => Response::Error(e.message()),
            }
        },
        Command::VSearch { vector, k } => {
            match cache.search(&vector, scores, k) {
                Ok(results) => Response::Array(search_keys(results)),
                Err(e) => Response::Error(e.message()),
            }
        },
        _ => Response::Pong,
    }
}

/// Whether a command is vector work.
pub fn vector_work(cmd: &Command) -> (r: bool)
    ensures
        r == is_vector_command(cmd@),
{
    match cmd {
        Command::VAdd { .. } => true,
        Command::VSearch { .. } => true,
        _ => false,
    }
}

/// Executes a key/value command against a single-table store at `now`.
///
/// PING answers PONG. GET answers the value, or NIL where the key is
/// absent or expired. SET stores and answers OK. DEL answers 1 where an
/// entry was there and 0 where none was; EXISTS answers 1 where a live
/// entry is there.
pub fn execute_kv(store: &mut Store, cmd: Command, now: u64) -> (r: Response)
    requires
        old(store).wf(),
        !is_vector_command(cmd@),
    ensures
        final(store).wf(),
        r@ == kv_reply(old(store)@, cmd@, now),
        final(store)@ == kv_after(old(store)@, cmd@, now),
{
    match cmd {
        Command::Get { key } => match store.get_at(&key, now) {
            Some(value) => Response::Value(value),
            None => Response::Nil,
        },
        Command::SetKey { key, value, ttl } => {
            store.set_at(key, value, ttl, now);
            Response::Okay
        },
        Command::Del { key } => {
            let existed = store.del(&key);
            Response::Integer(
                if existed {
                    1
                } else {
                    0
                },
            )
        },
        Command::Exists { key } => {
            let present = store.contains_key_at(&key, now);
            Response::Integer(
                if present {
                    1
                } else {
                    0
                },
            )
        },
        _ => Response::Pong,
    }
}

/// Executes a key/value command against a sharded store at `now`; the
/// answers are those of `execute_kv`.
pub fn execute_kv_concurrent(store: &mut ConcurrentStore, cmd: Command, now: u64) -> (r: Response)
    requires
        old(store).wf(),
        !is_vector_command(cmd@),
    ensures
        final(store).wf(),
        r@ == kv_reply(old(store)@, cmd@, now),
        final(store)@ == kv_after(old(store)@, cmd@, now),
{
    match cmd {
        Command::Get { key } => match store.get_at(&key, now) {
            Some(value) => Response::Value(value),
            None => Response::Nil,
        },
        Command::SetKey { key, value, ttl } => {
            store.set_at(key, value, ttl, now);
            Response::Okay
        },
        Command::Del { key } => {
            let existed = store.del(&key);
            Response::Integer(
                if existed {
                    1
                } else {
                    0
                },
            )
        },
        Command::Exists { key } => {
            let present = store.contains_key_at(&key, now);
            Response::Integer(
                if present {
                    1
                } else {
                    0
                },
            )
        },
        _ => Response::Pong,
    }
}

/// Executes a command against a single-table store and a cache: vector
/// work against the cache, every other command against the store.
pub fn execute(
    store: &mut Store,
    cache: &mut SemanticCache,
    cmd: Command,
    now: u64,
    scores: &Vec<u32>,
) -> (r: Response)
    requires
        old(store).wf(),
        old(cache).wf(),
        reads_scores(old(cache).spec_config(), cmd@) ==> scores@.len() == old(cache)@.len(),
    ensures
        final(store).wf(),
        final(cache).wf(),
        final(cache).spec_config() == old(cache).spec_config(),
        r@ == reply_to(old(store)@, old(cache)@, old(cache).spec_config(), cmd@, now, scores@),
        final(store)@ == kv_after(old(store)@, cmd@, now),
        final(cache)@ == vector_after(old(cache)@, old(cache).spec_config(), cmd@, now),
{
    if vector_work(&cmd) {
        execute_vector(cache, cmd, now, scores)
    } else {
        execute_kv(store, cmd, now)
    }
}

/// Executes a command against a sharded store and a cache; the answers
/// are those of `execute`.
pub fn execute_concurrent(
    store: &mut ConcurrentStore,
    cache: &mut SemanticCache,
    cmd: Command,
    now: u64,
    scores: &Vec<u32>,
) -> (r: Response)
    requires
        old(store).wf(),
        old(cache).wf(),
        reads_scores(old(cache).spec_config(), cmd@) ==> scores@.len() == old(cache)@.len(),
    ensures
        final(store).wf(),
        final(cache).wf(),
        final(cache).spec_config() == old(cache).spec_config(),
        r@ == reply_to(old(store)@, old(cache)@, old(cache).spec_config(), cmd@, now, scores@),
        final(store)@ == kv_after(old(store)@, cmd@, now),
        final(cache)@ == vector_after(old(cache)@, old(cache).spec_config(), cmd@, now),
{
    if vector_work(&cmd) {
        execute_vector(cache, cmd, now, scores)
    } else {
        execute_kv_concurrent(store, cmd, now)
    }
}

/// The frame that carries an answer to request `request_id`.
pub open spec fn reply_frame(response: ResponseModel, request_id: u64) -> FrameModel {
    new_frame(response.opcode(), request_id, response.payload())
}

/// The answer to a frame that carries no command: the error, as text.
pub fn parse_failure(e: ProtocolError) -> (r: Response)
    ensures
        r@ == ResponseModel::Error(e.text()),
{
    Response::Error(e.message())
}

/// The answer to what was read from a frame: that of the command, or the
/// reading error as an error response.
pub open spec fn answer(
    entries: Map<Seq<u8>, EntryModel>,
    index: IndexModel,
    config: SemanticCacheConfig,
    parsed: Result<CommandModel, ProtocolError>,
    now: u64,
    scores: Seq<u32>,
) -> ResponseModel {
    match parsed {
        Ok(cmd) => reply_to(entries, index, config, cmd, now, scores),
        Err(e) => ResponseModel::Error(e.text()),
    }
}

/// Connection handler of the single-threaded server.
pub struct Handler {
    store: Store,
    vector_store: SemanticCache,
}

impl Handler {
    /// The entries of the key/value store.
    pub closed spec fn entries(&self) -> Map<Seq<u8>, EntryModel> {
        self.store@
    }

    /// The entries of the semantic cache.
    pub closed spec fn index(&self) -> IndexModel {
        self.vector_store@
    }

    /// The configuration of the semantic cache.
    pub closed spec fn cache_config(&self) -> SemanticCacheConfig {
        self.vector_store.spec_config()
    }

    /// Both stores are well formed.
    pub closed spec fn wf(&self) -> bool {
        self.store.wf() && self.vector_store.wf()
    }

    /// A handler for the two stores.
    pub fn new(store: Store, vector_store: SemanticCache) -> (h: Handler)
        requires
            store.wf(),
            vector_store.wf(),
        ensures
            h.wf(),
            h.entries() == store@,
            h.index() == vector_store@,
            h.cache_config() == vector_store.spec_config(),
    {
        Handler { store, vector_store }
    }

    /// The present instant on the store's clock.
    pub fn now(&self) -> u64 {
        self.store.now()
    }

    /// The stored vectors, in the order in which `execute` expects the
    /// similarities of a search.
    pub fn vectors(&self) -> (v: Vec<Vec<u32>>)
        requires
            self.wf(),
        ensures
            v@.len() == self.index().len(),
            forall|i: int| 0 <= i < v@.len() ==> (#[trigger] v@[i])@ == self.index()[i].1.embedding,
    {
        self.vector_store.vectors()
    }

    /// Executes a command at `now` and returns the answer.
    pub fn execute(&mut self, cmd: Command, now: u64, scores: &Vec<u32>) -> (r: Response)
        requires
            old(self).wf(),
            reads_scores(old(self).cache_config(), cmd@) ==> scores@.len() == old(self).index().len(),
        ensures
            final(self).wf(),
            final(self).cache_config() == old(self).cache_config(),
            r@ == reply_to(
                old(self).entries(),
                old(self).index(),
                old(self).cache_config(),
                cmd@,
                now,
                scores@,
            ),
            final(self).entries() == kv_after(old(self).entries(), cmd@, now),
            final(self).index() == vector_after(
                old(self).index(),
                old(self).cache_config(),
                cmd@,
                now,
            ),
    {
        execute(&mut self.store, &mut self.vector_store, cmd, now, scores)
    }

    /// One sweep at `now`: removes the expired entries of the key/value
    /// store and returns how many they were.
    pub fn sweep_at(&mut self, now: u64) -> (removed: usize)
        requires
            old(self).wf(),
        ensures
            final(self).wf(),
            final(self).entries() == live_entries(old(self).entries(), now),
            final(self).index() == old(self).index(),
            final(self).cache_config() == old(self).cache_config(),
            removed == old(self).entries().len() - final(self).entries().len(),
    {
        self.store.cleanup_expired_at(now)
    }

    /// The frame that answers a request: the answer to the command that
    /// was read from it, or the reading error as an error response. The
    /// request identifier is that of the request. A frame that carries no
    /// command changes nothing.
    pub fn respond(
        &mut self,
        request_id: u64,
        parsed: Result<Command, ProtocolError>,
        now: u64,
        scores: &Vec<u32>,
    ) -> (f: Frame)
        requires
            old(self).wf(),
            parsed matches Ok(cmd) ==> (reads_scores(old(self).cache_config(), cmd@)
                ==> scores@.len() == old(self).index().len()),
        ensures
            final(self).wf(),
            final(self).cache_config() == old(self).cache_config(),
            f.header.request_id == request_id,
            f@ == reply_frame(
                answer(
                    old(self).entries(),
                    old(self).index(),
                    old(self).cache_config(),
                    parsed_command_view(parsed),
                    now,
                    scores@,
                ),
                request_id,
            ),
            parsed matches Ok(cmd) ==> final(self).entries() == kv_after(
                old(self).entries(),
                cmd@,
                now,
            ) && final(self).index() == vector_after(
                old(self).index(),
                old(self).cache_config(),
                cmd@,
                now,
            ),
            parsed is Err ==> final(self).entries() == old(self).entries() && final(self).index()
                == old(self).index(),
    {
        let response = match parsed {
            Ok(cmd) => self.execute(cmd, now, scores),
            Err(e) => parse_failure(e),
        };
        response.to_frame(request_id)
    }
}

} // verus!
