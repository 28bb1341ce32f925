//! The model of one connection pool: a bounded set of checked-out
//! connections, a prepared-statement cache keyed by SQL text and declared
//! parameter types, and the settings the pool was created with.
//!
//! Opening a connection and preparing a statement are network work done by
//! the lower layer; their outcomes enter `acquire` and `prepare_typed_cached`
//! as reply values, so the contracts here hold whatever the backend answers.

use vstd::prelude::*;

verus! {

use crate::errors::{ErrorInfo, PoolError};
use crate::schema::DbConf;

/// Acquire, create and recycle budgets of a pool, in milliseconds.
#[derive(Debug, Clone, Copy)]
pub struct TimeoutConf {
    pub wait_ms: Option<u64>,
    pub create_ms: Option<u64>,
    pub recycle_ms: Option<u64>,
}

/// Everything a pool is created from: the endpoint descriptor, the pool
/// bound and the timeout budgets, all derived from one `DbConf` record.
#[derive(Debug, Clone)]
pub struct PoolSettings {
    pub dbname: String,
    pub host: Option<String>,
    pub hosts: Option<Vec<String>>,
    pub port: u16,
    pub user: String,
    pub password: String,
    pub max_connections: usize,
    pub timeouts: TimeoutConf,
}

/// How `PoolSettings` must relate to the configuration record it came from:
/// the pool bound defaults to one connection, the acquire budget to 500 ms,
/// and the create and recycle budgets are set only when reader fallback is
/// configured (a degrading pool must give up on a broken endpoint quickly).
pub open spec fn settings_match(s: PoolSettings, db: DbConf, fallback_configured: bool) -> bool {
    &&& s.dbname == db.name
    &&& s.port == db.port
    &&& s.user == db.user
    &&& s.password == db.password
    &&& (db.hosts matches Some(hv) ==> s.host is None && (s.hosts matches Some(sv) && sv@ == hv@))
    &&& (db.hosts is None ==> s.hosts is None && s.host == Some(db.host))
    &&& s.max_connections == db.pool_max.unwrap_or(1)
    &&& s.timeouts.wait_ms == Some(db.timeout.unwrap_or(500))
    &&& (fallback_configured ==> s.timeouts.create_ms == Some(900u64) && s.timeouts.recycle_ms
        == Some(1500u64))
    &&& (!fallback_configured ==> s.timeouts.create_ms is None && s.timeouts.recycle_ms is None)
}

/// All three budgets set, as used when reader fallback is configured.
pub fn timeouts_object(wait: u64, create: u64, recycle: u64) -> (t: TimeoutConf)
    ensures
        t.wait_ms == Some(wait),
        t.create_ms == Some(create),
        t.recycle_ms == Some(recycle),
{
    TimeoutConf { wait_ms: Some(wait), create_ms: Some(create), recycle_ms: Some(recycle) }
}

fn clone_strings(v: &Vec<String>) -> (r: Vec<String>)
    ensures
        r@ == v@,
{
    let mut r: Vec<String> = Vec::new();
    let mut i: usize = 0;
    while i < v.len()
        invariant
            i <= v.len(),
            r@ =~= v@.subrange(0, i as int),
        decreases v.len() - i,
    {
        r.push(v[i].clone());
        i += 1;
    }
    proof {
        assert(r@ =~= v@);
    }
    r
}

fn clone_types(v: &Vec<u32>) -> (r: Vec<u32>)
    ensures
        r@ == v@,
{
    let mut r: Vec<u32> = Vec::new();
    let mut i: usize = 0;
    while i < v.len()
        invariant
            i <= v.len(),
            r@ =~= v@.subrange(0, i as int),
        decreases v.len() - i,
    {
        r.push(v[i]);
        i += 1;
    }
    proof {
        assert(r@ =~= v@);
    }
    r
}

/// Derives a pool's settings from its configuration record. A host list
/// takes precedence over the single host; the bound and the acquire budget
/// fall back to their defaults when absent.
pub fn pool_settings(db: &DbConf, fallback_configured: bool) -> (s: PoolSettings)
    ensures
        settings_match(s, *db, fallback_configured),
{
    let pool_max: usize = match db.pool_max {
        Some(m) => m,
        None => 1,
    };
    let wait: u64 = match db.timeout {
        Some(t) => t,
        None => 500,
    };
    let timeouts = if fallback_configured {
        timeouts_object(wait, 900, 1500)
    } else {
        TimeoutConf { wait_ms: Some(wait), create_ms: None, recycle_ms: None }
    };
    let (host, hosts): (Option<String>, Option<Vec<String>>) = match &db.hosts {
        Some(hs) => (None, Some(clone_strings(hs))),
        None => (Some(db.host.clone()), None),
    };
    PoolSettings {
        dbname: db.name.clone(),
        host,
        hosts,
        port: db.port,
        user: db.user.clone(),
        password: db.password.clone(),
        max_connections: pool_max,
        timeouts,
    }
}

/// A pool for one endpoint, sized and budgeted from its configuration
/// record: open, with nothing checked out and an empty statement cache.
pub fn create_pool(db: &DbConf, fallback_configured: bool) -> (p: PoolHandle)
    ensures
        p.wf(),
        settings_match(p.settings, *db, fallback_configured),
        fresh_pool(p@, db.pool_max.unwrap_or(1) as int),
{
    PoolHandle::new(pool_settings(db, fallback_configured))
}

/// The lower layer's answer to a request for a connection: either one was
/// opened (or reused), or the endpoint could not be reached.
#[derive(Debug, Clone, Copy, PartialEq, Eq, Structural)]
pub enum ConnectReply {
    Connected,
    Refused,
}

/// The backend's answer to preparing a statement: accepted, or rejected with
/// the reported failure. A rejected prepare is never retried.
#[derive(Debug, Clone, PartialEq)]
pub enum PrepareReply {
    Prepared,
    Rejected(ErrorInfo),
}

/// One cached prepared statement: the SQL text, the declared parameter types
/// (as type OIDs) and the handle under which the statement is known.
#[derive(Debug, Clone)]
pub struct StatementEntry {
    pub sql: String,
    pub param_types: Vec<u32>,
    pub handle: u64,
}

pub open spec fn entry_key(e: StatementEntry) -> (Seq<char>, Seq<u32>) {
    (e.sql@, e.param_types@)
}

/// The statement cache as a mathematical map from (SQL text, parameter
/// types) to the cached statement handle.
pub open spec fn cache_map(entries: Seq<StatementEntry>) -> Map<(Seq<char>, Seq<u32>), int>
    decreases entries.len(),
{
    if entries.len() == 0 {
        Map::empty()
    } else {
        cache_map(entries.drop_last()).insert(entry_key(entries.last()), entries.last().handle as int)
    }
}

/// The abstract state of one pool: the bound, how many connections are
/// checked out, whether the pool was closed, the statement cache, and the
/// next fresh statement handle.
pub struct PoolView {
    pub max_connections: int,
    pub checked_out: int,
    pub closed: bool,
    pub cache: Map<(Seq<char>, Seq<u32>), int>,
    pub next_statement: int,
}

/// The invariant every reachable pool state satisfies: never more than
/// `max_connections` checked out, and every cached handle is older than the
/// next fresh one.
pub open spec fn pool_inv(p: PoolView) -> bool {
    &&& 0 <= p.checked_out <= p.max_connections
    &&& 0 <= p.next_statement
    &&& forall|k: (Seq<char>, Seq<u32>)| p.cache.contains_key(k) ==> 0 <= #[trigger] p.cache[k]
        < p.next_statement
}

/// A pool as just created: nothing checked out, nothing cached, open.
pub open spec fn fresh_pool(p: PoolView, max: int) -> bool {
    &&& p.max_connections == max
    &&& p.checked_out == 0
    &&& !p.closed
    &&& p.cache == Map::<(Seq<char>, Seq<u32>), int>::empty()
    &&& p.next_statement == 0
}

/// One connection pool together with its statement cache.
#[derive(Debug)]
pub struct PoolHandle {
    pub settings: PoolSettings,
    pub checked_out: usize,
    pub closed: bool,
    pub cache: Vec<StatementEntry>,
    pub next_statement: u64,
}

impl View for PoolHandle {
    type V = PoolView;

    open spec fn view(&self) -> PoolView {
        PoolView {
            max_connections: self.settings.max_connections as int,
            checked_out: self.checked_out as int,
            closed: self.closed,
            cache: cache_map(self.cache@),
            next_statement: self.next_statement as int,
        }
    }
}

/// What `acquire` does to a pool, for every possible reply of the lower
/// layer: a closed pool fails with `Closed`; a pool at its bound fails with
/// `Timeout` (no connection freed up within the budget); a refused
/// connection fails with `Unreachable`; otherwise one more connection is
/// checked out.
pub open spec fn spec_acquire(p: PoolView, conn: ConnectReply) -> (PoolView, Result<(), PoolError>) {
    if p.closed {
        (p, Err(PoolError::Closed))
    } else if p.checked_out >= p.max_connections {
        (p, Err(PoolError::Timeout))
    } else if conn is Refused {
        (p, Err(PoolError::Unreachable))
    } else {
        (PoolView { checked_out: p.checked_out + 1, ..p }, Ok(()))
    }
}

/// Returning a connection checks exactly one back in.
pub open spec fn spec_release(p: PoolView) -> PoolView {
    PoolView { checked_out: p.checked_out - 1, ..p }
}

/// What `prepare_typed_cached` does: a cached statement is returned as it
/// is, without consulting the backend; on a miss, an accepted prepare is
/// cached under a fresh handle, and a rejected one is surfaced unchanged.
pub open spec fn spec_prepare(
    p: PoolView,
    sql: Seq<char>,
    types: Seq<u32>,
    reply: PrepareReply,
) -> (PoolView, Result<int, ErrorInfo>) {
    let k = (sql, types);
    if p.cache.contains_key(k) {
        (p, Ok(p.cache[k]))
    } else {
        match reply {
            PrepareReply::Prepared => (
                PoolView {
                    cache: p.cache.insert(k, p.next_statement),
                    next_statement: p.next_statement + 1,
                    ..p
                },
                Ok(p.next_statement),
            ),
            PrepareReply::Rejected(e) => (p, Err(e)),
        }
    }
}

/// Clearing the cache forgets every entry at once and touches nothing else;
/// in particular handles are never reissued.
pub open spec fn spec_invalidate(p: PoolView) -> PoolView {
    PoolView { cache: Map::empty(), ..p }
}

/// Closing drains the connections; the cache is kept (it is unusable, but
/// clearing it is not what close promises).
pub open spec fn spec_close(p: PoolView) -> PoolView {
    PoolView { closed: true, checked_out: 0, ..p }
}

/// The statement handle of a prepare result, as an abstract value.
pub open spec fn prep_result_view(r: Result<u64, ErrorInfo>) -> Result<int, ErrorInfo> {
    match r {
        Ok(h) => Ok(h as int),
        Err(e) => Err(e),
    }
}

proof fn lemma_cache_map_props(entries: Seq<StatementEntry>)
    ensures
        forall|k: (Seq<char>, Seq<u32>)| #[trigger] cache_map(entries).contains_key(k)
            ==> exists|i: int|
                0 <= i < entries.len() && entry_key(#[trigger] entries[i]) == k
                    && entries[i].handle as int == cache_map(entries)[k],
        forall|i: int| 0 <= i < entries.len() ==> cache_map(entries).contains_key(
            entry_key(#[trigger] entries[i]),
        ),
    decreases entries.len(),
{
    if entries.len() > 0 {
        let prefix = entries.drop_last();
        lemma_cache_map_props(prefix);
        assert forall|k: (Seq<char>, Seq<u32>)| #[trigger] cache_map(entries).contains_key(k)
            implies exists|i: int|
                0 <= i < entries.len() && entry_key(#[trigger] entries[i]) == k
                    && entries[i].handle as int == cache_map(entries)[k] by {
            if k == entry_key(entries.last()) {
                assert(entry_key(entries[entries.len() - 1]) == k);
            } else {
                assert(cache_map(prefix).contains_key(k));
                let i = choose|i: int|
                    0 <= i < prefix.len() && entry_key(#[trigger] prefix[i]) == k
                        && prefix[i].handle as int == cache_map(prefix)[k];
                assert(entries[i] == prefix[i]);
            }
        }
        assert forall|i: int| 0 <= i < entries.len() implies cache_map(entries).contains_key(
            entry_key(#[trigger] entries[i]),
        ) by {
            if i < entries.len() - 1 {
                assert(prefix[i] == entries[i]);
                assert(cache_map(prefix).contains_key(entry_key(prefix[i])));
            }
        }
    }
}

/// With pairwise distinct keys, the cache map sends each entry's key to that
/// entry's handle.
proof fn lemma_cache_map_index(entries: Seq<StatementEntry>, i: int)
    requires
        0 <= i < entries.len(),
        forall|a: int, b: int| 0 <= a < b < entries.len() ==> entry_key(#[trigger] entries[a])
            != entry_key(#[trigger] entries[b]),
    ensures
        cache_map(entries).contains_key(entry_key(entries[i])),
        cache_map(entries)[entry_key(entries[i])] == entries[i].handle as int,
    decreases entries.len(),
{
    let prefix = entries.drop_last();
    if i == entries.len() - 1 {
    } else {
        assert(entries[i] == prefix[i]);
        lemma_cache_map_index(prefix, i);
        assert(entry_key(entries[i]) != entry_key(entries[entries.len() - 1]));
    }
}

proof fn lemma_cache_map_absent(entries: Seq<StatementEntry>, k: (Seq<char>, Seq<u32>))
    requires
        forall|i: int| 0 <= i < entries.len() ==> entry_key(#[trigger] entries[i]) != k,
    ensures
        !cache_map(entries).contains_key(k),
    decreases entries.len(),
{
    if entries.len() > 0 {
        lemma_cache_map_absent(entries.drop_last(), k);
    }
}

proof fn lemma_cache_map_push(entries: Seq<StatementEntry>, e: StatementEntry)
    ensures
        cache_map(entries.push(e)) == cache_map(entries).insert(entry_key(e), e.handle as int),
{
    assert(entries.push(e).drop_last() =~= entries);
    assert(entries.push(e).last() == e);
}

/// Equality of two string slices, decided character by character.
fn str_equal(a: &str, b: &str) -> (r: bool)
    ensures
        r == (a@ == b@),
{
    let la = a.unicode_len();
    let lb = b.unicode_len();
    if la != lb {
        return false;
    }
    let mut i: usize = 0;
    while i < la
        invariant
            i <= la,
            la == a@.len(),
            la == b@.len(),
            forall|j: int| 0 <= j < i ==> a@[j] == b@[j],
        decreases la - i,
    {
        if a.get_char(i) != b.get_char(i) {
            return false;
        }
        i += 1;
    }
    proof {
        assert(a@ =~= b@);
    }
    true
}

fn types_equal(a: &Vec<u32>, b: &Vec<u32>) -> (r: bool)
    ensures
        r == (a@ == b@),
{
    if a.len() != b.len() {
        return false;
    }
    let mut i: usize = 0;
    while i < a.len()
        invariant
            i <= a.len(),
            a.len() == b.len(),
            forall|j: int| 0 <= j < i ==> a@[j] == b@[j],
        decreases a.len() - i,
    {
        if a[i] != b[i] {
            return false;
        }
        i += 1;
    }
    proof {
        assert(a@ =~= b@);
    }
    true
}

impl PoolHandle {
    /// Distinct cache keys, cached handles all older than the next fresh
    /// one, and the checked-out count within the bound.
    pub open spec fn wf(&self) -> bool {
        &&& self.checked_out <= self.settings.max_connections
        &&& forall|a: int, b: int| 0 <= a < b < self.cache@.len() ==> entry_key(
            #[trigger] self.cache@[a],
        ) != entry_key(#[trigger] self.cache@[b])
        &&& forall|i: int| 0 <= i < self.cache@.len() ==> (#[trigger] self.cache@[i]).handle
            < self.next_statement
    }

    /// A well-formed pool's abstract state satisfies the pool invariant.
    pub proof fn lemma_wf_implies_inv(&self)
        requires
            self.wf(),
        ensures
            pool_inv(self@),
    {
        lemma_cache_map_props(self.cache@);
    }

    /// A new pool with the given settings: open, empty, nothing checked out.
    pub fn new(settings: PoolSettings) -> (p: PoolHandle)
        ensures
            p.wf(),
            fresh_pool(p@, settings.max_connections as int),
            p.settings == settings,
    {
        PoolHandle {
            settings,
            checked_out: 0,
            closed: false,
            cache: Vec::new(),
            next_statement: 0,
        }
    }

    fn lookup(&self, sql: &str, types: &Vec<u32>) -> (r: Option<u64>)
        requires
            self.wf(),
        ensures
            match r {
                Some(h) => self@.cache.contains_key((sql@, types@)) && self@.cache[(sql@, types@)]
                    == h as int,
                None => !self@.cache.contains_key((sql@, types@)),
            },
    {
        let ghost k = (sql@, types@);
        let mut i: usize = 0;
        while i < self.cache.len()
            invariant
                self.wf(),
                i <= self.cache.len(),
                k == (sql@, types@),
                forall|j: int| 0 <= j < i ==> entry_key(#[trigger] self.cache@[j]) != k,
            decreases self.cache.len() - i,
        {
            let e = &self.cache[i];
            if str_equal(e.sql.as_str(), sql) && types_equal(&e.param_types, types) {
                proof {
                    assert(entry_key(self.cache@[i as int]) == k);
                    lemma_cache_map_index(self.cache@, i as int);
                }
                return Some(e.handle);
            }
            proof {
                assert(entry_key(self.cache@[i as int]) != k);
            }
            i += 1;
        }
        proof {
            lemma_cache_map_absent(self.cache@, k);
        }
        None
    }

    /// Acquires a connection, given the lower layer's reply. Never checks
    /// out more than `max_connections`.
    pub fn acquire(&mut self, conn: ConnectReply) -> (r: Result<(), PoolError>)
        requires
            old(self).wf(),
        ensures
            final(self).wf(),
            (final(self)@, r) == spec_acquire(old(self)@, conn),
            final(self).settings == old(self).settings,
    {
        if self.closed {
            Err(PoolError::Closed)
        } else if self.checked_out >= self.settings.max_connections {
            Err(PoolError::Timeout)
        } else if matches!(conn, ConnectReply::Refused) {
            Err(PoolError::Unreachable)
        } else {
            self.checked_out = self.checked_out + 1;
            Ok(())
        }
    }

    /// Returns a connection to the pool.
    pub fn release(&mut self)
        requires
            old(self).wf(),
            old(self).checked_out > 0,
        ensures
            final(self).wf(),
            final(self)@ == spec_release(old(self)@),
            final(self).settings == old(self).settings,
    {
        self.checked_out = self.checked_out - 1;
    }

    /// Returns the cached statement handle for this exact (SQL, parameter
    /// types) key, or caches the backend's freshly prepared one; a rejected
    /// prepare is surfaced without touching the cache.
    pub fn prepare_typed_cached(&mut self, sql: &str, types: &Vec<u32>, reply: PrepareReply) -> (r:
        Result<u64, ErrorInfo>)
        requires
            old(self).wf(),
            old(self).next_statement < u64::MAX,
        ensures
            final(self).wf(),
            (final(self)@, prep_result_view(r)) == spec_prepare(old(self)@, sql@, types@, reply),
            final(self).settings == old(self).settings,
            final(self).checked_out == old(self).checked_out,
            final(self).closed == old(self).closed,
    {
        match self.lookup(sql, types) {
            Some(h) => Ok(h),
            None => {
                match reply {
                    PrepareReply::Prepared => {
                        let h = self.next_statement;
                        let entry = StatementEntry {
                            sql: sql.to_owned(),
                            param_types: clone_types(types),
                            handle: h,
                        };
                        proof {
                            assert(entry_key(entry) == (sql@, types@));
                            lemma_cache_map_props(self.cache@);
                            lemma_cache_map_push(self.cache@, entry);
                        }
                        self.cache.push(entry);
                        self.next_statement = h + 1;
                        Ok(h)
                    },
                    PrepareReply::Rejected(e) => Err(e),
                }
            },
        }
    }

    /// Atomically forgets every cached statement of this pool. Connections
    /// are untouched, and handles are never reissued afterwards.
    pub fn invalidate_statement_cache(&mut self)
        requires
            old(self).wf(),
        ensures
            final(self).wf(),
            final(self)@ == spec_invalidate(old(self)@),
            final(self).settings == old(self).settings,
            final(self).checked_out == old(self).checked_out,
            final(self).closed == old(self).closed,
    {
        self.cache.clear();
    }

    /// Drains and closes the pool; later acquisitions fail with `Closed`.
    pub fn close(&mut self)
        requires
            old(self).wf(),
        ensures
            final(self).wf(),
            final(self)@ == spec_close(old(self)@),
            final(self).settings == old(self).settings,
    {
        self.checked_out = 0;
        self.closed = true;
    }
}

/// Preparing the same (SQL, parameter types) key twice on the same pool
/// returns the same cached statement handle the second time, with the pool
/// unchanged and the backend's second answer never consulted — no duplicate
/// preparation, until the cache is invalidated.
pub proof fn lemma_prepare_cached_idempotent(
    p: PoolView,
    sql: Seq<char>,
    types: Seq<u32>,
    first: PrepareReply,
    second: PrepareReply,
)
    ensures
        ({
            let (p1, r1) = spec_prepare(p, sql, types, first);
            r1 matches Ok(h) ==> spec_prepare(p1, sql, types, second) == (
                p1,
                Ok::<int, ErrorInfo>(h),
            )
        }),
{
}

/// A cached statement stays cached, under the same handle, across prepares
/// of any other key: only `invalidate_statement_cache` removes entries.
pub proof fn lemma_prepare_preserves_other_keys(
    p: PoolView,
    sql: Seq<char>,
    types: Seq<u32>,
    reply: PrepareReply,
    cached_sql: Seq<char>,
    cached_types: Seq<u32>,
)
    requires
        (cached_sql, cached_types) != (sql, types),
        p.cache.contains_key((cached_sql, cached_types)),
    ensures
        ({
            let (p1, _r) = spec_prepare(p, sql, types, reply);
            &&& p1.cache.contains_key((cached_sql, cached_types))
            &&& p1.cache[(cached_sql, cached_types)] == p.cache[(cached_sql, cached_types)]
        }),
{
}

/// After the cache is invalidated, preparing a previously cached key misses
/// the cache and performs a fresh prepare: the handle it returns and caches
/// is not the one cached before.
pub proof fn lemma_invalidate_forces_fresh(p: PoolView, sql: Seq<char>, types: Seq<u32>)
    requires
        pool_inv(p),
        p.cache.contains_key((sql, types)),
    ensures
        ({
            let h = p.cache[(sql, types)];
            let p1 = spec_invalidate(p);
            let (p2, r2) = spec_prepare(p1, sql, types, PrepareReply::Prepared);
            &&& !p1.cache.contains_key((sql, types))
            &&& r2 == Ok::<int, ErrorInfo>(p.next_statement)
            &&& p.next_statement != h
            &&& p2.cache == p1.cache.insert((sql, types), p.next_statement)
        }),
{
}

/// From a pool within its bound, an acquisition never results in more than
/// `max_connections` connections checked out, whatever the lower layer
/// replies: a success checks out exactly one more (so the pool cannot have
/// been at its bound), and a failure changes nothing.
pub proof fn lemma_acquire_bounded(p: PoolView, conn: ConnectReply)
    requires
        pool_inv(p),
    ensures
        ({
            let (p1, r) = spec_acquire(p, conn);
            &&& pool_inv(p1)
            &&& p1.checked_out <= p.max_connections
            &&& (r is Ok ==> p1.checked_out == p.checked_out + 1 && p.checked_out
                < p.max_connections)
            &&& (r is Err ==> p1 == p)
        }),
{
}

} // verus!

