//! The statement recovery coordinator and the query entry points.
//!
//! A prepare-by-text call (`query_pp`, `query_one_pp`) acquires a connection
//! through the router, prepares through the pool's statement cache, runs the
//! statement, and recovers exactly once from a stale prepared statement: the
//! pool's whole cache is invalidated, the statement is re-prepared, and the
//! run is repeated. Whatever the retry returns is final. A plain `query`
//! call gets none of this: it runs once and surfaces every failure, because
//! recovery is only safe when the coordinator also owns re-preparation.
//!
//! The backend's behavior enters as a `ServerReplies` value: the reply to
//! each connection request, prepare and run that the call might perform. The
//! contracts therefore cover every behavior of the backend; which replies
//! actually occur is decided by the network at run time.

use vstd::prelude::*;
use vstd::string::*;

verus! {

use crate::errors::{spec_is_stale, DbError, ErrorInfo};
use crate::pool::{
    spec_invalidate, spec_prepare, spec_release, ConnectReply, PoolHandle, PoolView, PrepareReply,
};
use crate::registry::{spec_get, PgPool, PoolRegistry, RegistryView, RoutingDecision};

/// The backend's replies to everything one coordinated call might ask of it:
/// a connection from either endpoint, a first prepare and run, and — only
/// reached after a stale first run — a second prepare and run.
pub struct ServerReplies<R> {
    pub connect_reader: ConnectReply,
    pub connect_writer: ConnectReply,
    pub prepare_first: PrepareReply,
    pub run_first: Result<R, ErrorInfo>,
    pub prepare_retry: PrepareReply,
    pub run_retry: Result<R, ErrorInfo>,
}

/// What one prepare-and-run sequence with single-shot recovery does to a
/// pool, for every reply of the backend:
/// a failed prepare is surfaced at once (a prepare failure is a query
/// problem, not a stale-cache problem); a successful run is returned; a
/// terminal run failure is surfaced; a stale run failure invalidates the
/// whole cache, re-prepares, re-runs, and whatever that single retry yields
/// — success or failure — is final.
pub open spec fn spec_run_recovering<R>(
    p: PoolView,
    sql: Seq<char>,
    types: Seq<u32>,
    prepare_first: PrepareReply,
    run_first: Result<R, ErrorInfo>,
    prepare_retry: PrepareReply,
    run_retry: Result<R, ErrorInfo>,
) -> (PoolView, Result<R, DbError>) {
    let (p1, prep) = spec_prepare(p, sql, types, prepare_first);
    match prep {
        Err(e) => (p1, Err(DbError::Prepare(e))),
        Ok(_) => match run_first {
            Ok(rows) => (p1, Ok(rows)),
            Err(e) => if spec_is_stale(e) {
                let (p2, prep2) = spec_prepare(spec_invalidate(p1), sql, types, prepare_retry);
                match prep2 {
                    Err(e2) => (p2, Err(DbError::Prepare(e2))),
                    Ok(_) => match run_retry {
                        Ok(rows) => (p2, Ok(rows)),
                        Err(e2) => (p2, Err(DbError::Query(e2))),
                    },
                }
            } else {
                (p1, Err(DbError::Query(e)))
            },
        },
    }
}

/// Runs a prepare-and-run sequence against one pool, recovering exactly once
/// from a stale prepared statement. The connection is assumed acquired; the
/// caller releases it.
fn run_recovering<R>(
    pool: &mut PoolHandle,
    sql: &str,
    types: &Vec<u32>,
    prepare_first: PrepareReply,
    run_first: Result<R, ErrorInfo>,
    prepare_retry: PrepareReply,
    run_retry: Result<R, ErrorInfo>,
) -> (r: Result<R, DbError>)
    requires
        old(pool).wf(),
        old(pool).next_statement + 2 <= u64::MAX,
    ensures
        final(pool).wf(),
        (final(pool)@, r) == spec_run_recovering(
            old(pool)@,
            sql@,
            types@,
            prepare_first,
            run_first,
            prepare_retry,
            run_retry,
        ),
        final(pool).checked_out == old(pool).checked_out,
        final(pool).closed == old(pool).closed,
        final(pool).settings == old(pool).settings,
{
    if let Err(e) = pool.prepare_typed_cached(sql, types, prepare_first) {
        return Err(DbError::Prepare(e));
    }
    match run_first {
        Ok(rows) => Ok(rows),
        Err(e) => {
            if crate::errors::is_stale(&e) {
                pool.invalidate_statement_cache();
                if let Err(e2) = pool.prepare_typed_cached(sql, types, prepare_retry) {
                    return Err(DbError::Prepare(e2));
                }
                match run_retry {
                    Ok(rows) => Ok(rows),
                    Err(e2) => Err(DbError::Query(e2)),
                }
            } else {
                Err(DbError::Query(e))
            }
        },
    }
}

/// The pool state a routing decision says the request was served from.
pub open spec fn served_view(v: RegistryView, which: PgPool) -> PoolView {
    match which {
        PgPool::Writer => v.writer,
        PgPool::Reader => v.reader->0,
    }
}

/// The registry with the served pool's state replaced.
pub open spec fn set_served(v: RegistryView, which: PgPool, p: PoolView) -> RegistryView {
    match which {
        PgPool::Writer => RegistryView { writer: p, ..v },
        PgPool::Reader => RegistryView { reader: Some(p), ..v },
    }
}

/// Both pools have room for the two statement handles one call might issue.
pub open spec fn handles_available(v: RegistryView) -> bool {
    &&& v.writer.next_statement + 2 <= u64::MAX
    &&& (v.reader matches Some(p) ==> p.next_statement + 2 <= u64::MAX)
}

/// What a full prepare-by-text call does to the registry: acquire through
/// the router (with reader-to-writer fallback), run with single-shot
/// recovery on the pool that served, and release the connection — also on
/// every failure path, so a connection is never leaked.
pub open spec fn spec_query_pp<R>(
    v: RegistryView,
    pool: PgPool,
    sql: Seq<char>,
    types: Seq<u32>,
    replies: ServerReplies<R>,
) -> (RegistryView, Result<R, DbError>) {
    let (v1, g) = spec_get(v, pool, replies.connect_reader, replies.connect_writer);
    match g {
        Err(e) => (v1, Err(DbError::Pool(e))),
        Ok(rd) => {
            let (p1, res) = spec_run_recovering(
                served_view(v1, rd.served_by),
                sql,
                types,
                replies.prepare_first,
                replies.run_first,
                replies.prepare_retry,
                replies.run_retry,
            );
            (set_served(v1, rd.served_by, spec_release(p1)), res)
        },
    }
}

/// What a plain (non-recovering) call does: acquire through the router, run
/// once, release. No failure is classified and nothing is retried or
/// re-prepared; callers holding their own statement handle must handle
/// staleness themselves.
pub open spec fn spec_query<R>(
    v: RegistryView,
    pool: PgPool,
    conn_reader: ConnectReply,
    conn_writer: ConnectReply,
    run: Result<R, ErrorInfo>,
) -> (RegistryView, Result<R, DbError>) {
    let (v1, g) = spec_get(v, pool, conn_reader, conn_writer);
    match g {
        Err(e) => (v1, Err(DbError::Pool(e))),
        Ok(rd) => (
            set_served(v1, rd.served_by, spec_release(served_view(v1, rd.served_by))),
            match run {
                Ok(rows) => Ok(rows),
                Err(e) => Err(DbError::Query(e)),
            },
        ),
    }
}

/// Runs a statement once against the routed pool and surfaces every failure
/// unclassified. The statement cache is not consulted and not changed.
pub fn query<R>(
    reg: &mut PoolRegistry,
    pool: PgPool,
    conn_reader: ConnectReply,
    conn_writer: ConnectReply,
    run: Result<R, ErrorInfo>,
) -> (r: Result<R, DbError>)
    requires
        old(reg).wf(),
    ensures
        final(reg).wf(),
        (final(reg)@, r) == spec_query(old(reg)@, pool, conn_reader, conn_writer, run),
{
    let rd = match reg.get(pool, conn_reader, conn_writer) {
        Ok(rd) => rd,
        Err(e) => {
            return Err(DbError::Pool(e));
        },
    };
    match rd.served_by {
        PgPool::Writer => reg.writer.release(),
        PgPool::Reader => match &mut reg.reader {
            Some(h) => h.release(),
            None => unreached(),
        },
    }
    match run {
        Ok(rows) => Ok(rows),
        Err(e) => Err(DbError::Query(e)),
    }
}

/// Runs a prepare-by-text query with routing, fallback and single-shot
/// statement recovery. The connection is released on every path.
pub fn query_pp<R>(
    reg: &mut PoolRegistry,
    pool: PgPool,
    sql: &str,
    types: &Vec<u32>,
    replies: ServerReplies<R>,
) -> (r: Result<R, DbError>)
    requires
        old(reg).wf(),
        handles_available(old(reg)@),
    ensures
        final(reg).wf(),
        (final(reg)@, r) == spec_query_pp(old(reg)@, pool, sql@, types@, replies),
{
    let ServerReplies {
        connect_reader,
        connect_writer,
        prepare_first,
        run_first,
        prepare_retry,
        run_retry,
    } = replies;
    let rd = match reg.get(pool, connect_reader, connect_writer) {
        Ok(rd) => rd,
        Err(e) => {
            return Err(DbError::Pool(e));
        },
    };
    match rd.served_by {
        PgPool::Writer => {
            let res = run_recovering(
                &mut reg.writer,
                sql,
                types,
                prepare_first,
                run_first,
                prepare_retry,
                run_retry,
            );
            reg.writer.release();
            res
        },
        PgPool::Reader => match &mut reg.reader {
            Some(h) => {
                let res = run_recovering(
                    h,
                    sql,
                    types,
                    prepare_first,
                    run_first,
                    prepare_retry,
                    run_retry,
                );
                h.release();
                res
            },
            None => unreached(),
        },
    }
}

/// The single-row variant of `query_pp`. The routing, caching and recovery
/// protocol is the same; only the run primitive the lower layer uses (fetch
/// one row rather than all rows) differs, and that difference lives in the
/// reply values.
pub fn query_one_pp<R>(
    reg: &mut PoolRegistry,
    pool: PgPool,
    sql: &str,
    types: &Vec<u32>,
    replies: ServerReplies<R>,
) -> (r: Result<R, DbError>)
    requires
        old(reg).wf(),
        handles_available(old(reg)@),
    ensures
        final(reg).wf(),
        (final(reg)@, r) == spec_query_pp(old(reg)@, pool, sql@, types@, replies),
{
    query_pp(reg, pool, sql, types, replies)
}

/// With a reader present, fallback enabled, and a reader that cannot hand
/// out a connection, a read-classified query is served by the writer:
/// registry state and result are exactly those of issuing the same query
/// against the writer directly, and the reader is left as it was.
pub proof fn lemma_read_falls_back_to_writer<R>(
    v: RegistryView,
    sql: Seq<char>,
    types: Seq<u32>,
    replies: ServerReplies<R>,
)
    requires
        v.reader is Some,
        v.fallback,
        crate::pool::spec_acquire(v.reader->0, replies.connect_reader).1 is Err,
    ensures
        ({
            let (v1, r1) = spec_query_pp(v, PgPool::Reader, sql, types, replies);
            let (v2, r2) = spec_query_pp(v, PgPool::Writer, sql, types, replies);
            &&& r1 == r2
            &&& v1.writer == v2.writer
            &&& v1.reader == v.reader
            &&& v1.fallback == v.fallback
        }),
{
}

/// With fallback disabled and a reader that cannot hand out a connection, a
/// read-classified query fails with the reader's own acquisition error, and
/// the writer is never contacted: its state is untouched.
pub proof fn lemma_read_fails_without_fallback<R>(
    v: RegistryView,
    sql: Seq<char>,
    types: Seq<u32>,
    replies: ServerReplies<R>,
)
    requires
        v.reader is Some,
        !v.fallback,
        crate::pool::spec_acquire(v.reader->0, replies.connect_reader).1 is Err,
    ensures
        ({
            let (v1, r) = spec_query_pp(v, PgPool::Reader, sql, types, replies);
            &&& r == Err::<R, DbError>(
                DbError::Pool(
                    crate::pool::spec_acquire(v.reader->0, replies.connect_reader).1->Err_0,
                ),
            )
            &&& v1.writer == v.writer
            &&& v1.reader == v.reader
            &&& v1.fallback == v.fallback
        }),
{
}

/// The prepare-by-text entry points recover transparently from a
/// server-invalidated prepared statement: when the first prepare is
/// accepted, the first run fails as stale, and the backend accepts the
/// re-prepare and the re-run, the call succeeds with the retry's result, and
/// the pool's cache afterwards holds exactly one entry for the statement — a
/// fresh one, newer than every handle issued before the failure.
pub proof fn lemma_recovers_from_stale<R>(
    p: PoolView,
    sql: Seq<char>,
    types: Seq<u32>,
    prepare_first: PrepareReply,
    e: ErrorInfo,
    rows: R,
)
    requires
        crate::pool::pool_inv(p),
        spec_prepare(p, sql, types, prepare_first).1 is Ok,
        spec_is_stale(e),
    ensures
        ({
            let (p2, r) = spec_run_recovering(
                p,
                sql,
                types,
                prepare_first,
                Err(e),
                PrepareReply::Prepared,
                Ok(rows),
            );
            &&& r == Ok::<R, DbError>(rows)
            &&& p2.cache == Map::<(Seq<char>, Seq<u32>), int>::empty().insert(
                (sql, types),
                p2.next_statement - 1,
            )
            &&& p2.cache[(sql, types)] >= p.next_statement
            &&& crate::pool::pool_inv(p2)
        }),
{
    let (p1, _pr1) = spec_prepare(p, sql, types, prepare_first);
    let emptied = spec_invalidate(p1);
    let (p2, _pr2) = spec_prepare(emptied, sql, types, PrepareReply::Prepared);
    assert(p2.cache =~= Map::<(Seq<char>, Seq<u32>), int>::empty().insert(
        (sql, types),
        p2.next_statement - 1,
    ));
}

/// A second consecutive failure, after the one allowed retry, is surfaced to
/// the caller and not retried again: whatever the retried run reports — even
/// a failure that would itself classify as stale — comes back as the result.
pub proof fn lemma_second_failure_surfaced<R>(
    p: PoolView,
    sql: Seq<char>,
    types: Seq<u32>,
    prepare_first: PrepareReply,
    e1: ErrorInfo,
    prepare_retry: PrepareReply,
    e2: ErrorInfo,
)
    requires
        spec_prepare(p, sql, types, prepare_first).1 is Ok,
        spec_is_stale(e1),
        spec_prepare(
            spec_invalidate(spec_prepare(p, sql, types, prepare_first).0),
            sql,
            types,
            prepare_retry,
        ).1 is Ok,
    ensures
        spec_run_recovering::<R>(
            p,
            sql,
            types,
            prepare_first,
            Err(e1),
            prepare_retry,
            Err(e2),
        ).1 == Err::<R, DbError>(DbError::Query(e2)),
{
}

/// A sequence of characters wrapped in single quotes.
pub open spec fn spec_quoted(s: Seq<char>) -> Seq<char> {
    seq!['\''] + s + seq!['\'']
}

/// The items each wrapped in single quotes and joined with commas, as SQL
/// list syntax wants them.
pub open spec fn spec_quoted_list(items: Seq<Seq<char>>) -> Seq<char>
    decreases items.len(),
{
    if items.len() == 0 {
        Seq::empty()
    } else if items.len() == 1 {
        spec_quoted(items[0])
    } else {
        spec_quoted_list(items.drop_last()) + seq![','] + spec_quoted(items.last())
    }
}

/// Renders the values as a comma-separated list of single-quoted items.
pub fn vec2string(v: &Vec<String>) -> (r: String)
    ensures
        r@ == spec_quoted_list(v.deep_view()),
{
    proof {
        reveal_strlit("'");
        reveal_strlit(",");
        assert("'"@ =~= seq!['\'']);
        assert(","@ =~= seq![',']);
    }
    let mut r = String::new();
    let mut i: usize = 0;
    while i < v.len()
        invariant
            i <= v.len(),
            v.deep_view().len() == v.len(),
            forall|j: int| 0 <= j < v.len() ==> v.deep_view()[j] == v@[j]@,
            r@ == spec_quoted_list(v.deep_view().subrange(0, i as int)),
            "'"@ == seq!['\''],
            ","@ == seq![','],
        decreases v.len() - i,
    {
        if i > 0 {
            r.append(",");
        }
        r.append("'");
        r.append(v[i].as_str());
        r.append("'");
        proof {
            let items = v.deep_view();
            let prefix = items.subrange(0, (i + 1) as int);
            assert(prefix.drop_last() =~= items.subrange(0, i as int));
            assert(prefix.last() == items[i as int]);
            if i == 0 {
                assert(r@ =~= spec_quoted_list(prefix));
            } else {
                assert(r@ =~= spec_quoted_list(prefix));
            }
        }
        i += 1;
    }
    proof {
        assert(v.deep_view().subrange(0, v.len() as int) =~= v.deep_view());
    }
    r
}

} // verus!
