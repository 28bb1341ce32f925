//! The pool registry and the router: exactly one writer pool, an optional
//! reader pool, and the rule that picks which of them serves an operation —
//! including the one-shot degradation of read traffic to the writer when the
//! reader cannot hand out a connection and the operator opted in.

use vstd::prelude::*;

verus! {

use crate::errors::PoolError;
use crate::pool::{
    create_pool, fresh_pool, settings_match, spec_acquire, ConnectReply, PoolHandle, PoolView,
};
use crate::schema::BackendConfig;

/// The two logical pools a request can be served from.
#[derive(Debug, Clone, Copy, PartialEq, Eq, Structural)]
pub enum PgPool {
    Writer,
    Reader,
}

/// How an operation is classified for routing: writes must reach the
/// primary, reads may be served by the replica.
#[derive(Debug, Clone, Copy, PartialEq, Eq, Structural)]
pub enum OpClass {
    Write,
    Read,
}

/// Which pool actually served a request, and whether that was a degradation
/// from an unavailable reader to the writer. Observability data, not a
/// correctness input.
#[derive(Debug, Clone, Copy, PartialEq, Eq, Structural)]
pub struct RoutingDecision {
    pub served_by: PgPool,
    pub fell_back: bool,
}

/// The process-wide pair of pools: the mandatory writer, the optional
/// reader, and the operator's fallback policy.
#[derive(Debug)]
pub struct PoolRegistry {
    pub writer: PoolHandle,
    pub reader: Option<PoolHandle>,
    pub fallback: bool,
}

/// The abstract state of the registry: both pools' states and the policy.
pub struct RegistryView {
    pub writer: PoolView,
    pub reader: Option<PoolView>,
    pub fallback: bool,
}

impl View for PoolRegistry {
    type V = RegistryView;

    open spec fn view(&self) -> RegistryView {
        RegistryView {
            writer: self.writer@,
            reader: match self.reader {
                Some(r) => Some(r@),
                None => None,
            },
            fallback: self.fallback,
        }
    }
}

/// Reader fallback is in force exactly when a replica is configured and its
/// record opts in.
pub open spec fn fallback_configured(c: BackendConfig) -> bool {
    c.dbr matches Some(d) && d.fallback
}

/// Which pool a `Write` or `Read` operation is routed to: writes always to
/// the writer, reads to the reader when one exists, else to the writer.
pub open spec fn spec_route(v: RegistryView, op: OpClass) -> PgPool {
    match op {
        OpClass::Write => PgPool::Writer,
        OpClass::Read => if v.reader is Some {
            PgPool::Reader
        } else {
            PgPool::Writer
        },
    }
}

/// What acquiring through the router does, for every reply of the lower
/// layer. A request for the writer, or any request when no reader exists,
/// acquires from the writer. A request for the reader acquires from the
/// reader; if that fails and fallback is enabled, the writer is tried exactly
/// once, and the decision records the degradation; if fallback is disabled,
/// the reader's own error is surfaced and the writer is never touched.
pub open spec fn spec_get(
    v: RegistryView,
    pool: PgPool,
    conn_reader: ConnectReply,
    conn_writer: ConnectReply,
) -> (RegistryView, Result<RoutingDecision, PoolError>) {
    if pool == PgPool::Writer || v.reader is None {
        let (w, a) = spec_acquire(v.writer, conn_writer);
        (
            RegistryView { writer: w, ..v },
            match a {
                Ok(_) => Ok(RoutingDecision { served_by: PgPool::Writer, fell_back: false }),
                Err(e) => Err(e),
            },
        )
    } else {
        let (r, a) = spec_acquire(v.reader->0, conn_reader);
        let v1 = RegistryView { reader: Some(r), ..v };
        match a {
            Ok(_) => (v1, Ok(RoutingDecision { served_by: PgPool::Reader, fell_back: false })),
            Err(e) => if v.fallback {
                let (w, b) = spec_acquire(v.writer, conn_writer);
                (
                    RegistryView { writer: w, ..v1 },
                    match b {
                        Ok(_) => Ok(
                            RoutingDecision { served_by: PgPool::Writer, fell_back: true },
                        ),
                        Err(e2) => Err(e2),
                    },
                )
            } else {
                (v1, Err(e))
            },
        }
    }
}

impl PoolRegistry {
    pub open spec fn wf(&self) -> bool {
        &&& self.writer.wf()
        &&& (self.reader matches Some(r) ==> r.wf())
    }

    /// Builds both pools from the configuration: the writer from the
    /// mandatory record, the reader only when a replica record is present —
    /// never partially. The fallback policy is the replica record's flag.
    pub fn new(conf: &BackendConfig) -> (r: PoolRegistry)
        ensures
            r.wf(),
            settings_match(r.writer.settings, conf.db, fallback_configured(*conf)),
            fresh_pool(r@.writer, conf.db.pool_max.unwrap_or(1) as int),
            r.reader is Some <==> conf.dbr is Some,
            conf.dbr matches Some(d) ==> (r.reader matches Some(h) && settings_match(
                h.settings,
                d,
                fallback_configured(*conf),
            ) && fresh_pool(h@, d.pool_max.unwrap_or(1) as int)),
            r.fallback == fallback_configured(*conf),
    {
        let fb = match &conf.dbr {
            Some(d) => d.fallback,
            None => false,
        };
        let writer = create_pool(&conf.db, fb);
        let reader = match &conf.dbr {
            Some(d) => Some(create_pool(d, fb)),
            None => None,
        };
        PoolRegistry { writer, reader, fallback: fb }
    }

    /// The single writer handle.
    pub fn writer(&self) -> (w: &PoolHandle)
        ensures
            w == &self.writer,
    {
        &self.writer
    }

    /// The reader handle, or nothing when no replica is configured.
    pub fn reader(&self) -> (r: Option<&PoolHandle>)
        ensures
            match r {
                Some(h) => self.reader matches Some(x) && h == &x,
                None => self.reader is None,
            },
    {
        match &self.reader {
            Some(h) => Some(h),
            None => None,
        }
    }

    /// Routes an operation class to a pool: writes to the writer, reads to
    /// the reader when one exists.
    pub fn route(&self, op: OpClass) -> (p: PgPool)
        ensures
            p == spec_route(self@, op),
    {
        match op {
            OpClass::Write => PgPool::Writer,
            OpClass::Read => if self.reader.is_some() {
                PgPool::Reader
            } else {
                PgPool::Writer
            },
        }
    }

    /// Acquires a connection from the requested pool, degrading a failed
    /// reader acquisition to the writer exactly once when fallback is
    /// enabled. The decision reports which pool actually served.
    pub fn get(&mut self, pool: PgPool, conn_reader: ConnectReply, conn_writer: ConnectReply) -> (r:
        Result<RoutingDecision, PoolError>)
        requires
            old(self).wf(),
        ensures
            final(self).wf(),
            (final(self)@, r) == spec_get(old(self)@, pool, conn_reader, conn_writer),
            final(self).fallback == old(self).fallback,
    {
        if pool == PgPool::Writer || self.reader.is_none() {
            match self.writer.acquire(conn_writer) {
                Ok(()) => Ok(RoutingDecision { served_by: PgPool::Writer, fell_back: false }),
                Err(e) => Err(e),
            }
        } else {
            let result = match &mut self.reader {
                Some(r) => r.acquire(conn_reader),
                None => unreached(),
            };
            match result {
                Ok(()) => Ok(RoutingDecision { served_by: PgPool::Reader, fell_back: false }),
                Err(e) => {
                    if self.fallback {
                        match self.writer.acquire(conn_writer) {
                            Ok(()) => Ok(
                                RoutingDecision { served_by: PgPool::Writer, fell_back: true },
                            ),
                            Err(e2) => Err(e2),
                        }
                    } else {
                        Err(e)
                    }
                },
            }
        }
    }

    /// Drains and closes both pools at shutdown.
    pub fn close(&mut self)
        requires
            old(self).wf(),
        ensures
            final(self).wf(),
            final(self)@.writer == crate::pool::spec_close(old(self)@.writer),
            old(self).reader is Some <==> final(self).reader is Some,
            old(self)@.reader matches Some(r) ==> final(self)@.reader == Some(
                crate::pool::spec_close(r),
            ),
            final(self).fallback == old(self).fallback,
    {
        self.writer.close();
        match &mut self.reader {
            Some(r) => r.close(),
            None => (),
        }
    }
}

} // verus!
