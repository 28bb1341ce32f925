//! The error taxonomy of the access layer, and the classifier that decides
//! which backend failures are recovered by a retry and which are terminal.

use vstd::prelude::*;

verus! {

/// What the backend reported about a failed prepare or run: whether the
/// connection was found closed, and the five-byte SQLSTATE code, if any.
#[derive(Debug, Clone, PartialEq)]
pub struct ErrorInfo {
    pub closed: bool,
    pub code: Option<Vec<u8>>,
}

/// Errors of connection acquisition.
#[derive(Debug, Clone, Copy, PartialEq, Eq, Structural)]
pub enum PoolError {
    /// No connection became available within the acquire budget.
    Timeout,
    /// The endpoint refused or dropped the attempt to open a connection.
    Unreachable,
    /// The pool was closed; acquiring after shutdown is a lifecycle bug.
    Closed,
}

/// Every failure a query entry point can surface to its caller.
#[derive(Debug, Clone, PartialEq)]
pub enum DbError {
    /// No connection could be acquired, not even through fallback.
    Pool(PoolError),
    /// The backend rejected the prepare; never retried.
    Prepare(ErrorInfo),
    /// The run failed terminally, or the one allowed retry failed too.
    Query(ErrorInfo),
}

/// How a run failure is treated by the recovery coordinator.
#[derive(Debug, Clone, Copy, PartialEq, Eq, Structural)]
pub enum FailureClass {
    /// The backend no longer recognizes the prepared statement, or the
    /// connection was found closed: recovered by one re-prepare and re-run.
    Stale,
    /// Everything else is surfaced to the caller unchanged.
    Terminal,
}

/// The SQLSTATE code with which the backend rejects an unknown prepared
/// statement id: `26000`, in ASCII bytes.
pub open spec fn stale_statement_code() -> Seq<u8> {
    seq![50u8, 54u8, 48u8, 48u8, 48u8]
}

/// A failure is recoverable exactly when the connection was found closed or
/// the backend answered with the stale-statement code. Unknown codes default
/// to terminal, so a new failure mode is never masked as recoverable.
pub open spec fn spec_is_stale(e: ErrorInfo) -> bool {
    ||| e.closed
    ||| (e.code matches Some(c) && c@ == stale_statement_code())
}

pub open spec fn spec_classify(e: ErrorInfo) -> FailureClass {
    if spec_is_stale(e) {
        FailureClass::Stale
    } else {
        FailureClass::Terminal
    }
}

/// Decides whether a run failure is recoverable.
pub fn is_stale(e: &ErrorInfo) -> (r: bool)
    ensures
        r == spec_is_stale(*e),
{
    if e.closed {
        return true;
    }
    match &e.code {
        None => false,
        Some(c) => {
            if c.len() != 5 {
                proof {
                    assert(c@ !~= stale_statement_code());
                }
                return false;
            }
            let r = *c.get(0).unwrap() == 50 && *c.get(1).unwrap() == 54 && *c.get(2).unwrap() == 48
                && *c.get(3).unwrap() == 48 && *c.get(4).unwrap() == 48;
            proof {
                if r {
                    assert(c@ =~= stale_statement_code());
                } else {
                    assert(c@ !~= stale_statement_code());
                }
            }
            r
        },
    }
}

/// Maps a backend failure to the taxonomy: stale statements are recovered
/// once, everything else is terminal.
pub fn classify(e: &ErrorInfo) -> (r: FailureClass)
    ensures
        r == spec_classify(*e),
{
    if is_stale(e) {
        FailureClass::Stale
    } else {
        FailureClass::Terminal
    }
}

} // verus!
