use pg_pool::errors::{is_stale, classify, DbError, ErrorInfo, FailureClass, PoolError};
use pg_pool::pool::{create_pool, ConnectReply, PoolHandle, PrepareReply};
use pg_pool::schema::DbConf;

fn stale_code() -> Vec<u8> {
    b"26000".to_vec()
}

fn small_pool(max: usize) -> PoolHandle {
    let mut db = DbConf::default();
    db.pool_max = Some(max);
    create_pool(&db, false)
}

#[test]
fn classifier_accepts_stale_statement_code() {
    let e = ErrorInfo { closed: false, code: Some(stale_code()) };
    assert!(is_stale(&e));
    assert_eq!(classify(&e), FailureClass::Stale);
}

#[test]
fn classifier_accepts_closed_connection() {
    let e = ErrorInfo { closed: true, code: None };
    assert!(is_stale(&e));
    assert_eq!(classify(&e), FailureClass::Stale);
}

#[test]
fn classifier_defaults_unknown_codes_to_terminal() {
    let undefined_table = ErrorInfo { closed: false, code: Some(b"42P01".to_vec()) };
    assert_eq!(classify(&undefined_table), FailureClass::Terminal);
    let no_code = ErrorInfo { closed: false, code: None };
    assert_eq!(classify(&no_code), FailureClass::Terminal);
    let short_code = ErrorInfo { closed: false, code: Some(b"26".to_vec()) };
    assert_eq!(classify(&short_code), FailureClass::Terminal);
}

#[test]
fn pool_never_exceeds_its_bound() {
    let mut pool = small_pool(3);
    assert_eq!(pool.acquire(ConnectReply::Connected), Ok(()));
    assert_eq!(pool.acquire(ConnectReply::Connected), Ok(()));
    assert_eq!(pool.acquire(ConnectReply::Connected), Ok(()));
    assert_eq!(pool.checked_out, 3);
    assert_eq!(pool.acquire(ConnectReply::Connected), Err(PoolError::Timeout));
    assert_eq!(pool.checked_out, 3);
    pool.release();
    assert_eq!(pool.acquire(ConnectReply::Connected), Ok(()));
    assert_eq!(pool.checked_out, 3);
}

#[test]
fn interleaved_acquire_release_stays_bounded() {
    let mut pool = small_pool(4);
    let mut held: usize = 0;
    for step in 0..100 {
        if step % 3 == 0 && held > 0 {
            pool.release();
            held -= 1;
        } else {
            match pool.acquire(ConnectReply::Connected) {
                Ok(()) => held += 1,
                Err(e) => assert_eq!(e, PoolError::Timeout),
            }
        }
        assert!(pool.checked_out <= 4);
        assert_eq!(pool.checked_out, held);
    }
}

#[test]
fn pool_size_defaults_to_one() {
    let mut pool = create_pool(&DbConf::default(), false);
    assert_eq!(pool.settings.max_connections, 1);
    assert_eq!(pool.acquire(ConnectReply::Connected), Ok(()));
    assert_eq!(pool.acquire(ConnectReply::Connected), Err(PoolError::Timeout));
}

#[test]
fn unreachable_endpoint_surfaces_as_such() {
    let mut pool = small_pool(2);
    assert_eq!(pool.acquire(ConnectReply::Refused), Err(PoolError::Unreachable));
    assert_eq!(pool.checked_out, 0);
}

#[test]
fn closed_pool_refuses_acquisition() {
    let mut pool = small_pool(2);
    assert_eq!(pool.acquire(ConnectReply::Connected), Ok(()));
    pool.close();
    assert_eq!(pool.checked_out, 0);
    assert_eq!(pool.acquire(ConnectReply::Connected), Err(PoolError::Closed));
}

#[test]
fn prepare_cached_returns_same_handle_until_invalidated() {
    let mut pool = small_pool(1);
    let types = vec![20u32];
    let first = pool.prepare_typed_cached("SELECT 1 + $1", &types, PrepareReply::Prepared);
    let h = first.expect("fresh prepare accepted");
    // A second call hits the cache: the backend is not consulted, so even a
    // reply that would reject the prepare cannot change the outcome.
    let rejected = PrepareReply::Rejected(ErrorInfo { closed: false, code: None });
    let second = pool.prepare_typed_cached("SELECT 1 + $1", &types, rejected);
    assert_eq!(second, Ok(h));
}

#[test]
fn prepare_cached_distinguishes_parameter_types() {
    let mut pool = small_pool(1);
    let int8 = vec![20u32];
    let int4 = vec![23u32];
    let a = pool
        .prepare_typed_cached("SELECT 1 + $1", &int8, PrepareReply::Prepared)
        .unwrap();
    let b = pool
        .prepare_typed_cached("SELECT 1 + $1", &int4, PrepareReply::Prepared)
        .unwrap();
    assert_ne!(a, b);
}

#[test]
fn rejected_prepare_is_surfaced_and_not_cached() {
    let mut pool = small_pool(1);
    let types = vec![20u32];
    let e = ErrorInfo { closed: false, code: Some(b"42601".to_vec()) };
    let r = pool.prepare_typed_cached("SELEC 1", &types, PrepareReply::Rejected(e.clone()));
    assert_eq!(r, Err(e));
    // Nothing was cached: a later accepted prepare is a fresh one.
    let again = pool.prepare_typed_cached("SELEC 1", &types, PrepareReply::Prepared);
    assert!(again.is_ok());
}

#[test]
fn invalidate_forces_fresh_prepare() {
    let mut pool = small_pool(1);
    let types = vec![20u32];
    let h1 = pool
        .prepare_typed_cached("SELECT 1 + $1", &types, PrepareReply::Prepared)
        .unwrap();
    pool.invalidate_statement_cache();
    // The miss is observable: a rejected reply now fails, where a cached
    // entry would have answered without consulting the backend.
    let rejected = PrepareReply::Rejected(ErrorInfo { closed: true, code: None });
    assert!(pool
        .prepare_typed_cached("SELECT 1 + $1", &types, rejected)
        .is_err());
    let h2 = pool
        .prepare_typed_cached("SELECT 1 + $1", &types, PrepareReply::Prepared)
        .unwrap();
    assert_ne!(h1, h2);
}

#[test]
fn settings_take_timeouts_from_fallback_policy() {
    let mut db = DbConf::default();
    db.timeout = Some(250);
    let with_fallback = create_pool(&db, true);
    assert_eq!(with_fallback.settings.timeouts.wait_ms, Some(250));
    assert_eq!(with_fallback.settings.timeouts.create_ms, Some(900));
    assert_eq!(with_fallback.settings.timeouts.recycle_ms, Some(1500));
    let without = create_pool(&db, false);
    assert_eq!(without.settings.timeouts.wait_ms, Some(250));
    assert_eq!(without.settings.timeouts.create_ms, None);
    assert_eq!(without.settings.timeouts.recycle_ms, None);
    let defaulted = create_pool(&DbConf::default(), false);
    assert_eq!(defaulted.settings.timeouts.wait_ms, Some(500));
}

#[test]
fn error_taxonomy_is_reported_distinctly() {
    let pool_err = DbError::Pool(PoolError::Timeout);
    let prep_err = DbError::Prepare(ErrorInfo { closed: false, code: None });
    let query_err = DbError::Query(ErrorInfo { closed: false, code: Some(stale_code()) });
    assert_ne!(pool_err, prep_err);
    assert_ne!(prep_err, query_err);
    assert_ne!(pool_err, query_err);
}
