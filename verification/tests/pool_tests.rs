use forge::actor::{PgActor, PgOptions};
use forge::database::{Database, DatabaseOptions};
use forge::error::DatabaseError;
use forge::row_set::RowSet;
use forge::worker::Worker;

fn options(threads: usize, inflight: usize) -> DatabaseOptions {
    DatabaseOptions {
        url: "postgres://localhost/app".to_string(),
        threads,
        inflight_per_conn: inflight,
    }
}

#[test]
fn test_round_robin_counts_are_fair() {
    let mut db = Database::new(&options(3, 4));
    let mut counts = [0usize; 3];
    for _ in 0..10 {
        counts[db.next_shard()] += 1;
    }
    assert_eq!(counts, [4, 3, 3]);
}

#[test]
fn test_round_robin_cycles_in_order() {
    let mut db = Database::new(&options(2, 1));
    let picked: Vec<usize> = (0..6).map(|_| db.next_shard()).collect();
    assert_eq!(picked, vec![0, 1, 0, 1, 0, 1]);
}

#[test]
fn test_closed_pool_rejects_queries() {
    let outcome = Database::resolve_reply(false, None);
    assert_eq!(outcome, Err(DatabaseError::PoolClosed));
}

#[test]
fn test_silent_worker_is_no_response() {
    let outcome = Database::resolve_reply(true, None);
    assert_eq!(outcome, Err(DatabaseError::NoResponse));
}

#[test]
fn test_worker_reply_passes_through() {
    let empty = RowSet { columns: vec![], rows: vec![] };
    let outcome = Database::resolve_reply(true, Some(Ok(empty.clone())));
    assert_eq!(outcome, Ok(empty));

    let failure = DatabaseError::Postgres("relation does not exist".to_string());
    let outcome = Database::resolve_reply(true, Some(Err(failure.clone())));
    assert_eq!(outcome, Err(failure));
}

#[test]
fn test_actor_twin_routes_the_same_way() {
    let mut actor = PgActor::new(&PgOptions {
        pool_size: 2,
        database_url: "postgres://localhost/app".to_string(),
        inflight_per_conn: 1,
    });
    let picked: Vec<usize> = (0..4).map(|_| actor.next_shard()).collect();
    assert_eq!(picked, vec![0, 1, 0, 1]);
    assert_eq!(
        PgActor::resolve_reply(false, None),
        Err(DatabaseError::PoolClosed)
    );
}

#[test]
fn test_worker_admission_is_bounded() {
    let mut worker: Worker<u64> = Worker::new(1);
    assert!(worker.try_admit());
    assert!(!worker.try_admit());
    worker.finish_one();
    assert!(worker.try_admit());
}

#[test]
fn test_worker_admits_up_to_the_limit() {
    let mut worker: Worker<u64> = Worker::new(3);
    assert!(worker.try_admit());
    assert!(worker.try_admit());
    assert!(worker.try_admit());
    assert!(!worker.try_admit());
}

#[test]
fn test_worker_statement_cache_roundtrip() {
    let mut worker: Worker<u64> = Worker::new(2);
    let query = "SELECT * FROM users".to_string();
    assert_eq!(worker.cached_statement(&query), None);
    worker.store_statement(query.clone(), 99);
    assert_eq!(worker.cached_statement(&query), Some(99));
}

#[test]
fn test_error_messages() {
    assert_eq!(
        DatabaseError::PoolClosed.message(),
        "database connection pool is closed or shutting down: channel closed"
    );
    assert_eq!(
        DatabaseError::NoResponse.message(),
        "database worker terminated without responding"
    );
    assert_eq!(
        DatabaseError::Transport("broken pipe".to_string()).message(),
        "database transport layer error: broken pipe"
    );
    assert_eq!(
        DatabaseError::Postgres("syntax error".to_string()).message(),
        "syntax error"
    );
}
