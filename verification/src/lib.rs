//! A small service framework core: a sharded asynchronous query-execution
//! layer over a relational database (dispatcher, per-connection worker policy,
//! LRU statement cache, typed row decoding, JSON result views), together with
//! the HTTP response/router plumbing that surrounds it.
//!
//! The asynchronous shells (socket handling, the database driver's I/O) live
//! outside this library; everything here is verified.

pub mod actor;
pub mod database;
pub mod db_connection;
pub mod db_value;
pub mod error;
pub mod http_error;
pub mod http_status;
pub mod lru_cache;
pub mod path_tree;
pub mod permits;
pub mod pg_type;
pub mod response;
pub mod router;
pub mod row_set;
pub mod row_value;
pub mod sql_args;
pub mod worker;
pub mod temporal;
pub mod textfmt;

pub use actor::{ActorMessage, PgActor, PgOptions};
pub use database::{Database, DatabaseOptions, DbCommand};
pub use db_connection::DbConnection;
pub use db_value::{DbValue, NativeColumn, NativeRow, NativeScalar};
pub use error::DatabaseError;
pub use http_error::HttpError;
pub use http_status::HttpStatus;
pub use lru_cache::LruCache;
pub use path_tree::{PathMatch, PathTree, Segment};
pub use permits::PermitCounter;
pub use pg_type::PgType;
pub use response::{IntoResponse, Response};
pub use router::{HttpMethod, Routable, Route, Router, RouterError};
pub use row_set::{RowSet, RowSetAsObjects};
pub use row_value::RowValue;
pub use sql_args::SqlArg;
pub use temporal::{PgDate, PgTime, PgTimestamp};
pub use worker::Worker;
