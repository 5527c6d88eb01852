//! The error taxonomy threading through the query-execution layer. Each
//! variant carries plain data; the conversion from the native driver's error
//! values into these happens where those values arise, in the runtime shell.

use vstd::prelude::*;
use vstd::string::StringExecFns;

verus! {

/// Why a query failed.
#[derive(Debug, Clone, PartialEq, Eq)]
pub enum DatabaseError {
    /// The target shard's inbound queue rejected the command: its worker
    /// has terminated or the pool is shutting down.
    PoolClosed,
    /// The worker accepted the command but dropped the reply slot without
    /// answering; the query may or may not have executed.
    NoResponse,
    /// A lower-level I/O failure in the connection, with its description.
    Transport(String),
    /// A native server or protocol error, rendered with the server's
    /// diagnostic message when one was available.
    Postgres(String),
}

impl DatabaseError {
    /// The human-readable description of this error.
    pub open spec fn spec_message(self) -> Seq<char> {
        match self {
            DatabaseError::PoolClosed => (
            "database connection pool is closed or shutting down: channel closed")@,
            DatabaseError::NoResponse => "database worker terminated without responding"@,
            DatabaseError::Transport(m) => "database transport layer error: "@ + m@,
            DatabaseError::Postgres(m) => m@,
        }
    }

    pub fn message(&self) -> (r: String)
        ensures
            r@ == self.spec_message(),
    {
        match self {
            DatabaseError::PoolClosed => String::from_str(
                "database connection pool is closed or shutting down: channel closed",
            ),
            DatabaseError::NoResponse => String::from_str(
                "database worker terminated without responding",
            ),
            DatabaseError::Transport(m) => {
                let mut s = String::from_str("database transport layer error: ");
                s.append(m.as_str());
                s
            },
            DatabaseError::Postgres(m) => m.clone(),
        }
    }
}

} // verus!
