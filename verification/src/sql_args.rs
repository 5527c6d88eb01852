//! Bound query parameters: the closed set of value shapes a caller can
//! hand over with a query. Each variant maps to exactly one native bind
//! type; the binding itself — turning these plain values into the driver's
//! parameter representation — happens in the runtime shell.

use crate::temporal::{PgDate, PgTimestamp};
use vstd::prelude::*;

verus! {

/// One bound parameter.
#[derive(Debug, Clone, PartialEq, Eq)]
pub enum SqlArg {
    Null,
    Bool(bool),
    Integer(i64),
    /// A 64-bit float, carried as its raw bit pattern.
    Float(u64),
    Binary(Vec<u8>),
    /// A JSON document, as its serialized text.
    Json(String),
    Text(String),
    /// A zone-aware timestamp, normalized to UTC.
    Timestamp(PgTimestamp),
    Date(PgDate),
    /// A UUID, as its 128-bit number.
    Uuid(u128),
}

impl SqlArg {
    pub open spec fn wf(self) -> bool {
        match self {
            SqlArg::Timestamp(ts) => ts.wf(),
            SqlArg::Date(d) => d.wf(),
            _ => true,
        }
    }
}

} // verus!
