//! The typed cell decoder's twin under its row-value naming. It differs
//! from `DbValue` decoding in exactly one arm: numeric columns are not in
//! its textual set, so their values fall to the unrecognized default and
//! decode to null.

use crate::db_value::{spec_value_json, DbValue, NativeRow, NativeScalar};
use crate::pg_type::PgType;
use crate::temporal::{PgDate, PgTime, PgTimestamp};
use vstd::prelude::*;

verus! {

/// One decoded cell, as the row-value decoder produces them.
#[derive(Clone, Debug, PartialEq, Eq)]
pub enum RowValue {
    Null,
    Bool(bool),
    I64(i64),
    U64(u64),
    /// A floating-point cell, as its JSON number text.
    F64(String),
    Uuid(u128),
    /// A JSON document, as its serialized text.
    Json(String),
    Date(PgDate),
    Time(PgTime),
    Bytes(Vec<u8>),
    /// A textual cell.
    Text(String),
    Timestamp(PgTimestamp),
    TimestampTz(PgTimestamp),
}

/// The corresponding `DbValue`, shape for shape.
pub open spec fn spec_as_db_value(v: RowValue) -> DbValue {
    match v {
        RowValue::Null => DbValue::Null,
        RowValue::Bool(b) => DbValue::Bool(b),
        RowValue::I64(x) => DbValue::I64(x),
        RowValue::U64(x) => DbValue::U64(x),
        RowValue::F64(t) => DbValue::F64(t),
        RowValue::Uuid(x) => DbValue::Uuid(x),
        RowValue::Json(t) => DbValue::Json(t),
        RowValue::Date(d) => DbValue::Date(d),
        RowValue::Time(t) => DbValue::Time(t),
        RowValue::Bytes(b) => DbValue::Bytes(b),
        RowValue::Text(s) => DbValue::Text(s),
        RowValue::Timestamp(ts) => DbValue::Timestamp(ts),
        RowValue::TimestampTz(ts) => DbValue::TimestampTz(ts),
    }
}

/// This decoder's table: as the `DbValue` table, except that a numeric
/// column is not recognized here and its cells decode to null.
pub open spec fn spec_row_decode_cell(ty: PgType, v: NativeScalar) -> RowValue {
    match (ty, v) {
        (PgType::Bool, NativeScalar::Bool(b)) => RowValue::Bool(b),
        (PgType::Int2, NativeScalar::I16(x)) => RowValue::I64(x as i64),
        (PgType::Int4, NativeScalar::I32(x)) => RowValue::I64(x as i64),
        (PgType::Int8, NativeScalar::I64(x)) => RowValue::I64(x),
        (PgType::Oid, NativeScalar::U32(x)) => RowValue::U64(x as u64),
        (PgType::Float4, NativeScalar::F64(t)) => RowValue::F64(t),
        (PgType::Float8, NativeScalar::F64(t)) => RowValue::F64(t),
        (PgType::Uuid, NativeScalar::Uuid(x)) => RowValue::Uuid(x),
        (PgType::Json, NativeScalar::Json(t)) => RowValue::Json(t),
        (PgType::Jsonb, NativeScalar::Json(t)) => RowValue::Json(t),
        (PgType::Bytea, NativeScalar::Bytes(b)) => RowValue::Bytes(b),
        (PgType::Date, NativeScalar::Date(d)) => RowValue::Date(d),
        (PgType::Time, NativeScalar::Time(t)) => RowValue::Time(t),
        (PgType::Timestamp, NativeScalar::Timestamp(ts)) => RowValue::Timestamp(ts),
        (PgType::TimestampTz, NativeScalar::TimestampTz(ts)) => RowValue::TimestampTz(ts),
        (PgType::Text, NativeScalar::Text(s)) => RowValue::Text(s),
        (PgType::Varchar, NativeScalar::Text(s)) => RowValue::Text(s),
        (PgType::Bpchar, NativeScalar::Text(s)) => RowValue::Text(s),
        (PgType::Name, NativeScalar::Text(s)) => RowValue::Text(s),
        (PgType::Money, NativeScalar::Text(s)) => RowValue::Text(s),
        _ => RowValue::Null,
    }
}

/// The whole row decoded, cell by cell, in column order.
pub open spec fn spec_row_decode_row(row: NativeRow) -> Seq<RowValue> {
    Seq::new(row.values@.len(), |i: int| spec_row_decode_cell(row.columns@[i].ty, row.values@[i]))
}

impl RowValue {
    pub open spec fn wf(self) -> bool {
        match self {
            RowValue::Date(d) => d.wf(),
            RowValue::Time(t) => t.wf(),
            RowValue::Timestamp(ts) => ts.wf(),
            RowValue::TimestampTz(ts) => ts.wf(),
            _ => true,
        }
    }

    /// Decodes one cell per this decoder's table, consuming the scalar.
    pub fn decode_cell(ty: PgType, v: NativeScalar) -> (r: RowValue)
        ensures
            r == spec_row_decode_cell(ty, v),
            v.wf() ==> r.wf(),
    {
        match (ty, v) {
            (PgType::Bool, NativeScalar::Bool(b)) => RowValue::Bool(b),
            (PgType::Int2, NativeScalar::I16(x)) => RowValue::I64(x as i64),
            (PgType::Int4, NativeScalar::I32(x)) => RowValue::I64(x as i64),
            (PgType::Int8, NativeScalar::I64(x)) => RowValue::I64(x),
            (PgType::Oid, NativeScalar::U32(x)) => RowValue::U64(x as u64),
            (PgType::Float4, NativeScalar::F64(t)) => RowValue::F64(t),
            (PgType::Float8, NativeScalar::F64(t)) => RowValue::F64(t),
            (PgType::Uuid, NativeScalar::Uuid(x)) => RowValue::Uuid(x),
            (PgType::Json, NativeScalar::Json(t)) => RowValue::Json(t),
            (PgType::Jsonb, NativeScalar::Json(t)) => RowValue::Json(t),
            (PgType::Bytea, NativeScalar::Bytes(b)) => RowValue::Bytes(b),
            (PgType::Date, NativeScalar::Date(d)) => RowValue::Date(d),
            (PgType::Time, NativeScalar::Time(t)) => RowValue::Time(t),
            (PgType::Timestamp, NativeScalar::Timestamp(ts)) => RowValue::Timestamp(ts),
            (PgType::TimestampTz, NativeScalar::TimestampTz(ts)) => RowValue::TimestampTz(ts),
            (PgType::Text, NativeScalar::Text(s)) => RowValue::Text(s),
            (PgType::Varchar, NativeScalar::Text(s)) => RowValue::Text(s),
            (PgType::Bpchar, NativeScalar::Text(s)) => RowValue::Text(s),
            (PgType::Name, NativeScalar::Text(s)) => RowValue::Text(s),
            (PgType::Money, NativeScalar::Text(s)) => RowValue::Text(s),
            _ => RowValue::Null,
        }
    }

    /// Decodes every cell of one native row, preserving column order.
    pub fn decode_row(row: NativeRow) -> (r: Vec<RowValue>)
        requires
            row.wf(),
        ensures
            r@ == spec_row_decode_row(row),
            forall|i: int| 0 <= i < r@.len() ==> (#[trigger] r@[i]).wf(),
    {
        let NativeRow { columns, values } = row;
        let n: usize = values.len();
        let mut vals: Vec<NativeScalar> = values;
        let mut r: Vec<RowValue> = Vec::new();
        let mut i: usize = 0;
        while i < n
            invariant
                i <= n,
                n == row.values@.len(),
                row.wf(),
                columns@ == row.columns@,
                vals@ == row.values@.skip(i as int),
                r@.len() == i,
                forall|j: int| 0 <= j < i ==> r@[j] == spec_row_decode_row(row)[j],
                forall|j: int| 0 <= j < i ==> (#[trigger] r@[j]).wf(),
            decreases n - i,
        {
            let v: NativeScalar = vals.remove(0);
            proof {
                assert(v == row.values@[i as int]);
                assert(vals@ =~= row.values@.skip(i + 1 as int));
            }
            let cell = RowValue::decode_cell(columns[i].ty, v);
            r.push(cell);
            i = i + 1;
        }
        proof {
            assert(r@ =~= spec_row_decode_row(row));
        }
        r
    }

    /// Appends this cell's JSON serialization; the rendering is shape for
    /// shape that of the corresponding `DbValue`.
    pub fn append_json(&self, out: &mut String)
        requires
            self.wf(),
        ensures
            final(out)@ == old(out)@ + spec_value_json(spec_as_db_value(*self)),
    {
        let cell: DbValue = match self {
            RowValue::Null => DbValue::Null,
            RowValue::Bool(b) => DbValue::Bool(*b),
            RowValue::I64(x) => DbValue::I64(*x),
            RowValue::U64(x) => DbValue::U64(*x),
            RowValue::F64(t) => DbValue::F64(t.clone()),
            RowValue::Uuid(x) => DbValue::Uuid(*x),
            RowValue::Json(t) => DbValue::Json(t.clone()),
            RowValue::Date(d) => DbValue::Date(*d),
            RowValue::Time(t) => DbValue::Time(*t),
            RowValue::Bytes(b) => DbValue::Bytes(b.clone()),
            RowValue::Text(s) => DbValue::Text(s.clone()),
            RowValue::Timestamp(ts) => DbValue::Timestamp(*ts),
            RowValue::TimestampTz(ts) => DbValue::TimestampTz(*ts),
        };
        proof {
            lemma_value_json_by_shape(cell, spec_as_db_value(*self));
        }
        cell.append_json(out);
    }
}

/// Two `DbValue`s of the same shape whose payloads render alike serialize
/// alike; in particular a byte payload matters only through its view.
proof fn lemma_value_json_by_shape(a: DbValue, b: DbValue)
    requires
        match (a, b) {
            (DbValue::Bytes(x), DbValue::Bytes(y)) => x@ == y@,
            _ => a == b,
        },
    ensures
        spec_value_json(a) == spec_value_json(b),
{
}

} // verus!
