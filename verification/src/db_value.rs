//! Typed decoding of native result cells. A native row arrives as plain
//! values the driver has already materialized, one scalar per column, each
//! column carrying its native type tag; decoding turns each cell into one
//! `DbValue`, widening the narrow numeric types, mapping SQL NULL to
//! `DbValue::Null`, and — deliberately — mapping every value of an
//! unrecognized column type to `DbValue::Null` rather than to an error.

use crate::pg_type::PgType;
use crate::temporal::{
    append_date_text, append_time_text, append_timestamp_text, append_timestamptz_text, PgDate,
    PgTime, PgTimestamp, spec_date_text, spec_time_text, spec_timestamp_text,
    spec_timestamptz_text,
};
use crate::textfmt::{
    append_json_string, i64_to_dec, push_char, spec_dec_int, spec_dec_nat, spec_hex_fixed,
    spec_json_string, u64_to_dec, u64_to_hex_fixed,
};
use vstd::prelude::*;
use vstd::string::StringExecFns;

verus! {

/// One cell as the native driver materializes it: either SQL NULL, a plain
/// value of the column's native type, or the uninterpreted bytes of a value
/// whose type the decoder does not recognize. Float cells arrive already
/// rendered as their JSON number text, since the rendering is the driver
/// layer's work.
#[derive(Clone, Debug, PartialEq, Eq)]
pub enum NativeScalar {
    /// SQL NULL.
    Absent,
    Bool(bool),
    I16(i16),
    I32(i32),
    I64(i64),
    U32(u32),
    /// A floating-point cell, as its JSON number text.
    F64(String),
    Uuid(u128),
    /// A JSON document, as its serialized text.
    Json(String),
    Bytes(Vec<u8>),
    Text(String),
    Date(PgDate),
    Time(PgTime),
    Timestamp(PgTimestamp),
    TimestampTz(PgTimestamp),
    /// The stored bytes of a value of an unrecognized type.
    Opaque(Vec<u8>),
}

impl NativeScalar {
    pub open spec fn wf(self) -> bool {
        match self {
            NativeScalar::Date(d) => d.wf(),
            NativeScalar::Time(t) => t.wf(),
            NativeScalar::Timestamp(ts) => ts.wf(),
            NativeScalar::TimestampTz(ts) => ts.wf(),
            _ => true,
        }
    }
}

/// A column descriptor: its name and its native type tag.
#[derive(Clone, Debug, PartialEq, Eq)]
pub struct NativeColumn {
    pub name: String,
    pub ty: PgType,
}

/// One native result row: the column descriptors and one scalar per column.
#[derive(Clone, Debug, PartialEq, Eq)]
pub struct NativeRow {
    pub columns: Vec<NativeColumn>,
    pub values: Vec<NativeScalar>,
}

impl NativeRow {
    pub open spec fn wf(self) -> bool {
        &&& self.columns@.len() == self.values@.len()
        &&& forall|i: int| 0 <= i < self.values@.len() ==> (#[trigger] self.values@[i]).wf()
    }
}

/// One decoded cell: the closed set of value shapes a result can carry.
#[derive(Clone, Debug, PartialEq, Eq)]
#[verifier::ext_equal]
pub enum DbValue {
    Null,
    Bool(bool),
    I64(i64),
    U64(u64),
    /// A floating-point cell, as its JSON number text.
    F64(String),
    Uuid(u128),
    /// A JSON document, as its serialized text.
    Json(String),
    Date(PgDate),
    Time(PgTime),
    Bytes(Vec<u8>),
    /// A textual cell.
    Text(String),
    Timestamp(PgTimestamp),
    TimestampTz(PgTimestamp),
}

impl DbValue {
    pub open spec fn wf(self) -> bool {
        match self {
            DbValue::Date(d) => d.wf(),
            DbValue::Time(t) => t.wf(),
            DbValue::Timestamp(ts) => ts.wf(),
            DbValue::TimestampTz(ts) => ts.wf(),
            _ => true,
        }
    }
}

/// The decoding table: exactly one `DbValue` shape per recognized native
/// type, with the narrow numeric types widened; SQL NULL, any value of an
/// unrecognized type, and any value whose shape does not belong to its
/// declared type all decode to `DbValue::Null`.
pub open spec fn spec_decode_cell(ty: PgType, v: NativeScalar) -> DbValue {
    match (ty, v) {
        (PgType::Bool, NativeScalar::Bool(b)) => DbValue::Bool(b),
        (PgType::Int2, NativeScalar::I16(x)) => DbValue::I64(x as i64),
        (PgType::Int4, NativeScalar::I32(x)) => DbValue::I64(x as i64),
        (PgType::Int8, NativeScalar::I64(x)) => DbValue::I64(x),
        (PgType::Oid, NativeScalar::U32(x)) => DbValue::U64(x as u64),
        (PgType::Float4, NativeScalar::F64(t)) => DbValue::F64(t),
        (PgType::Float8, NativeScalar::F64(t)) => DbValue::F64(t),
        (PgType::Uuid, NativeScalar::Uuid(x)) => DbValue::Uuid(x),
        (PgType::Json, NativeScalar::Json(t)) => DbValue::Json(t),
        (PgType::Jsonb, NativeScalar::Json(t)) => DbValue::Json(t),
        (PgType::Bytea, NativeScalar::Bytes(b)) => DbValue::Bytes(b),
        (PgType::Date, NativeScalar::Date(d)) => DbValue::Date(d),
        (PgType::Time, NativeScalar::Time(t)) => DbValue::Time(t),
        (PgType::Timestamp, NativeScalar::Timestamp(ts)) => DbValue::Timestamp(ts),
        (PgType::TimestampTz, NativeScalar::TimestampTz(ts)) => DbValue::TimestampTz(ts),
        (PgType::Numeric, NativeScalar::Text(s)) => DbValue::Text(s),
        (PgType::Text, NativeScalar::Text(s)) => DbValue::Text(s),
        (PgType::Varchar, NativeScalar::Text(s)) => DbValue::Text(s),
        (PgType::Bpchar, NativeScalar::Text(s)) => DbValue::Text(s),
        (PgType::Name, NativeScalar::Text(s)) => DbValue::Text(s),
        (PgType::Money, NativeScalar::Text(s)) => DbValue::Text(s),
        _ => DbValue::Null,
    }
}

/// The whole row decoded, cell by cell, in column order.
pub open spec fn spec_decode_row(row: NativeRow) -> Seq<DbValue> {
    Seq::new(row.values@.len(), |i: int| spec_decode_cell(row.columns@[i].ty, row.values@[i]))
}

impl DbValue {
    /// Decodes one cell per the decoding table. The scalar is consumed: its
    /// payload moves into the decoded value.
    pub fn decode_cell(ty: PgType, v: NativeScalar) -> (r: DbValue)
        ensures
            r == spec_decode_cell(ty, v),
            v.wf() ==> r.wf(),
    {
        match (ty, v) {
            (PgType::Bool, NativeScalar::Bool(b)) => DbValue::Bool(b),
            (PgType::Int2, NativeScalar::I16(x)) => DbValue::I64(x as i64),
            (PgType::Int4, NativeScalar::I32(x)) => DbValue::I64(x as i64),
            (PgType::Int8, NativeScalar::I64(x)) => DbValue::I64(x),
            (PgType::Oid, NativeScalar::U32(x)) => DbValue::U64(x as u64),
            (PgType::Float4, NativeScalar::F64(t)) => DbValue::F64(t),
            (PgType::Float8, NativeScalar::F64(t)) => DbValue::F64(t),
            (PgType::Uuid, NativeScalar::Uuid(x)) => DbValue::Uuid(x),
            (PgType::Json, NativeScalar::Json(t)) => DbValue::Json(t),
            (PgType::Jsonb, NativeScalar::Json(t)) => DbValue::Json(t),
            (PgType::Bytea, NativeScalar::Bytes(b)) => DbValue::Bytes(b),
            (PgType::Date, NativeScalar::Date(d)) => DbValue::Date(d),
            (PgType::Time, NativeScalar::Time(t)) => DbValue::Time(t),
            (PgType::Timestamp, NativeScalar::Timestamp(ts)) => DbValue::Timestamp(ts),
            (PgType::TimestampTz, NativeScalar::TimestampTz(ts)) => DbValue::TimestampTz(ts),
            (PgType::Numeric, NativeScalar::Text(s)) => DbValue::Text(s),
            (PgType::Text, NativeScalar::Text(s)) => DbValue::Text(s),
            (PgType::Varchar, NativeScalar::Text(s)) => DbValue::Text(s),
            (PgType::Bpchar, NativeScalar::Text(s)) => DbValue::Text(s),
            (PgType::Name, NativeScalar::Text(s)) => DbValue::Text(s),
            (PgType::Money, NativeScalar::Text(s)) => DbValue::Text(s),
            _ => DbValue::Null,
        }
    }

    /// Decodes every cell of one native row, preserving column order. The
    /// row is consumed; its scalars move into the decoded values.
    pub fn decode_row(row: NativeRow) -> (r: Vec<DbValue>)
        requires
            row.wf(),
        ensures
            r@ == spec_decode_row(row),
            forall|i: int| 0 <= i < r@.len() ==> (#[trigger] r@[i]).wf(),
    {
        let NativeRow { columns, values } = row;
        let n: usize = values.len();
        let mut vals: Vec<NativeScalar> = values;
        let mut r: Vec<DbValue> = Vec::new();
        let mut i: usize = 0;
        while i < n
            invariant
                i <= n,
                n == row.values@.len(),
                row.wf(),
                columns@ == row.columns@,
                vals@ == row.values@.skip(i as int),
                r@.len() == i,
                forall|j: int| 0 <= j < i ==> r@[j] == spec_decode_row(row)[j],
                forall|j: int| 0 <= j < i ==> (#[trigger] r@[j]).wf(),
            decreases n - i,
        {
            let v: NativeScalar = vals.remove(0);
            proof {
                assert(v == row.values@[i as int]);
                assert(vals@ =~= row.values@.skip(i + 1 as int));
            }
            let cell = DbValue::decode_cell(columns[i].ty, v);
            r.push(cell);
            i = i + 1;
        }
        proof {
            assert(r@ =~= spec_decode_row(row));
        }
        r
    }
}

/// Decoding is a function of the native row alone: two decodings of the
/// same row yield identical value sequences.
pub proof fn lemma_decode_row_deterministic(row: NativeRow, a: Seq<DbValue>, b: Seq<DbValue>)
    requires
        a == spec_decode_row(row),
        b == spec_decode_row(row),
    ensures
        a == b,
{
}

/// A value of an unrecognized column type decodes to `DbValue::Null`,
/// whatever its stored bytes hold.
pub proof fn lemma_unknown_type_decodes_null(ty: PgType, v: NativeScalar)
    requires
        ty is Other,
    ensures
        spec_decode_cell(ty, v) == DbValue::Null,
{
}

/// The canonical hyphenated, lower-case hexadecimal text of a UUID held as
/// its 128-bit number: groups of 8, 4, 4, 4 and 12 digits.
pub open spec fn spec_uuid_text(x: nat) -> Seq<char> {
    spec_hex_fixed(x / 0x1000000000000000000000000, 8) + seq!['-'] + spec_hex_fixed(
        (x / 0x100000000000000000000) % 0x10000,
        4,
    ) + seq!['-'] + spec_hex_fixed((x / 0x10000000000000000) % 0x10000, 4) + seq!['-']
        + spec_hex_fixed((x / 0x1000000000000) % 0x10000, 4) + seq!['-'] + spec_hex_fixed(
        x % 0x1000000000000,
        12,
    )
}

pub fn append_uuid_text(out: &mut String, x: u128)
    ensures
        final(out)@ == old(out)@ + spec_uuid_text(x as nat),
{
    let ghost orig: Seq<char> = out@;
    let g1: u128 = x / 0x1000000000000000000000000u128;
    let g2: u128 = (x / 0x100000000000000000000u128) % 0x10000;
    let g3: u128 = (x / 0x10000000000000000u128) % 0x10000;
    let g4: u128 = (x / 0x1000000000000u128) % 0x10000;
    let g5: u128 = x % 0x1000000000000u128;
    proof {
        assert(x as nat / 0x1000000000000000000000000 < 0x100000000) by (nonlinear_arith);
    }
    let part = u64_to_hex_fixed(g1 as u64, 8);
    out.append(part.as_str());
    push_char(out, '-');
    let part = u64_to_hex_fixed(g2 as u64, 4);
    out.append(part.as_str());
    push_char(out, '-');
    let part = u64_to_hex_fixed(g3 as u64, 4);
    out.append(part.as_str());
    push_char(out, '-');
    let part = u64_to_hex_fixed(g4 as u64, 4);
    out.append(part.as_str());
    push_char(out, '-');
    let part = u64_to_hex_fixed(g5 as u64, 12);
    out.append(part.as_str());
    proof {
        assert(out@ =~= orig + spec_uuid_text(x as nat));
    }
}

/// The JSON array-of-numbers body for a byte sequence.
pub open spec fn spec_bytes_json_body(b: Seq<u8>) -> Seq<char>
    decreases b.len(),
{
    if b.len() == 0 {
        Seq::empty()
    } else if b.len() == 1 {
        spec_dec_nat(b[0] as nat)
    } else {
        spec_dec_nat(b[0] as nat) + seq![','] + spec_bytes_json_body(b.drop_first())
    }
}

/// Bytes serialize as a JSON array of their numeric values.
pub open spec fn spec_bytes_json(b: Seq<u8>) -> Seq<char> {
    seq!['['] + spec_bytes_json_body(b) + seq![']']
}

proof fn lemma_bytes_json_body_push(b: Seq<u8>, x: u8)
    ensures
        spec_bytes_json_body(b.push(x)) == if b.len() == 0 {
            spec_dec_nat(x as nat)
        } else {
            spec_bytes_json_body(b) + seq![','] + spec_dec_nat(x as nat)
        },
    decreases b.len(),
{
    if b.len() == 0 {
        assert(b.push(x).len() == 1);
        assert(b.push(x)[0] == x);
    } else {
        lemma_bytes_json_body_push(b.drop_first(), x);
        assert(b.push(x).drop_first() =~= b.drop_first().push(x));
        assert(b.push(x)[0] == b[0]);
        if b.len() == 1 {
            assert(spec_bytes_json_body(b.push(x)) =~= spec_bytes_json_body(b) + seq![',']
                + spec_dec_nat(x as nat));
        } else {
            assert(spec_dec_nat(b[0] as nat) + seq![','] + (spec_bytes_json_body(b.drop_first())
                + seq![','] + spec_dec_nat(x as nat)) =~= (spec_dec_nat(b[0] as nat) + seq![',']
                + spec_bytes_json_body(b.drop_first())) + seq![','] + spec_dec_nat(x as nat));
        }
    }
}

pub fn append_bytes_json(out: &mut String, b: &Vec<u8>)
    ensures
        final(out)@ == old(out)@ + spec_bytes_json(b@),
{
    let ghost orig: Seq<char> = out@;
    push_char(out, '[');
    let n: usize = b.len();
    let mut i: usize = 0;
    while i < n
        invariant
            i <= n,
            n == b@.len(),
            out@ == orig.push('[') + spec_bytes_json_body(b@.take(i as int)),
        decreases n - i,
    {
        if i > 0 {
            push_char(out, ',');
        }
        let part = u64_to_dec(b[i] as u64);
        out.append(part.as_str());
        proof {
            lemma_bytes_json_body_push(b@.take(i as int), b@[i as int]);
            assert(b@.take(i as int).push(b@[i as int]) =~= b@.take(i + 1 as int));
            assert(out@ =~= orig.push('[') + spec_bytes_json_body(b@.take(i + 1 as int)));
        }
        i = i + 1;
    }
    push_char(out, ']');
    proof {
        assert(b@.take(n as int) =~= b@);
        assert(out@ =~= orig + spec_bytes_json(b@));
    }
}

/// How one decoded cell serializes into JSON: null, boolean and numeric
/// cells as the bare JSON token; float and JSON cells as their stored text;
/// UUID and temporal cells as quoted canonical text; bytes as an array of
/// numbers; textual cells as escaped JSON strings.
pub open spec fn spec_value_json(v: DbValue) -> Seq<char> {
    match v {
        DbValue::Null => seq!['n', 'u', 'l', 'l'],
        DbValue::Bool(b) => if b {
            seq!['t', 'r', 'u', 'e']
        } else {
            seq!['f', 'a', 'l', 's', 'e']
        },
        DbValue::I64(n) => spec_dec_int(n as int),
        DbValue::U64(n) => spec_dec_nat(n as nat),
        DbValue::F64(t) => t@,
        DbValue::Uuid(x) => seq!['"'] + spec_uuid_text(x as nat) + seq!['"'],
        DbValue::Json(t) => t@,
        DbValue::Date(d) => seq!['"'] + spec_date_text(d) + seq!['"'],
        DbValue::Time(t) => seq!['"'] + spec_time_text(t) + seq!['"'],
        DbValue::Bytes(b) => spec_bytes_json(b@),
        DbValue::Text(s) => spec_json_string(s@),
        DbValue::Timestamp(ts) => seq!['"'] + spec_timestamp_text(ts) + seq!['"'],
        DbValue::TimestampTz(ts) => seq!['"'] + spec_timestamptz_text(ts) + seq!['"'],
    }
}

impl DbValue {
    /// Appends this cell's JSON serialization.
    pub fn append_json(&self, out: &mut String)
        requires
            self.wf(),
        ensures
            final(out)@ == old(out)@ + spec_value_json(*self),
    {
        let ghost orig: Seq<char> = out@;
        match self {
            DbValue::Null => {
                push_char(out, 'n');
                push_char(out, 'u');
                push_char(out, 'l');
                push_char(out, 'l');
                proof {
                    assert(out@ =~= orig + spec_value_json(*self));
                }
            },
            DbValue::Bool(b) => {
                if *b {
                    push_char(out, 't');
                    push_char(out, 'r');
                    push_char(out, 'u');
                    push_char(out, 'e');
                } else {
                    push_char(out, 'f');
                    push_char(out, 'a');
                    push_char(out, 'l');
                    push_char(out, 's');
                    push_char(out, 'e');
                }
                proof {
                    assert(out@ =~= orig + spec_value_json(*self));
                }
            },
            DbValue::I64(n) => {
                let part = i64_to_dec(*n);
                out.append(part.as_str());
            },
            DbValue::U64(n) => {
                let part = u64_to_dec(*n);
                out.append(part.as_str());
            },
            DbValue::F64(t) => {
                out.append(t.as_str());
            },
            DbValue::Uuid(x) => {
                push_char(out, '"');
                append_uuid_text(out, *x);
                push_char(out, '"');
                proof {
                    assert(out@ =~= orig + spec_value_json(*self));
                }
            },
            DbValue::Json(t) => {
                out.append(t.as_str());
            },
            DbValue::Date(d) => {
                push_char(out, '"');
                append_date_text(out, d);
                push_char(out, '"');
                proof {
                    assert(out@ =~= orig + spec_value_json(*self));
                }
            },
            DbValue::Time(t) => {
                push_char(out, '"');
                append_time_text(out, t);
                push_char(out, '"');
                proof {
                    assert(out@ =~= orig + spec_value_json(*self));
                }
            },
            DbValue::Bytes(b) => {
                append_bytes_json(out, b);
            },
            DbValue::Text(s) => {
                append_json_string(out, s.as_str());
            },
            DbValue::Timestamp(ts) => {
                push_char(out, '"');
                append_timestamp_text(out, ts);
                push_char(out, '"');
                proof {
                    assert(out@ =~= orig + spec_value_json(*self));
                }
            },
            DbValue::TimestampTz(ts) => {
                push_char(out, '"');
                append_timestamptz_text(out, ts);
                push_char(out, '"');
                proof {
                    assert(out@ =~= orig + spec_value_json(*self));
                }
            },
        }
    }
}

} // verus!
