//! The native column-type tags the decoder recognizes, and the mapping from
//! the wire-level type object identifiers onto them. Any identifier outside
//! the recognized set is kept as `Other`, whose values always decode to null.

use vstd::prelude::*;

verus! {

/// A native column type, as the decoder distinguishes them.
#[derive(Clone, Copy, Debug, PartialEq, Eq, Structural, Hash)]
pub enum PgType {
    Bool,
    Bytea,
    Name,
    Int8,
    Int2,
    Int4,
    Text,
    Oid,
    Json,
    Float4,
    Float8,
    Money,
    Bpchar,
    Varchar,
    Date,
    Time,
    Timestamp,
    TimestampTz,
    Numeric,
    Uuid,
    Jsonb,
    /// An unrecognized type, carrying its object identifier.
    Other(u32),
}

/// The catalog object identifiers of the recognized types.
pub open spec fn spec_pg_type_of_oid(oid: u32) -> PgType {
    if oid == 16 { PgType::Bool } else if oid == 17 { PgType::Bytea } else if oid == 19 {
        PgType::Name
    } else if oid == 20 { PgType::Int8 } else if oid == 21 { PgType::Int2 } else if oid == 23 {
        PgType::Int4
    } else if oid == 25 { PgType::Text } else if oid == 26 { PgType::Oid } else if oid == 114 {
        PgType::Json
    } else if oid == 700 { PgType::Float4 } else if oid == 701 { PgType::Float8 } else if oid
        == 790 { PgType::Money } else if oid == 1042 { PgType::Bpchar } else if oid == 1043 {
        PgType::Varchar
    } else if oid == 1082 { PgType::Date } else if oid == 1083 { PgType::Time } else if oid == 1114 {
        PgType::Timestamp
    } else if oid == 1184 { PgType::TimestampTz } else if oid == 1700 { PgType::Numeric } else if oid
        == 2950 { PgType::Uuid } else if oid == 3802 { PgType::Jsonb } else {
        PgType::Other(oid)
    }
}

impl PgType {
    /// Classifies a column by its catalog object identifier.
    pub fn from_oid(oid: u32) -> (t: PgType)
        ensures
            t == spec_pg_type_of_oid(oid),
    {
        match oid {
            16 => PgType::Bool,
            17 => PgType::Bytea,
            19 => PgType::Name,
            20 => PgType::Int8,
            21 => PgType::Int2,
            23 => PgType::Int4,
            25 => PgType::Text,
            26 => PgType::Oid,
            114 => PgType::Json,
            700 => PgType::Float4,
            701 => PgType::Float8,
            790 => PgType::Money,
            1042 => PgType::Bpchar,
            1043 => PgType::Varchar,
            1082 => PgType::Date,
            1083 => PgType::Time,
            1114 => PgType::Timestamp,
            1184 => PgType::TimestampTz,
            1700 => PgType::Numeric,
            2950 => PgType::Uuid,
            3802 => PgType::Jsonb,
            _ => PgType::Other(oid),
        }
    }
}

} // verus!
