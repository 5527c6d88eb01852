use forge::db_value::{DbValue, NativeColumn, NativeRow, NativeScalar};
use forge::pg_type::PgType;
use forge::row_value::RowValue;
use forge::temporal::{PgDate, PgTime};

fn column(name: &str, ty: PgType) -> NativeColumn {
    NativeColumn { name: name.to_string(), ty }
}

#[test]
fn test_decode_row_idempotent() {
    let row = NativeRow {
        columns: vec![
            column("a", PgType::Int2),
            column("b", PgType::Text),
            column("c", PgType::Bool),
            column("d", PgType::Bytea),
        ],
        values: vec![
            NativeScalar::I16(-7),
            NativeScalar::Text("x".to_string()),
            NativeScalar::Absent,
            NativeScalar::Bytes(vec![1, 2, 3]),
        ],
    };
    let first = DbValue::decode_row(row.clone());
    let second = DbValue::decode_row(row);
    assert_eq!(first, second);
}

#[test]
fn test_unknown_type_decodes_null() {
    let row = NativeRow {
        columns: vec![column("mystery", PgType::Other(60000))],
        values: vec![NativeScalar::Opaque(vec![0xde, 0xad, 0xbe, 0xef])],
    };
    let decoded = DbValue::decode_row(row);
    assert_eq!(decoded, vec![DbValue::Null]);

    let other_payload = NativeRow {
        columns: vec![column("mystery", PgType::Other(60000))],
        values: vec![NativeScalar::Text("still ignored".to_string())],
    };
    assert_eq!(DbValue::decode_row(other_payload), vec![DbValue::Null]);
}

#[test]
fn test_numeric_widening_and_null_default() {
    let row = NativeRow {
        columns: vec![
            column("i2", PgType::Int2),
            column("i4", PgType::Int4),
            column("i8", PgType::Int8),
            column("oid", PgType::Oid),
            column("gone", PgType::Int8),
        ],
        values: vec![
            NativeScalar::I16(-32768),
            NativeScalar::I32(70000),
            NativeScalar::I64(1 << 40),
            NativeScalar::U32(4294967295),
            NativeScalar::Absent,
        ],
    };
    let decoded = DbValue::decode_row(row);
    assert_eq!(
        decoded,
        vec![
            DbValue::I64(-32768),
            DbValue::I64(70000),
            DbValue::I64(1 << 40),
            DbValue::U64(4294967295),
            DbValue::Null,
        ]
    );
}

#[test]
fn test_textual_types_decode_to_text() {
    for ty in [
        PgType::Numeric,
        PgType::Text,
        PgType::Varchar,
        PgType::Bpchar,
        PgType::Name,
        PgType::Money,
    ] {
        let got = DbValue::decode_cell(ty, NativeScalar::Text("42.5".to_string()));
        assert_eq!(got, DbValue::Text("42.5".to_string()));
    }
}

#[test]
fn test_temporal_cells_carry_through() {
    let date = PgDate { year: 2024, month: 3, day: 7 };
    let time = PgTime { hour: 13, minute: 5, second: 9, nanos: 0 };
    assert_eq!(
        DbValue::decode_cell(PgType::Date, NativeScalar::Date(date)),
        DbValue::Date(date)
    );
    assert_eq!(
        DbValue::decode_cell(PgType::Time, NativeScalar::Time(time)),
        DbValue::Time(time)
    );
}

#[test]
fn test_pg_type_from_oid() {
    assert_eq!(PgType::from_oid(16), PgType::Bool);
    assert_eq!(PgType::from_oid(17), PgType::Bytea);
    assert_eq!(PgType::from_oid(20), PgType::Int8);
    assert_eq!(PgType::from_oid(23), PgType::Int4);
    assert_eq!(PgType::from_oid(25), PgType::Text);
    assert_eq!(PgType::from_oid(700), PgType::Float4);
    assert_eq!(PgType::from_oid(1082), PgType::Date);
    assert_eq!(PgType::from_oid(1184), PgType::TimestampTz);
    assert_eq!(PgType::from_oid(2950), PgType::Uuid);
    assert_eq!(PgType::from_oid(3802), PgType::Jsonb);
    assert_eq!(PgType::from_oid(424242), PgType::Other(424242));
}

#[test]
fn test_row_value_numeric_falls_to_null() {
    let got = RowValue::decode_cell(PgType::Numeric, NativeScalar::Text("42.5".to_string()));
    assert_eq!(got, RowValue::Null);
    let text = RowValue::decode_cell(PgType::Text, NativeScalar::Text("42.5".to_string()));
    assert_eq!(text, RowValue::Text("42.5".to_string()));
}
