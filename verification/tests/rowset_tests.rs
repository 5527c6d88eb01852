use chrono::Timelike;
use forge::db_value::{DbValue, NativeColumn, NativeRow, NativeScalar};
use forge::pg_type::PgType;
use forge::row_set::RowSet;
use forge::temporal::{PgDate, PgTime, PgTimestamp};

fn column(name: &str, ty: PgType) -> NativeColumn {
    NativeColumn { name: name.to_string(), ty }
}

fn single_cell_json(ty: PgType, value: NativeScalar) -> String {
    let row = NativeRow { columns: vec![column("v", ty)], values: vec![value] };
    RowSet::from_pg_rows(vec![row]).to_json()
}

#[test]
fn test_object_view_round_trip() {
    let rows = vec![
        NativeRow {
            columns: vec![column("id", PgType::Int8), column("name", PgType::Text)],
            values: vec![NativeScalar::I64(1), NativeScalar::Text("a".to_string())],
        },
        NativeRow {
            columns: vec![column("id", PgType::Int8), column("name", PgType::Text)],
            values: vec![NativeScalar::I64(2), NativeScalar::Text("b".to_string())],
        },
    ];
    let row_set = RowSet::from_pg_rows(rows);
    assert_eq!(
        row_set.as_objects().to_json(),
        r#"[{"id":1,"name":"a"},{"id":2,"name":"b"}]"#
    );
}

#[test]
fn test_positional_view() {
    let rows = vec![
        NativeRow {
            columns: vec![column("id", PgType::Int8), column("name", PgType::Text)],
            values: vec![NativeScalar::I64(1), NativeScalar::Text("a".to_string())],
        },
        NativeRow {
            columns: vec![column("id", PgType::Int8), column("name", PgType::Text)],
            values: vec![NativeScalar::I64(2), NativeScalar::Text("b".to_string())],
        },
    ];
    let row_set = RowSet::from_pg_rows(rows);
    assert_eq!(row_set.to_json(), r#"[[1,"a"],[2,"b"]]"#);
}

#[test]
fn test_empty_result_has_no_columns() {
    let row_set = RowSet::from_pg_rows(vec![]);
    assert!(row_set.columns.is_empty());
    assert!(row_set.rows.is_empty());
    assert_eq!(row_set.to_json(), "[]");
    assert_eq!(row_set.as_objects().to_json(), "[]");
}

#[test]
fn test_column_names_come_from_first_row() {
    let rows = vec![NativeRow {
        columns: vec![column("alpha", PgType::Bool), column("beta", PgType::Int4)],
        values: vec![NativeScalar::Bool(true), NativeScalar::I32(5)],
    }];
    let row_set = RowSet::from_pg_rows(rows);
    assert_eq!(row_set.columns, vec!["alpha".to_string(), "beta".to_string()]);
    assert_eq!(row_set.rows, vec![vec![DbValue::Bool(true), DbValue::I64(5)]]);
}

#[test]
fn test_scalar_cells_render_as_json_tokens() {
    assert_eq!(single_cell_json(PgType::Bool, NativeScalar::Bool(true)), "[[true]]");
    assert_eq!(single_cell_json(PgType::Bool, NativeScalar::Bool(false)), "[[false]]");
    assert_eq!(single_cell_json(PgType::Int8, NativeScalar::I64(-42)), "[[-42]]");
    assert_eq!(
        single_cell_json(PgType::Int8, NativeScalar::I64(i64::MIN)),
        "[[-9223372036854775808]]"
    );
    assert_eq!(single_cell_json(PgType::Int8, NativeScalar::Absent), "[[null]]");
    assert_eq!(
        single_cell_json(PgType::Bytea, NativeScalar::Bytes(vec![0, 17, 255])),
        "[[[0,17,255]]]"
    );
}

#[test]
fn test_float_cells_keep_their_driver_rendering() {
    let text = serde_json::to_string(&1.5f64).unwrap();
    assert_eq!(
        single_cell_json(PgType::Float8, NativeScalar::F64(text)),
        "[[1.5]]"
    );
}

#[test]
fn test_string_cells_escape_like_the_json_encoder() {
    let tricky = "he said \"hi\"\n\tand \\ left\u{1}";
    let expected = format!("[[{}]]", serde_json::to_string(tricky).unwrap());
    assert_eq!(
        single_cell_json(PgType::Text, NativeScalar::Text(tricky.to_string())),
        expected
    );
}

#[test]
fn test_uuid_cells_render_canonically() {
    let x: u128 = 0x550e8400e29b41d4a716446655440000;
    let expected = format!("[[\"{}\"]]", uuid::Uuid::from_u128(x));
    assert_eq!(
        single_cell_json(PgType::Uuid, NativeScalar::Uuid(x)),
        expected
    );
}

#[test]
fn test_date_cells_render_like_the_calendar_library() {
    let date = PgDate { year: 2024, month: 3, day: 7 };
    let expected = format!(
        "[[\"{}\"]]",
        chrono::NaiveDate::from_ymd_opt(2024, 3, 7).unwrap()
    );
    assert_eq!(
        single_cell_json(PgType::Date, NativeScalar::Date(date)),
        expected
    );
}

#[test]
fn test_time_cells_render_like_the_calendar_library() {
    let with_millis = chrono::NaiveTime::from_hms_milli_opt(13, 5, 9, 250).unwrap();
    let time = PgTime {
        hour: 13,
        minute: 5,
        second: 9,
        nanos: with_millis.nanosecond(),
    };
    let expected = format!("[[\"{}\"]]", with_millis);
    assert_eq!(
        single_cell_json(PgType::Time, NativeScalar::Time(time)),
        expected
    );

    let plain = PgTime { hour: 13, minute: 5, second: 9, nanos: 0 };
    let expected_plain = format!(
        "[[\"{}\"]]",
        chrono::NaiveTime::from_hms_opt(13, 5, 9).unwrap()
    );
    assert_eq!(
        single_cell_json(PgType::Time, NativeScalar::Time(plain)),
        expected_plain
    );
}

#[test]
fn test_timestamp_cells_render_like_the_calendar_library() {
    let date = PgDate { year: 1999, month: 12, day: 31 };
    let time = PgTime { hour: 23, minute: 59, second: 58, nanos: 0 };
    let ts = PgTimestamp { date, time };
    let naive = chrono::NaiveDate::from_ymd_opt(1999, 12, 31)
        .unwrap()
        .and_hms_opt(23, 59, 58)
        .unwrap();
    let expected = format!("[[\"{}\"]]", naive);
    assert_eq!(
        single_cell_json(PgType::Timestamp, NativeScalar::Timestamp(ts)),
        expected
    );

    let expected_tz = format!("[[\"{}\"]]", naive.and_utc().to_rfc3339());
    assert_eq!(
        single_cell_json(PgType::TimestampTz, NativeScalar::TimestampTz(ts)),
        expected_tz
    );
}

#[test]
fn test_json_cells_embed_as_is() {
    let doc = r#"{"k":[1,2]}"#.to_string();
    assert_eq!(
        single_cell_json(PgType::Jsonb, NativeScalar::Json(doc)),
        r#"[[{"k":[1,2]}]]"#
    );
}

#[test]
fn test_far_year_dates_render_like_the_calendar_library() {
    let future = PgDate { year: 10000, month: 1, day: 2 };
    let expected = format!(
        "[[\"{}\"]]",
        chrono::NaiveDate::from_ymd_opt(10000, 1, 2).unwrap()
    );
    assert_eq!(
        single_cell_json(PgType::Date, NativeScalar::Date(future)),
        expected
    );

    let early = PgDate { year: -5, month: 6, day: 30 };
    let expected_early = format!(
        "[[\"{}\"]]",
        chrono::NaiveDate::from_ymd_opt(-5, 6, 30).unwrap()
    );
    assert_eq!(
        single_cell_json(PgType::Date, NativeScalar::Date(early)),
        expected_early
    );
}

#[test]
fn test_time_with_micro_and_nano_fractions() {
    let micros = chrono::NaiveTime::from_hms_micro_opt(1, 2, 3, 4500).unwrap();
    let time = PgTime { hour: 1, minute: 2, second: 3, nanos: micros.nanosecond() };
    let expected = format!("[[\"{}\"]]", micros);
    assert_eq!(
        single_cell_json(PgType::Time, NativeScalar::Time(time)),
        expected
    );

    let nanos = chrono::NaiveTime::from_hms_nano_opt(1, 2, 3, 4567).unwrap();
    let time = PgTime { hour: 1, minute: 2, second: 3, nanos: nanos.nanosecond() };
    let expected = format!("[[\"{}\"]]", nanos);
    assert_eq!(
        single_cell_json(PgType::Time, NativeScalar::Time(time)),
        expected
    );
}
