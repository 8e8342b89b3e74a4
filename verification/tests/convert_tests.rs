use arrow::array::Array;
use bytes::Bytes;
use csv_to_parquet::cells::parse_i64_cell;
use csv_to_parquet::infer::infer_schema;
use csv_to_parquet::policy::{build_policy, WriterOptions};
use csv_to_parquet::schema::{ColumnSchema, DataType, Field};
use csv_to_parquet::sink::convert;
use csv_to_parquet::{CellFault, ConvertError};
use parquet::arrow::arrow_reader::ParquetRecordBatchReaderBuilder;

fn options() -> WriterOptions {
    WriterOptions {
        compression: None,
        encoding: None,
        statistics: None,
        data_pagesize_limit: None,
        dictionary_pagesize_limit: None,
        write_batch_size: None,
        max_row_group_size: None,
        created_by: None,
        dictionary: None,
    }
}

fn read_back(bytes: Vec<u8>) -> arrow::array::RecordBatch {
    let builder = ParquetRecordBatchReaderBuilder::try_new(Bytes::from(bytes))
        .expect("Failed to create ParquetRecordBatchReaderBuilder");
    let mut reader = builder.build().expect("Failed to build ParquetRecordBatchReader");
    reader.next().unwrap().expect("Failed to read record batch")
}

#[test]
fn should_convert_csv_to_parquet() {
    let csv_data = b"id,name\n1,Alice\n2,Bob";
    let schema = infer_schema(csv_data, b',', None, true).unwrap();
    let mut o = options();
    o.dictionary = Some(false);
    let policy = build_policy(o).unwrap();
    let (bytes, rows) = convert(csv_data, schema, b',', true, &policy).unwrap();
    assert!(!bytes.is_empty(), "Output file is empty");
    assert_eq!(rows, 2);

    let output_content = read_back(bytes);
    assert_eq!(output_content.num_rows(), 2, "Number of rows in output file is incorrect");
    assert_eq!(
        output_content
            .column(0)
            .as_any()
            .downcast_ref::<arrow::array::Int64Array>()
            .unwrap()
            .values(),
        &[1, 2]
    );
    assert_eq!(
        output_content
            .column(1)
            .as_any()
            .downcast_ref::<arrow::array::StringArray>()
            .unwrap()
            .value(0),
        "Alice"
    );
    assert_eq!(
        output_content
            .column(1)
            .as_any()
            .downcast_ref::<arrow::array::StringArray>()
            .unwrap()
            .value(1),
        "Bob"
    );
}

#[test]
fn explicit_schema_overrides_inference() {
    // The same two data rows under an explicit schema: a non-nullable
    // 32-bit integer and nullable text, preserved verbatim.
    let csv_data = b"id,name\n1,Alice\n2,Bob";
    let fields = vec![
        Field::new("id".to_string(), DataType::Int32, false),
        Field::new("name".to_string(), DataType::Utf8, true),
    ];
    let schema = ColumnSchema::from_fields(fields).unwrap();
    let policy = build_policy(options()).unwrap();
    let (bytes, rows) = convert(csv_data, schema, b',', true, &policy).unwrap();
    assert_eq!(rows, 2);

    let output_content = read_back(bytes);
    let out_schema = output_content.schema();
    assert_eq!(out_schema.field(0).name(), "id");
    assert_eq!(*out_schema.field(0).data_type(), arrow::datatypes::DataType::Int32);
    assert!(!out_schema.field(0).is_nullable());
    assert_eq!(out_schema.field(1).name(), "name");
    assert_eq!(*out_schema.field(1).data_type(), arrow::datatypes::DataType::Utf8);
    assert!(out_schema.field(1).is_nullable());
    assert_eq!(
        output_content
            .column(0)
            .as_any()
            .downcast_ref::<arrow::array::Int32Array>()
            .unwrap()
            .values(),
        &[1, 2]
    );
}

#[test]
fn short_row_aborts_with_decode_error() {
    let csv_data = b"id,name\n1,Alice\n2";
    let schema = infer_schema(csv_data, b',', Some(1), true).unwrap();
    let policy = build_policy(options()).unwrap();
    let r = convert(csv_data, schema, b',', true, &policy);
    match r {
        Err(ConvertError::Decode(e)) => {
            assert_eq!(e.row, 1);
            assert_eq!(e.fault, CellFault::WrongFieldCount);
        },
        _ => panic!("expected a decode error"),
    }
}

#[test]
fn incompatible_cell_aborts_with_decode_error() {
    let csv_data = b"id,name\n1,Alice\nx,Bob";
    let fields = vec![
        Field::new("id".to_string(), DataType::Int64, true),
        Field::new("name".to_string(), DataType::Utf8, true),
    ];
    let schema = ColumnSchema::from_fields(fields).unwrap();
    let policy = build_policy(options()).unwrap();
    let r = convert(csv_data, schema, b',', true, &policy);
    match r {
        Err(ConvertError::Decode(e)) => {
            assert_eq!(e.row, 1);
            assert_eq!(e.col, 0);
            assert_eq!(e.fault, CellFault::Unparseable);
        },
        _ => panic!("expected a decode error"),
    }
}

#[test]
fn empty_cell_in_non_nullable_column_is_rejected() {
    let csv_data = b"id\n1\n";
    let fields = vec![Field::new("id".to_string(), DataType::Int64, false)];
    let schema = ColumnSchema::from_fields(fields).unwrap();
    let policy = build_policy(options()).unwrap();
    // one data row, fine
    let (_, rows) = convert(csv_data, schema, b',', true, &policy).unwrap();
    assert_eq!(rows, 1);

    let csv_data = b"id\n1\n\n3";
    let fields = vec![Field::new("id".to_string(), DataType::Int64, false)];
    let schema = ColumnSchema::from_fields(fields).unwrap();
    let r = convert(csv_data, schema, b',', true, &policy);
    match r {
        Err(ConvertError::Decode(e)) => {
            assert_eq!(e.row, 1);
            assert_eq!(e.fault, CellFault::NullNotAllowed);
        },
        _ => panic!("expected a decode error"),
    }
}

#[test]
fn invalid_text_cell_is_rejected() {
    let mut csv_data = b"name\n".to_vec();
    csv_data.push(0xff);
    let fields = vec![Field::new("name".to_string(), DataType::Utf8, true)];
    let schema = ColumnSchema::from_fields(fields).unwrap();
    let policy = build_policy(options()).unwrap();
    let r = convert(&csv_data, schema, b',', true, &policy);
    match r {
        Err(ConvertError::Decode(e)) => {
            assert_eq!(e.row, 0);
            assert_eq!(e.col, 0);
            assert_eq!(e.fault, CellFault::InvalidText);
        },
        _ => panic!("expected a decode error"),
    }
}

#[test]
fn floats_and_nulls_round_trip() {
    let csv_data = b"v\n1.5\n\n2e3";
    let schema = infer_schema(csv_data, b',', None, true).unwrap();
    assert_eq!(schema.fields[0].data_type, DataType::Float64);
    let policy = build_policy(options()).unwrap();
    let (bytes, rows) = convert(csv_data, schema, b',', true, &policy).unwrap();
    assert_eq!(rows, 3);
    let batch = read_back(bytes);
    let col = batch.column(0).as_any().downcast_ref::<arrow::array::Float64Array>().unwrap();
    assert_eq!(col.value(0), 1.5);
    assert!(col.is_null(1));
    assert_eq!(col.value(2), 2000.0);
}

#[test]
fn booleans_round_trip_under_explicit_schema() {
    let csv_data = b"flag\ntrue\nfalse";
    let fields = vec![Field::new("flag".to_string(), DataType::Boolean, true)];
    let schema = ColumnSchema::from_fields(fields).unwrap();
    let policy = build_policy(options()).unwrap();
    let (bytes, rows) = convert(csv_data, schema, b',', true, &policy).unwrap();
    assert_eq!(rows, 2);
    let batch = read_back(bytes);
    let col = batch.column(0).as_any().downcast_ref::<arrow::array::BooleanArray>().unwrap();
    assert!(col.value(0));
    assert!(!col.value(1));
}

#[test]
fn trailing_line_break_opens_no_row() {
    let csv_data = b"id\n1\n2\n";
    let schema = infer_schema(csv_data, b',', None, true).unwrap();
    let policy = build_policy(options()).unwrap();
    let (_, rows) = convert(csv_data, schema, b',', true, &policy).unwrap();
    assert_eq!(rows, 2);
}

#[test]
fn row_count_matches_source_under_writer_knobs() {
    // Small row groups and write batches must not change the row count.
    let mut src = b"id,name\n".to_vec();
    for i in 0..100 {
        src.extend_from_slice(format!("{},row{}\n", i, i).as_bytes());
    }
    let schema = infer_schema(&src, b',', None, true).unwrap();
    let mut o = options();
    o.compression = Some("zstd".to_string());
    o.max_row_group_size = Some(7);
    o.write_batch_size = Some(3);
    o.statistics = Some("page".to_string());
    o.dictionary = Some(true);
    o.created_by = Some("conversion tests".to_string());
    let policy = build_policy(o).unwrap();
    let (bytes, rows) = convert(&src, schema, b',', true, &policy).unwrap();
    assert_eq!(rows, 100);

    let builder = ParquetRecordBatchReaderBuilder::try_new(Bytes::from(bytes)).unwrap();
    let reader = builder.build().unwrap();
    let mut total = 0;
    for b in reader {
        total += b.unwrap().num_rows();
    }
    assert_eq!(total, 100);
}

#[test]
fn quoted_cells_round_trip() {
    // A quoted cell keeps its embedded delimiter and line break, and a
    // doubled quote stands for one quote character.
    let csv_data = b"id,name\n1,\"Smith, \"\"Al\"\"\nJr\"\n2,Bob";
    let schema = infer_schema(csv_data, b',', None, true).unwrap();
    let policy = build_policy(options()).unwrap();
    let (bytes, rows) = convert(csv_data, schema, b',', true, &policy).unwrap();
    assert_eq!(rows, 2);
    let batch = read_back(bytes);
    let col = batch.column(1).as_any().downcast_ref::<arrow::array::StringArray>().unwrap();
    assert_eq!(col.value(0), "Smith, \"Al\"\nJr");
    assert_eq!(col.value(1), "Bob");
}

#[test]
fn crlf_sources_convert_like_lf_sources() {
    let crlf = b"id,name\r\n1,Alice\r\n2,Bob\r\n";
    let schema = infer_schema(crlf, b',', None, true).unwrap();
    let policy = build_policy(options()).unwrap();
    let (bytes, rows) = convert(crlf, schema, b',', true, &policy).unwrap();
    assert_eq!(rows, 2);
    let batch = read_back(bytes);
    assert_eq!(
        batch.column(0).as_any().downcast_ref::<arrow::array::Int64Array>().unwrap().values(),
        &[1, 2]
    );
}

#[test]
fn boolean_cells_parse_in_any_letter_case() {
    let csv_data = b"flag\nTrue\nFALSE\ntrue";
    let fields = vec![Field::new("flag".to_string(), DataType::Boolean, true)];
    let schema = ColumnSchema::from_fields(fields).unwrap();
    let policy = build_policy(options()).unwrap();
    let (bytes, rows) = convert(csv_data, schema, b',', true, &policy).unwrap();
    assert_eq!(rows, 3);
    let batch = read_back(bytes);
    let col = batch.column(0).as_any().downcast_ref::<arrow::array::BooleanArray>().unwrap();
    assert!(col.value(0));
    assert!(!col.value(1));
    assert!(col.value(2));
}

#[test]
fn integer_cells_parse_to_the_exact_value() {
    assert_eq!(parse_i64_cell(b"0"), Some(0));
    assert_eq!(parse_i64_cell(b"-42"), Some(-42));
    assert_eq!(parse_i64_cell(b"+7"), Some(7));
    assert_eq!(parse_i64_cell(b"9223372036854775807"), Some(i64::MAX));
    assert_eq!(parse_i64_cell(b"-9223372036854775808"), Some(i64::MIN));
    assert_eq!(parse_i64_cell(b"9223372036854775808"), None);
    assert_eq!(parse_i64_cell(b"-9223372036854775809"), None);
    assert_eq!(parse_i64_cell(b""), None);
    assert_eq!(parse_i64_cell(b"-"), None);
    assert_eq!(parse_i64_cell(b"12a"), None);
}
