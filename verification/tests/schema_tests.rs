use csv_to_parquet::infer::infer_schema;
use csv_to_parquet::schema::{ColumnSchema, DataType, Field};
use csv_to_parquet::SchemaError;

#[test]
fn from_data_file_valid() {
    let csv_data = b"id,name\n1,Alice\n2,Bob";
    let actual = infer_schema(csv_data, b',', Some(10), true).unwrap();
    assert_eq!(actual.fields.len(), 2);
    assert_eq!(actual.fields[0].name, "id");
    assert_eq!(actual.fields[0].data_type, DataType::Int64);
    assert!(actual.fields[0].nullable);
    assert_eq!(actual.fields[1].name, "name");
    assert_eq!(actual.fields[1].data_type, DataType::Utf8);
    assert!(actual.fields[1].nullable);
}

#[test]
fn inference_is_deterministic() {
    let csv_data = b"id,name\n1,Alice\n2,Bob\nx,3.5";
    let a = infer_schema(csv_data, b',', None, true).unwrap();
    let b = infer_schema(csv_data, b',', None, true).unwrap();
    assert_eq!(a.fields.len(), b.fields.len());
    for (fa, fb) in a.fields.iter().zip(b.fields.iter()) {
        assert_eq!(fa.name, fb.name);
        assert_eq!(fa.data_type, fb.data_type);
        assert_eq!(fa.nullable, fb.nullable);
    }
}

#[test]
fn integers_never_widen_to_text() {
    let csv_data = b"a\n1\n-7\n42";
    let s = infer_schema(csv_data, b',', None, true).unwrap();
    assert_eq!(s.fields[0].data_type, DataType::Int64);
}

#[test]
fn floats_widen_integers() {
    let csv_data = b"a\n1\n2.5\n3";
    let s = infer_schema(csv_data, b',', None, true).unwrap();
    assert_eq!(s.fields[0].data_type, DataType::Float64);
}

#[test]
fn text_absorbs_everything() {
    let csv_data = b"a\n1\n2.5\nhello";
    let s = infer_schema(csv_data, b',', None, true).unwrap();
    assert_eq!(s.fields[0].data_type, DataType::Utf8);
}

#[test]
fn nulls_do_not_narrow() {
    let csv_data = b"a\n1\n\n3";
    let s = infer_schema(csv_data, b',', None, true).unwrap();
    assert_eq!(s.fields[0].data_type, DataType::Int64);
    assert!(s.fields[0].nullable);
}

#[test]
fn zero_sample_yields_nullable_text() {
    let csv_data = b"id,name\n1,Alice\n2,Bob";
    let s = infer_schema(csv_data, b',', Some(0), true).unwrap();
    assert_eq!(s.fields.len(), 2);
    for f in s.fields.iter() {
        assert_eq!(f.data_type, DataType::Utf8);
        assert!(f.nullable);
    }
}

#[test]
fn sampling_bound_limits_the_scan() {
    // Only the first data row is sampled, so the text in the second one
    // is never seen.
    let csv_data = b"a\n1\nhello";
    let s = infer_schema(csv_data, b',', Some(1), true).unwrap();
    assert_eq!(s.fields[0].data_type, DataType::Int64);
}

#[test]
fn headerless_sources_get_generated_names() {
    let csv_data = b"1,Alice\n2,Bob";
    let s = infer_schema(csv_data, b',', None, false).unwrap();
    assert_eq!(s.fields.len(), 2);
    assert_eq!(s.fields[0].name, "column_1");
    assert_eq!(s.fields[1].name, "column_2");
    assert_eq!(s.fields[0].data_type, DataType::Int64);
    assert_eq!(s.fields[1].data_type, DataType::Utf8);
}

#[test]
fn empty_source_yields_empty_schema() {
    let s = infer_schema(b"", b',', None, true).unwrap();
    assert_eq!(s.fields.len(), 0);
}

#[test]
fn invalid_header_cell_is_rejected() {
    let csv_data = [0xffu8, b'\n', b'1'];
    let r = infer_schema(&csv_data, b',', None, true);
    assert!(matches!(r, Err(SchemaError::InvalidFieldName(0))));
}

#[test]
fn duplicate_header_names_are_rejected() {
    let csv_data = b"id,id\n1,2";
    let r = infer_schema(csv_data, b',', None, true);
    assert!(matches!(r, Err(SchemaError::DuplicateFieldName(1))));
}

#[test]
fn explicit_schema_validates_unique_names() {
    let fields = vec![
        Field::new("id".to_string(), DataType::Int32, false),
        Field::new("id".to_string(), DataType::Utf8, true),
    ];
    let r = ColumnSchema::from_fields(fields);
    assert!(matches!(r, Err(SchemaError::DuplicateFieldName(1))));

    let fields = vec![
        Field::new("id".to_string(), DataType::Int32, false),
        Field::new("name".to_string(), DataType::Utf8, true),
    ];
    let s = ColumnSchema::from_fields(fields).unwrap();
    assert_eq!(s.fields.len(), 2);
}

#[test]
fn crlf_line_breaks_are_honored() {
    let csv_data = b"id,name\r\n1,Alice\r\n2,Bob\r\n";
    let s = infer_schema(csv_data, b',', None, true).unwrap();
    assert_eq!(s.fields[0].name, "id");
    assert_eq!(s.fields[1].name, "name");
    assert_eq!(s.fields[0].data_type, DataType::Int64);
    assert_eq!(s.fields[1].data_type, DataType::Utf8);
}

#[test]
fn quoted_cells_carry_delimiters_as_data() {
    // The quoted header cell holds a comma; the quoted data cell keeps
    // its digits text because of the embedded delimiter.
    let csv_data = b"\"a,b\",c\n\"1,5\",2";
    let s = infer_schema(csv_data, b',', None, true).unwrap();
    assert_eq!(s.fields.len(), 2);
    assert_eq!(s.fields[0].name, "a,b");
    assert_eq!(s.fields[0].data_type, DataType::Utf8);
    assert_eq!(s.fields[1].data_type, DataType::Int64);
}

#[test]
fn semicolon_delimiter_is_honored() {
    let csv_data = b"id;name\n1;Alice";
    let s = infer_schema(csv_data, b';', None, true).unwrap();
    assert_eq!(s.fields.len(), 2);
    assert_eq!(s.fields[0].name, "id");
    assert_eq!(s.fields[0].data_type, DataType::Int64);
}
