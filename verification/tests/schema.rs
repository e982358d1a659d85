use datafusion_loki::schema::{
    check_log_table_schema, copy_fields, count_schema, labels_field, line_field,
    log_table_schema, schemas_match, timestamp_field, DataType, Field, LOG_TABLE_COLUMNS,
};

#[test]
fn the_schema_of_a_log_table_is_its_own() {
    assert!(check_log_table_schema(&log_table_schema()));
    assert_eq!(log_table_schema().len(), LOG_TABLE_COLUMNS);
    assert_eq!(log_table_schema(), vec![timestamp_field(), labels_field(), line_field()]);
    assert!(!check_log_table_schema(&count_schema()));
    assert!(!check_log_table_schema(&Vec::new()));
    assert!(!check_log_table_schema(&vec![timestamp_field(), line_field(), labels_field()]));
}

#[test]
fn types_are_the_same_with_their_names() {
    let other = |name: &str| DataType::Other(name.to_string());
    assert!(other("Int32").is_same(&other("Int32")));
    assert!(!other("Int32").is_same(&other("UInt32")));
    assert!(!other("Int64").is_same(&DataType::Int64));
    assert!(DataType::Utf8.is_same(&DataType::Utf8));
    assert!(!DataType::Utf8.is_same(&DataType::TimestampNanosecond));
    let a = DataType::Struct(vec![Field::new("x", DataType::Int64, true)]);
    let b = DataType::Struct(vec![Field::new("y", DataType::Int64, true)]);
    assert!(a.is_same(&a.copy()));
    assert!(!a.is_same(&b));
    assert!(!a.is_same(&DataType::Struct(Vec::new())));
    assert!(labels_field().is_same(&labels_field().copy()));
    assert!(!labels_field().is_same(&line_field()));
}

#[test]
fn copies_are_the_same() {
    let schema = log_table_schema();
    let copy = copy_fields(&schema);
    assert_eq!(copy, schema);
    assert!(schemas_match(&copy, &schema));
    assert!(!schemas_match(&copy, &count_schema()));
    assert_eq!(DataType::Other("Date32".to_string()).copy(), DataType::Other("Date32".to_string()));
}
