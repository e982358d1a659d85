use datafusion_loki::error::LokiError;
use datafusion_loki::function::{
    general_map_extract_inner, get_map_entry_field, lookup_key, map_extract_inner,
    map_get_values, KeyArg, Lookup, MapArg, MapColumn, MapGet, Signature, TypeSignature,
    Volatility,
};
use datafusion_loki::schema::{DataType, Field};

fn key(text: &str) -> Option<String> {
    Some(text.to_string())
}

fn map_type(key_type: DataType, value_type: DataType) -> DataType {
    let entries = Field::new(
        "entries",
        DataType::Struct(vec![
            Field::new("keys", key_type, false),
            Field::new("values", value_type, true),
        ]),
        false,
    );
    DataType::MapOf(Box::new(entries), false)
}

/// Rows: {a, b}, null, {}, {c, a, a}.
fn column() -> MapColumn {
    MapColumn {
        offsets: vec![0, 2, 2, 2, 5],
        keys: vec![key("a"), key("b"), key("c"), key("a"), key("a")],
        valid: vec![true, false, true, true],
    }
}

#[test]
fn test_map_get() {
    let map_get = MapGet::new();
    // Map {'a': 1}, looked up with 'a': the value of the first entry.
    let map = MapArg::Scalar(Some(vec![key("a")]));
    let found = map_get.invoke_with_args(&map, &KeyArg::Scalar(key("a")));
    assert_eq!(found, Ok(Lookup::Scalar(Some(0))));
    // Map {'a': 1}, looked up with 'b': null.
    let found = map_get.invoke_with_args(&map, &KeyArg::Scalar(key("b")));
    assert_eq!(found, Ok(Lookup::Scalar(None)));

    let one_map = MapColumn { offsets: vec![0, 1], keys: vec![key("a")], valid: vec![true] };
    let values = vec![Some(1)];
    assert_eq!(map_get_values(&one_map, &values, &vec![key("a")]), Ok(vec![Some(&1)]));
    assert_eq!(map_get_values(&one_map, &values, &vec![key("b")]), Ok(vec![None]));
}

#[test]
fn the_values_of_the_entries_that_were_found() {
    let values = vec![Some("1"), None, Some("3"), Some("4"), Some("5")];
    let keys = vec![key("b"), key("a"), key("a"), key("a")];
    let out = map_get_values(&column(), &values, &keys);
    assert_eq!(out, Ok(vec![None, None, None, Some(&"4")]));
    let keys = vec![key("a"), key("a"), key("a"), key("c")];
    let out = map_get_values(&column(), &values, &keys);
    assert_eq!(out, Ok(vec![Some(&"1"), None, None, Some(&"3")]));
    let too_few = vec![Some("1")];
    assert_eq!(map_get_values(&column(), &too_few, &keys), Err(LokiError::InvalidMapColumn));
    let out = map_get_values(&column(), &values, &vec![key("a")]);
    assert_eq!(out, Err(LokiError::MixedLength { expected: 4, found: 1 }));
}

#[test]
fn a_key_that_comes_twice_gives_the_first_entry() {
    let map = MapArg::Scalar(Some(vec![key("a"), key("b"), key("a")]));
    let found = MapGet::new().invoke_with_args(&map, &KeyArg::Scalar(key("a")));
    assert_eq!(found, Ok(Lookup::Scalar(Some(0))));
    let found = MapGet::new().invoke_with_args(&map, &KeyArg::Scalar(key("b")));
    assert_eq!(found, Ok(Lookup::Scalar(Some(1))));
}

#[test]
fn a_null_map_gives_null() {
    let found = MapGet::new().invoke_with_args(&MapArg::Scalar(None), &KeyArg::Scalar(key("a")));
    assert_eq!(found, Ok(Lookup::Scalar(None)));
}

#[test]
fn a_null_key_matches_no_key_that_is_set() {
    let map = MapArg::Scalar(Some(vec![key("a")]));
    let found = MapGet::new().invoke_with_args(&map, &KeyArg::Scalar(None));
    assert_eq!(found, Ok(Lookup::Scalar(None)));
    let map = MapArg::Scalar(Some(vec![key("a"), None]));
    let found = MapGet::new().invoke_with_args(&map, &KeyArg::Scalar(None));
    assert_eq!(found, Ok(Lookup::Scalar(Some(1))));
}

#[test]
fn a_column_of_maps_is_looked_up_row_by_row() {
    let keys = vec![key("b"), key("a"), key("a"), key("a")];
    let found = general_map_extract_inner(&column(), &keys);
    assert_eq!(found, vec![Some(1), None, None, Some(3)]);
    assert_eq!(map_extract_inner(&column(), &keys), Ok(vec![Some(1), None, None, Some(3)]));
}

#[test]
fn a_null_row_gives_null_whatever_its_entries() {
    let map = MapColumn { offsets: vec![0, 1], keys: vec![key("a")], valid: vec![false] };
    assert_eq!(general_map_extract_inner(&map, &vec![key("a")]), vec![None]);
    let map = MapColumn { offsets: vec![0, 1], keys: vec![key("a")], valid: vec![true] };
    assert_eq!(general_map_extract_inner(&map, &vec![key("a")]), vec![Some(0)]);
}

#[test]
fn a_column_that_starts_behind_its_first_entry() {
    let map = MapColumn {
        offsets: vec![1, 3],
        keys: vec![key("a"), key("b"), key("a")],
        valid: vec![true],
    };
    assert_eq!(general_map_extract_inner(&map, &vec![key("a")]), vec![Some(2)]);
}

#[test]
fn a_single_key_counts_for_every_row() {
    let found = MapGet::new().invoke_with_args(&MapArg::Array(column()), &KeyArg::Scalar(key("a")));
    assert_eq!(found, Ok(Lookup::Array(vec![Some(0), None, None, Some(3)])));
}

#[test]
fn a_single_map_counts_for_every_row() {
    let map = MapArg::Scalar(Some(vec![key("x"), key("y")]));
    let keys = KeyArg::Array(vec![key("y"), key("z"), None, key("x")]);
    let found = MapGet::new().invoke_with_args(&map, &keys);
    assert_eq!(found, Ok(Lookup::Array(vec![Some(1), None, None, Some(0)])));
    let found = MapGet::new().invoke_with_args(&map, &KeyArg::Array(Vec::new()));
    assert_eq!(found, Ok(Lookup::Array(Vec::new())));
}

#[test]
fn two_columns_are_looked_up_together() {
    let keys = KeyArg::Array(vec![key("a"), key("a"), key("a"), key("c")]);
    let found = MapGet::new().invoke_with_args(&MapArg::Array(column()), &keys);
    assert_eq!(found, Ok(Lookup::Array(vec![Some(0), None, None, Some(2)])));
}

#[test]
fn two_columns_of_different_length_are_refused() {
    let keys = vec![key("a")];
    assert_eq!(
        map_extract_inner(&column(), &keys),
        Err(LokiError::MixedLength { expected: 4, found: 1 })
    );
    let found = MapGet::new().invoke_with_args(&MapArg::Array(column()), &KeyArg::Array(keys));
    assert_eq!(found, Err(LokiError::MixedLength { expected: 4, found: 1 }));
}

#[test]
fn a_column_with_broken_offsets_is_refused() {
    let no_offsets = MapColumn { offsets: vec![], keys: vec![], valid: vec![] };
    assert!(!no_offsets.check());
    let too_few = MapColumn { offsets: vec![0], keys: vec![], valid: vec![true] };
    assert!(!too_few.check());
    let falling = MapColumn { offsets: vec![1, 0], keys: vec![key("a")], valid: vec![true] };
    assert!(!falling.check());
    let beyond = MapColumn { offsets: vec![0, 2], keys: vec![key("a")], valid: vec![true] };
    assert!(!beyond.check());
    assert_eq!(map_extract_inner(&beyond, &vec![key("a")]), Err(LokiError::InvalidMapColumn));
    let found = MapGet::new().invoke_with_args(&MapArg::Array(beyond), &KeyArg::Scalar(key("a")));
    assert_eq!(found, Err(LokiError::InvalidMapColumn));
    let empty = MapColumn { offsets: vec![0], keys: vec![], valid: vec![] };
    assert!(empty.check());
    assert_eq!(map_extract_inner(&empty, &Vec::new()), Ok(Vec::new()));
    assert!(column().check());
}

#[test]
fn lookup_reads_only_the_given_range() {
    let keys = vec![key("a"), key("b"), key("a")];
    assert_eq!(lookup_key(&keys, 0, 3, &key("a")), Some(0));
    assert_eq!(lookup_key(&keys, 1, 3, &key("a")), Some(2));
    assert_eq!(lookup_key(&keys, 1, 2, &key("a")), None);
    assert_eq!(lookup_key(&keys, 3, 3, &key("a")), None);
}

#[test]
fn the_result_has_the_type_of_the_values() {
    let map_get = MapGet::new();
    let args = vec![map_type(DataType::Utf8, DataType::Int64), DataType::Utf8];
    assert_eq!(map_get.return_type(&args), Ok(DataType::Int64));
    let args = vec![
        map_type(DataType::Utf8, DataType::Other("Int32".to_string())),
        DataType::Other("Float64".to_string()),
    ];
    assert_eq!(map_get.return_type(&args), Ok(DataType::Other("Int32".to_string())));
}

#[test]
fn the_key_is_brought_to_the_type_of_the_keys() {
    let map_get = MapGet::new();
    let args = vec![map_type(DataType::Utf8, DataType::Int64), DataType::Int64];
    assert_eq!(
        map_get.coerce_types(&args),
        Ok(vec![map_type(DataType::Utf8, DataType::Int64), DataType::Utf8])
    );
}

#[test]
fn argument_types_that_do_not_fit_are_refused() {
    let map_get = MapGet::new();
    let one = vec![map_type(DataType::Utf8, DataType::Int64)];
    assert_eq!(
        map_get.return_type(&one),
        Err(LokiError::ArgumentCount { expected: 2, found: 1 })
    );
    assert_eq!(
        map_get.coerce_types(&Vec::new()),
        Err(LokiError::ArgumentCount { expected: 2, found: 0 })
    );
    let no_map = vec![DataType::Utf8, DataType::Utf8];
    assert_eq!(map_get.return_type(&no_map), Err(LokiError::NotAMap));
    assert_eq!(map_get.coerce_types(&no_map), Err(LokiError::NotAMap));
    let entries = Field::new("entries", DataType::Utf8, false);
    let no_struct = vec![DataType::MapOf(Box::new(entries), false), DataType::Utf8];
    assert_eq!(map_get.return_type(&no_struct), Err(LokiError::NotAStruct));
    let entries = Field::new("entries", DataType::Struct(Vec::new()), false);
    let no_fields = vec![DataType::MapOf(Box::new(entries), false), DataType::Utf8];
    assert_eq!(map_get.return_type(&no_fields), Err(LokiError::NotAStruct));
    assert_eq!(map_get.coerce_types(&no_fields), Err(LokiError::NotAStruct));
}

#[test]
fn the_entries_of_a_map_type() {
    let t = map_type(DataType::Utf8, DataType::Int64);
    let fields = get_map_entry_field(&t).unwrap();
    assert_eq!(fields.len(), 2);
    assert_eq!(fields[0], Field::new("keys", DataType::Utf8, false));
    assert_eq!(fields[1], Field::new("values", DataType::Int64, true));
    assert_eq!(get_map_entry_field(&DataType::Int64), Err(LokiError::NotAMap));
}

#[test]
fn how_the_function_is_called() {
    let map_get = MapGet::default();
    assert_eq!(map_get.name(), "map_get");
    assert_eq!(
        map_get.signature(),
        Signature { type_signature: TypeSignature::UserDefined, volatility: Volatility::Immutable }
    );
    assert!(map_get.aliases().is_empty());
}
