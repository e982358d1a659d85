use datafusion_loki::error::LokiError;
use datafusion_loki::expr::{Column, Expr, Operator, ScalarValue};
use datafusion_loki::flat::{make_table_schema, LokiLogScanExec, LokiLogTable};
use datafusion_loki::schema::{DataType, Field};
use datafusion_loki::table::FilterPushDown;

fn labels() -> Vec<String> {
    vec!["app".to_string(), "env".to_string()]
}

fn column(name: &str) -> Expr {
    Expr::Column(Column { relation: None, name: name.to_string() })
}

fn text(value: &str) -> Expr {
    Expr::Literal(ScalarValue::Utf8(Some(value.to_string())))
}

fn binary(left: Expr, op: Operator, right: Expr) -> Expr {
    Expr::BinaryExpr { left: Box::new(left), op, right: Box::new(right) }
}

fn table() -> LokiLogTable {
    LokiLogTable::try_new("http://localhost:33100".to_string(), labels()).unwrap()
}

#[test]
fn every_label_is_a_column_between_timestamp_and_line() {
    let schema = make_table_schema(&labels());
    assert_eq!(
        schema,
        vec![
            Field::new("timestamp", DataType::TimestampNanosecond, false),
            Field::new("app", DataType::Utf8, true),
            Field::new("env", DataType::Utf8, true),
            Field::new("line", DataType::Utf8, true),
        ]
    );
    assert_eq!(make_table_schema(&Vec::new()).len(), 2);
    assert_eq!(table().schema, schema);
}

#[test]
fn a_label_called_like_another_column_is_refused() {
    let out = LokiLogTable::try_new("e".to_string(), vec!["app".to_string(), "line".to_string()]);
    assert_eq!(out, Err(LokiError::ReservedLabel));
    let out = LokiLogTable::try_new("e".to_string(), vec!["timestamp".to_string()]);
    assert_eq!(out, Err(LokiError::ReservedLabel));
    assert!(LokiLogTable::try_new("e".to_string(), vec!["labels".to_string()]).is_ok());
    assert!(LokiLogTable::try_new("e".to_string(), Vec::new()).is_ok());
}

#[test]
fn predicates_on_label_columns_make_the_query() {
    let filters = vec![
        binary(column("app"), Operator::Eq, text("a")),
        binary(column("line"), Operator::RegexMatch, text("x")),
        binary(text("prod"), Operator::NotEq, column("env")),
    ];
    let exec = table().scan(Some(&vec![0, 3]), &filters, Some(10)).unwrap();
    assert_eq!(exec.log_query, "app=\"a\", env!=\"prod\" |~`x`");
    assert_eq!(exec.labels, labels());
    assert_eq!(exec.projection, Some(vec![0, 3]));
    assert_eq!(exec.limit, Some(10));
    assert_eq!(exec.endpoint, "http://localhost:33100");
}

#[test]
fn a_query_on_label_columns_needs_a_label_filter() {
    let filters = vec![binary(column("line"), Operator::RegexMatch, text("x"))];
    assert_eq!(table().scan(None, &filters, None), Err(LokiError::MissingLabelFilter));
    assert_eq!(table().scan(None, &Vec::new(), None), Err(LokiError::MissingLabelFilter));
}

#[test]
fn a_predicate_on_a_column_that_is_no_label_is_not_pushed_down() {
    let on_label = binary(column("app"), Operator::Eq, text("a"));
    let on_other = binary(column("zone"), Operator::Eq, text("z"));
    let verdicts = table().supports_filters_pushdown(&vec![&on_label, &on_other]).unwrap();
    assert_eq!(verdicts, vec![FilterPushDown::Exact, FilterPushDown::Unsupported]);
    let out = table().scan(None, &vec![on_label, on_other], None);
    assert_eq!(out, Err(LokiError::UnsupportedFilter { position: 1 }));
}

#[test]
fn the_projection_is_held_against_all_columns() {
    let filters = vec![binary(column("app"), Operator::Eq, text("a"))];
    let out = table().scan(Some(&vec![3, 4]), &filters, None);
    assert_eq!(out, Err(LokiError::ProjectionOutOfBounds { index: 4, fields: 4 }));
    let out = LokiLogScanExec::try_new(
        "e".to_string(),
        Vec::new(),
        "q".to_string(),
        None,
        None,
        Some(vec![2]),
        None,
    );
    assert_eq!(out, Err(LokiError::ProjectionOutOfBounds { index: 2, fields: 2 }));
}

#[test]
fn a_scan_on_label_columns_is_limited_and_displayed() {
    let exec = LokiLogScanExec::try_new(
        "e".to_string(),
        labels(),
        "app=\"a\" ".to_string(),
        Some(1),
        None,
        Some(vec![3, 1, 2, 0]),
        None,
    )
    .unwrap();
    assert_eq!(exec.fetch(), None);
    let limited = exec.with_fetch(Some(5)).unwrap();
    assert_eq!(limited.fetch(), Some(5));
    assert_eq!(limited.labels, labels());
    assert_eq!(
        limited.display(),
        "LokiLogScanExec: endpoint=e, query=app=\"a\" , start=1, \
         projection=[line, app, env, timestamp], limit=5"
    );
    assert_eq!(exec.display(), "LokiLogScanExec: endpoint=e, query=app=\"a\" , start=1, projection=[line, app, env, timestamp]");
}
