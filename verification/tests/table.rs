use datafusion_loki::error::{ErrorKind, LokiError};
use datafusion_loki::expr::{Column, Expr, Operator, ScalarValue};
use datafusion_loki::insert::{Boundedness, EmissionType, InputPlan};
use datafusion_loki::schema::{count_schema, log_table_schema, DataType, Field};
use datafusion_loki::table::{
    filters_pushdown, translate_filters, FilterPushDown, InsertOp, LokiLogTable, QueryParts,
};

fn column(name: &str) -> Expr {
    Expr::Column(Column { relation: None, name: name.to_string() })
}

fn text(value: &str) -> Expr {
    Expr::Literal(ScalarValue::Utf8(Some(value.to_string())))
}

fn binary(left: Expr, op: Operator, right: Expr) -> Expr {
    Expr::BinaryExpr { left: Box::new(left), op, right: Box::new(right) }
}

fn label_is(key: &str, value: &str) -> Expr {
    let lookup = Expr::ScalarFunction {
        name: "map_get".to_string(),
        args: vec![column("labels"), text(key)],
    };
    binary(lookup, Operator::Eq, text(value))
}

fn line_like(pattern: &str) -> Expr {
    Expr::Like {
        negated: false,
        expr: Box::new(column("line")),
        pattern: Box::new(text(pattern)),
        case_insensitive: false,
    }
}

fn timestamp_is(op: Operator, value: Option<i64>) -> Expr {
    binary(column("timestamp"), op, Expr::Literal(ScalarValue::TimestampNanosecond(value)))
}

fn unsupported() -> Expr {
    binary(column("line"), Operator::Eq, text("x"))
}

fn build_loki_table() -> LokiLogTable {
    LokiLogTable::try_new("http://localhost:33100").unwrap().with_default_label(Some("app".to_string()))
}

#[test]
fn full_table_scan() {
    // select * from loki
    let exec = build_loki_table().scan(None, &Vec::new(), None).unwrap();
    assert_eq!(exec.endpoint, "http://localhost:33100");
    assert_eq!(exec.log_query, "{app=~\".+\"} ");
    assert_eq!(exec.start, None);
    assert_eq!(exec.end, None);
    assert_eq!(exec.projection, None);
    assert_eq!(exec.limit, None);
}

#[test]
fn timestamp_filter() {
    // select * from loki where timestamp > T1 and timestamp <= T2
    let filters = vec![
        timestamp_is(Operator::Gt, Some(1_762_905_600_000_000_000)),
        timestamp_is(Operator::LtEq, Some(1_762_992_000_000_000_000)),
    ];
    let exec = build_loki_table().scan(None, &filters, None).unwrap();
    assert_eq!(exec.log_query, "{app=~\".+\"} ");
    assert_eq!(exec.start, Some(1_762_905_600_000_000_000));
    assert_eq!(exec.end, Some(1_762_992_000_000_000_000));
    let request = exec.request();
    assert_eq!(
        request.query,
        vec![
            ("query".to_string(), "{app=~\".+\"} ".to_string()),
            ("start".to_string(), "1762905600000000000".to_string()),
            ("end".to_string(), "1762992000000000000".to_string()),
        ]
    );
}

#[test]
fn label_filter() {
    // select * from loki where map_get(labels, 'app') = 'my-app2'
    let filters = vec![label_is("app", "my-app2")];
    let exec = build_loki_table().scan(None, &filters, None).unwrap();
    assert_eq!(exec.log_query, "{app=\"my-app2\"} ");
    // select * from loki where map_get(labels, 'app') = 'not-existing'
    let filters = vec![label_is("app", "not-existing")];
    let exec = build_loki_table().scan(None, &filters, None).unwrap();
    assert_eq!(exec.log_query, "{app=\"not-existing\"} ");
}

#[test]
fn line_filter() {
    // select * from loki where line like '%bbb%'
    let filters = vec![line_like("%bbb%")];
    let exec = build_loki_table().scan(None, &filters, None).unwrap();
    assert_eq!(exec.log_query, "{app=~\".+\"} |= `bbb`");
    // select * from loki where line like '%not-existing%'
    let filters = vec![line_like("%not-existing%")];
    let exec = build_loki_table().scan(None, &filters, None).unwrap();
    assert_eq!(exec.log_query, "{app=~\".+\"} |= `not-existing`");
}

#[test]
fn label_and_line_filters_make_one_query() {
    // select * from loki where map_get(labels, 'app') = 'my-app2' and line like '%bbb%'
    let filters = vec![label_is("app", "my-app2"), line_like("%bbb%")];
    let exec = build_loki_table().scan(Some(&vec![2, 0]), &filters, Some(2)).unwrap();
    assert_eq!(exec.log_query, "{app=\"my-app2\"} |= `bbb`");
    assert_eq!(exec.projection, Some(vec![2, 0]));
    assert_eq!(exec.limit, Some(2));
}

#[test]
fn filters_of_a_kind_are_joined_in_their_order() {
    let filters = vec![
        line_like("%one%"),
        label_is("app", "a"),
        timestamp_is(Operator::GtEq, Some(5)),
        binary(column("line"), Operator::RegexNotMatch, text("t.o")),
        label_is("env", "prod"),
        timestamp_is(Operator::Lt, Some(10)),
    ];
    let exec = build_loki_table().scan(None, &filters, None).unwrap();
    assert_eq!(exec.log_query, "{app=\"a\", env=\"prod\"} |= `one` !~`t.o`");
    assert_eq!((exec.start, exec.end), (Some(5), Some(10)));
}

#[test]
fn a_later_bound_replaces_an_earlier_one() {
    let filters = vec![
        timestamp_is(Operator::Gt, Some(5)),
        timestamp_is(Operator::Lt, Some(10)),
        timestamp_is(Operator::Gt, Some(7)),
        timestamp_is(Operator::Lt, None),
    ];
    let exec = build_loki_table().scan(None, &filters, None).unwrap();
    assert_eq!((exec.start, exec.end), (Some(7), None));
}

#[test]
fn a_query_without_label_selection_is_refused() {
    let table = LokiLogTable::try_new("http://localhost:33100").unwrap();
    assert_eq!(table.default_label, None);
    let out = table.scan(None, &vec![line_like("%x%")], None);
    assert_eq!(out, Err(LokiError::MissingLabelFilter));
    assert_eq!(LokiError::MissingLabelFilter.kind(), ErrorKind::Translation);
    assert_eq!(table.scan(None, &Vec::new(), None), Err(LokiError::MissingLabelFilter));
    let exec = table.scan(None, &vec![label_is("app", "a")], None).unwrap();
    assert_eq!(exec.log_query, "{app=\"a\"} ");
    let table = table.with_default_label(Some("job".to_string()));
    let exec = table.scan(None, &vec![line_like("%x%")], None).unwrap();
    assert_eq!(exec.log_query, "{job=~\".+\"} |= `x`");
}

#[test]
fn the_first_filter_that_cannot_be_translated_is_named() {
    let filters = vec![label_is("app", "a"), unsupported(), line_like("%x%"), unsupported()];
    let out = build_loki_table().scan(None, &filters, None);
    assert_eq!(out, Err(LokiError::UnsupportedFilter { position: 1 }));
    assert_eq!(LokiError::UnsupportedFilter { position: 1 }.kind(), ErrorKind::Translation);
    let table = LokiLogTable::try_new("e").unwrap();
    let out = table.scan(Some(&vec![9]), &vec![unsupported()], None);
    assert_eq!(out, Err(LokiError::UnsupportedFilter { position: 0 }));
}

#[test]
fn a_projection_beyond_the_table_is_refused_by_the_table() {
    let out = build_loki_table().scan(Some(&vec![1, 3]), &Vec::new(), None);
    assert_eq!(out, Err(LokiError::ProjectionOutOfBounds { index: 3, fields: 3 }));
}

#[test]
fn what_can_be_translated_is_pushed_down_exactly() {
    let table = build_loki_table();
    let filters = vec![
        label_is("app", "a"),
        unsupported(),
        line_like("%x%"),
        line_like("a%b"),
        timestamp_is(Operator::Gt, Some(1)),
        timestamp_is(Operator::Eq, Some(1)),
    ];
    let borrowed: Vec<&Expr> = filters.iter().collect();
    let verdicts = table.supports_filters_pushdown(&borrowed).unwrap();
    assert_eq!(
        verdicts,
        vec![
            FilterPushDown::Exact,
            FilterPushDown::Unsupported,
            FilterPushDown::Exact,
            FilterPushDown::Unsupported,
            FilterPushDown::Exact,
            FilterPushDown::Unsupported,
        ]
    );
    assert_eq!(table.supports_filters_pushdown(&Vec::new()), Ok(Vec::new()));
    let labels = vec!["app".to_string()];
    let by_column = binary(column("app"), Operator::Eq, text("a"));
    assert_eq!(filters_pushdown(&vec![&by_column], Some(&labels)), vec![FilterPushDown::Exact]);
    assert_eq!(filters_pushdown(&vec![&by_column], None), vec![FilterPushDown::Unsupported]);
}

#[test]
fn filters_become_fragments() {
    let filters = vec![label_is("app", "a"), line_like("%x%"), timestamp_is(Operator::Lt, Some(3))];
    let parts = translate_filters(&filters, None).unwrap();
    assert_eq!(
        parts,
        QueryParts {
            labels: vec!["app=\"a\"".to_string()],
            lines: vec!["|= `x`".to_string()],
            start: None,
            end: Some(3),
        }
    );
}

#[test]
fn rows_can_only_be_appended() {
    let table = build_loki_table();
    let input = || InputPlan {
        schema: log_table_schema(),
        emission: EmissionType::Incremental,
        boundedness: Boundedness::Bounded,
        num_rows: None,
    };
    let exec = table.insert_into(input(), InsertOp::Append).unwrap();
    assert_eq!(exec.endpoint, "http://localhost:33100");
    assert_eq!(table.insert_into(input(), InsertOp::Overwrite), Err(LokiError::UnsupportedInsertOp));
    assert_eq!(table.insert_into(input(), InsertOp::Replace), Err(LokiError::UnsupportedInsertOp));
    let mut other = input();
    other.schema = count_schema();
    assert_eq!(table.insert_into(other, InsertOp::Append), Err(LokiError::SchemaMismatch));
    let mut other = input();
    other.schema = count_schema();
    assert_eq!(table.insert_into(other, InsertOp::Replace), Err(LokiError::UnsupportedInsertOp));
}

#[test]
fn the_table_has_the_three_columns() {
    let schema = build_loki_table().schema();
    assert_eq!(schema.len(), 3);
    assert_eq!(schema[0], Field::new("timestamp", DataType::TimestampNanosecond, false));
    let entries = Field::new(
        "entries",
        DataType::Struct(vec![
            Field::new("keys", DataType::Utf8, false),
            Field::new("values", DataType::Utf8, true),
        ]),
        false,
    );
    assert_eq!(schema[1], Field::new("labels", DataType::MapOf(Box::new(entries), false), true));
    assert_eq!(schema[2], Field::new("line", DataType::Utf8, true));
}

#[test]
fn the_connection_is_judged_by_the_status() {
    let table = build_loki_table();
    assert_eq!(table.connection_check_url(), "http://localhost:33100/loki/api/v1/status/buildinfo");
    assert_eq!(table.check_connection(200), Ok(()));
    assert_eq!(table.check_connection(299), Ok(()));
    assert_eq!(table.check_connection(503), Err(LokiError::ConnectionFailed { status: 503 }));
    assert_eq!(table.check_connection(199), Err(LokiError::ConnectionFailed { status: 199 }));
}
