use datafusion_loki::error::{ErrorKind, LokiError};
use datafusion_loki::insert::{Boundedness, EmissionType};
use datafusion_loki::scan::{
    check_projection, columns_in_table_order, decode_plan_for, project_schema,
    status_is_success, DecodePlan, LokiLogScanExec, ScanAction, ScanEvent, ScanRequest,
    ScanState, SCAN_BATCH_SIZE,
};
use datafusion_loki::schema::{labels_field, line_field, log_table_schema, timestamp_field};

fn scan(
    query: &str,
    start: Option<i64>,
    end: Option<i64>,
    projection: Option<Vec<usize>>,
    limit: Option<usize>,
) -> LokiLogScanExec {
    LokiLogScanExec::try_new(
        "http://localhost:33100".to_string(),
        query.to_string(),
        start,
        end,
        projection,
        limit,
    )
    .unwrap()
}

fn param(name: &str, value: &str) -> (String, String) {
    (name.to_string(), value.to_string())
}

#[test]
fn a_scan_keeps_what_it_was_built_with() {
    let exec = scan("{app=\"a\"} ", Some(5), Some(10), Some(vec![2, 0]), Some(3));
    assert_eq!(exec.endpoint, "http://localhost:33100");
    assert_eq!(exec.log_query, "{app=\"a\"} ");
    assert_eq!(exec.start, Some(5));
    assert_eq!(exec.end, Some(10));
    assert_eq!(exec.projection, Some(vec![2, 0]));
    assert_eq!(exec.limit, Some(3));
    assert_eq!(exec.fetch(), Some(3));
}

#[test]
fn a_projection_beyond_the_table_is_refused() {
    let out = LokiLogScanExec::try_new(
        "e".to_string(),
        "q".to_string(),
        None,
        None,
        Some(vec![0, 5, 9]),
        None,
    );
    assert_eq!(out, Err(LokiError::ProjectionOutOfBounds { index: 5, fields: 3 }));
    let out =
        LokiLogScanExec::try_new("e".to_string(), "q".to_string(), None, None, Some(vec![3]), None);
    let Err(e) = out else {
        panic!("built");
    };
    assert_eq!(e, LokiError::ProjectionOutOfBounds { index: 3, fields: 3 });
    assert_eq!(e.kind(), ErrorKind::Configuration);
}

#[test]
fn a_projection_that_names_a_column_twice_is_refused() {
    let out =
        LokiLogScanExec::try_new("e".to_string(), "q".to_string(), None, None, Some(vec![1, 1]), None);
    assert_eq!(out, Err(LokiError::DuplicateProjection { index: 1 }));
    assert_eq!(LokiError::DuplicateProjection { index: 1 }.kind(), ErrorKind::Configuration);
    assert_eq!(
        check_projection(Some(&vec![0, 2, 1, 2, 0]), 3),
        Err(LokiError::DuplicateProjection { index: 2 })
    );
    assert_eq!(
        check_projection(Some(&vec![0, 0, 9]), 3),
        Err(LokiError::DuplicateProjection { index: 0 })
    );
    assert_eq!(
        check_projection(Some(&vec![0, 9, 0]), 3),
        Err(LokiError::ProjectionOutOfBounds { index: 9, fields: 3 })
    );
    assert_eq!(
        check_projection(Some(&vec![9, 9]), 3),
        Err(LokiError::ProjectionOutOfBounds { index: 9, fields: 3 })
    );
}

#[test]
fn the_decoder_is_told_where_each_column_stands() {
    assert_eq!(columns_in_table_order(&vec![2, 0]), vec![1, 0]);
    assert_eq!(columns_in_table_order(&vec![0, 1, 2]), vec![0, 1, 2]);
    assert_eq!(columns_in_table_order(&vec![2, 1, 0]), vec![2, 1, 0]);
    assert_eq!(columns_in_table_order(&vec![1]), vec![0]);
    assert_eq!(columns_in_table_order(&vec![7, 3, 9, 5]), vec![2, 0, 3, 1]);
    assert_eq!(columns_in_table_order(&Vec::new()), Vec::<usize>::new());
    let plan = decode_plan_for(&Some(vec![2, 0]));
    assert_eq!(
        plan,
        DecodePlan { projection: Some(vec![2, 0]), order: Some(vec![1, 0]), batch_size: 4096 }
    );
}

#[test]
fn projections_within_the_table_are_taken() {
    for projection in [vec![], vec![0], vec![2, 1, 0], vec![1, 2], vec![0, 1, 2]] {
        let exec = scan("q", None, None, Some(projection.clone()), None);
        assert_eq!(exec.projection, Some(projection));
    }
    assert_eq!(check_projection(None, 0), Ok(()));
    assert_eq!(check_projection(Some(&vec![0, 1]), 2), Ok(()));
    assert_eq!(
        check_projection(Some(&vec![0]), 0),
        Err(LokiError::ProjectionOutOfBounds { index: 0, fields: 0 })
    );
}

#[test]
fn with_fetch_gives_a_new_scan_and_leaves_the_old() {
    let exec = scan("q", Some(1), Some(2), Some(vec![1]), Some(3));
    let limited = exec.with_fetch(Some(100)).unwrap();
    assert_eq!(limited.fetch(), Some(100));
    assert_eq!(exec.fetch(), Some(3));
    assert_eq!(limited, scan("q", Some(1), Some(2), Some(vec![1]), Some(100)));
    let unlimited = exec.with_fetch(None).unwrap();
    assert_eq!(unlimited.fetch(), None);
    assert_eq!(unlimited, scan("q", Some(1), Some(2), Some(vec![1]), None));
}

#[test]
fn with_fetch_on_a_scan_that_was_not_built_gives_nothing() {
    let broken = LokiLogScanExec {
        endpoint: "e".to_string(),
        log_query: "q".to_string(),
        start: None,
        end: None,
        projection: Some(vec![4]),
        limit: None,
    };
    assert_eq!(broken.with_fetch(Some(1)), None);
}

#[test]
fn the_request_carries_what_is_set() {
    let exec = scan("{app=\"a\"} |= `x`", Some(-5), Some(10), Some(vec![0]), Some(3));
    let request = exec.request();
    assert_eq!(request.url, "http://localhost:33100/loki/api/v1/query_range");
    assert_eq!(request.accept, "application/vnd.apache.parquet");
    assert_eq!(
        request.query,
        vec![
            param("query", "{app=\"a\"} |= `x`"),
            param("start", "-5"),
            param("end", "10"),
            param("limit", "3"),
        ]
    );
}

#[test]
fn the_request_leaves_out_what_is_not_set() {
    assert_eq!(scan("", None, None, None, None).request().query, Vec::new());
    assert_eq!(scan("q", None, None, None, None).request().query, vec![param("query", "q")]);
    assert_eq!(scan("", Some(0), None, None, None).request().query, vec![param("start", "0")]);
    assert_eq!(
        scan("", None, Some(1762905600000000000), None, None).request().query,
        vec![param("end", "1762905600000000000")]
    );
    assert_eq!(scan("", None, None, None, Some(0)).request().query, vec![param("limit", "0")]);
}

#[test]
fn only_partition_zero_is_executed() {
    let exec = scan("q", None, None, None, None);
    assert_eq!(exec.execute(0), Ok(exec.request()));
    assert_eq!(exec.execute(1), Err(LokiError::UnsupportedPartition { partition: 1 }));
    assert_eq!(
        exec.execute(usize::MAX),
        Err(LokiError::UnsupportedPartition { partition: usize::MAX })
    );
}

#[test]
fn a_scan_runs_from_the_request_to_the_last_batch() {
    let exec = scan("q", None, None, Some(vec![2]), None);
    let (state, action) = exec.step(ScanState::Constructed, ScanEvent::Execute { partition: 0 });
    assert_eq!(state, ScanState::Requested);
    assert_eq!(action, ScanAction::Send(exec.request()));
    let answer = ScanEvent::Response { status: 200, url: "u".to_string(), body: None };
    let (state, action) = exec.step(state, answer);
    assert_eq!(state, ScanState::Streaming);
    let plan = DecodePlan { projection: Some(vec![2]), order: Some(vec![0]), batch_size: 4096 };
    assert_eq!(action, ScanAction::Decode(plan));
    assert_eq!(SCAN_BATCH_SIZE, 4096);
    let (state, action) = exec.step(state, ScanEvent::Batch);
    assert_eq!((state, action), (ScanState::Streaming, ScanAction::Emit));
    let (state, action) = exec.step(state, ScanEvent::Batch);
    assert_eq!((state, action), (ScanState::Streaming, ScanAction::Emit));
    let (state, action) = exec.step(state, ScanEvent::End);
    assert_eq!((state, action), (ScanState::Exhausted, ScanAction::Finish));
    let (state, action) = exec.step(state, ScanEvent::Batch);
    assert_eq!((state, action), (ScanState::Exhausted, ScanAction::Fail(LokiError::OutOfOrder)));
}

#[test]
fn a_scan_without_projection_decodes_every_column() {
    let exec = scan("q", None, None, None, None);
    let all = DecodePlan { projection: None, order: None, batch_size: 4096 };
    assert_eq!(exec.decode_plan(), all);
}

#[test]
fn an_answer_other_than_success_ends_the_scan() {
    let exec = scan("q", None, None, None, None);
    for status in [199u16, 300, 400, 404, 500, 0, u16::MAX] {
        let answer = ScanEvent::Response {
            status,
            url: "http://localhost:33100/loki/api/v1/query_range?query=q".to_string(),
            body: Some("parse error".to_string()),
        };
        let (state, action) = exec.step(ScanState::Requested, answer);
        assert_eq!(state, ScanState::Failed);
        let error = LokiError::RequestFailed {
            status,
            url: "http://localhost:33100/loki/api/v1/query_range?query=q".to_string(),
            body: Some("parse error".to_string()),
        };
        assert_eq!(error.kind(), ErrorKind::Transport);
        assert_eq!(action, ScanAction::Fail(error));
    }
    let answer = ScanEvent::Response { status: 503, url: "u".to_string(), body: None };
    let (_, action) = exec.step(ScanState::Requested, answer);
    let error = LokiError::RequestFailed { status: 503, url: "u".to_string(), body: None };
    assert_eq!(action, ScanAction::Fail(error));
}

#[test]
fn every_status_of_success_starts_the_decoding() {
    let exec = scan("q", None, None, None, None);
    for status in [200u16, 201, 204, 299] {
        let answer = ScanEvent::Response { status, url: "u".to_string(), body: None };
        let (state, _) = exec.step(ScanState::Requested, answer);
        assert_eq!(state, ScanState::Streaming);
        assert!(status_is_success(status));
    }
    assert!(!status_is_success(199));
    assert!(!status_is_success(300));
}

#[test]
fn another_partition_ends_the_scan_before_any_request() {
    let exec = scan("q", None, None, None, None);
    let (state, action) = exec.step(ScanState::Constructed, ScanEvent::Execute { partition: 2 });
    assert_eq!(state, ScanState::Failed);
    assert_eq!(action, ScanAction::Fail(LokiError::UnsupportedPartition { partition: 2 }));
}

#[test]
fn failures_on_the_way_end_the_scan() {
    let exec = scan("q", None, None, None, None);
    let event = ScanEvent::TransportFailed { message: "refused".to_string() };
    let (state, action) = exec.step(ScanState::Requested, event);
    assert_eq!(state, ScanState::Failed);
    assert_eq!(action, ScanAction::Fail(LokiError::Transport { message: "refused".to_string() }));
    let event = ScanEvent::TransportFailed { message: "reset".to_string() };
    let (state, action) = exec.step(ScanState::Streaming, event);
    assert_eq!(state, ScanState::Failed);
    assert_eq!(action, ScanAction::Fail(LokiError::Transport { message: "reset".to_string() }));
    let event = ScanEvent::DecodeFailed { message: "no magic".to_string() };
    let (state, action) = exec.step(ScanState::Streaming, event);
    assert_eq!(state, ScanState::Failed);
    let error = LokiError::MalformedBody { message: "no magic".to_string() };
    assert_eq!(error.kind(), ErrorKind::Decode);
    assert_eq!(action, ScanAction::Fail(error));
}

#[test]
fn events_that_do_not_fit_the_state_end_the_scan() {
    let exec = scan("q", None, None, None, None);
    let out_of_order = ScanAction::Fail(LokiError::OutOfOrder);
    let (state, action) = exec.step(ScanState::Constructed, ScanEvent::Batch);
    assert_eq!((state, action), (ScanState::Failed, out_of_order.clone()));
    let (state, action) = exec.step(ScanState::Requested, ScanEvent::Execute { partition: 0 });
    assert_eq!((state, action), (ScanState::Failed, out_of_order.clone()));
    let (state, action) = exec.step(ScanState::Requested, ScanEvent::End);
    assert_eq!((state, action), (ScanState::Failed, out_of_order.clone()));
    let (state, action) = exec.step(ScanState::Streaming, ScanEvent::Execute { partition: 0 });
    assert_eq!((state, action), (ScanState::Failed, out_of_order.clone()));
    let (state, action) = exec.step(ScanState::Failed, ScanEvent::End);
    assert_eq!((state, action), (ScanState::Failed, out_of_order.clone()));
    let (state, action) = exec.step(ScanState::Exhausted, ScanEvent::Execute { partition: 0 });
    assert_eq!((state, action), (ScanState::Exhausted, out_of_order));
}

#[test]
fn a_scan_is_displayed_with_what_is_set() {
    let exec = scan("{app=\"a\"} ", None, None, None, None);
    assert_eq!(
        exec.display(),
        "LokiLogScanExec: endpoint=http://localhost:33100, query={app=\"a\"} "
    );
    let exec = scan("q", Some(5), Some(-10), Some(vec![0, 2]), Some(3));
    assert_eq!(
        exec.display(),
        "LokiLogScanExec: endpoint=http://localhost:33100, query=q, start=5, end=-10, \
         projection=[timestamp, line], limit=3"
    );
    let exec = scan("q", None, None, Some(vec![]), None);
    assert_eq!(exec.display(), "LokiLogScanExec: endpoint=http://localhost:33100, query=q, projection=[]");
    let exec = scan("q", None, None, Some(vec![1]), Some(0));
    assert_eq!(
        exec.display(),
        "LokiLogScanExec: endpoint=http://localhost:33100, query=q, projection=[labels], limit=0"
    );
}

#[test]
fn a_request_is_what_it_holds() {
    let request = ScanRequest { url: "u".to_string(), accept: "a".to_string(), query: Vec::new() };
    assert_eq!(request.clone(), request);
}

#[test]
fn a_schema_under_a_projection() {
    let table = log_table_schema();
    assert_eq!(project_schema(&table, None), Ok(log_table_schema()));
    assert_eq!(
        project_schema(&table, Some(&vec![2, 0])),
        Ok(vec![line_field(), timestamp_field()])
    );
    assert_eq!(project_schema(&table, Some(&vec![1])), Ok(vec![labels_field()]));
    assert_eq!(project_schema(&table, Some(&Vec::new())), Ok(Vec::new()));
    assert_eq!(
        project_schema(&table, Some(&vec![0, 3])),
        Err(LokiError::ProjectionOutOfBounds { index: 3, fields: 3 })
    );
    assert_eq!(
        project_schema(&table, Some(&vec![0, 0])),
        Err(LokiError::DuplicateProjection { index: 0 })
    );
}

#[test]
fn a_scan_gives_its_projected_columns_in_one_partition() {
    let properties = scan("q", None, None, Some(vec![2, 1]), None).properties().unwrap();
    assert_eq!(properties.schema, vec![line_field(), labels_field()]);
    assert_eq!(properties.partitions, 1);
    assert_eq!(properties.emission, EmissionType::Incremental);
    assert_eq!(properties.boundedness, Boundedness::Bounded);
    let properties = scan("q", None, None, None, None).properties().unwrap();
    assert_eq!(properties.schema, log_table_schema());
}
