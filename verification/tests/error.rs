use datafusion_loki::error::{DecodeFault, ErrorKind, LokiError};

fn some(text: &str) -> Option<String> {
    Some(text.to_string())
}

#[test]
fn errors_say_what_went_wrong() {
    let cases = [
        (
            LokiError::ProjectionOutOfBounds { index: 5, fields: 3 },
            "project index 5 out of bounds, max field 3",
        ),
        (LokiError::DuplicateProjection { index: 1 }, "project index 1 is given twice"),
        (LokiError::SchemaMismatch, "input exec schema not matched"),
        (LokiError::ReservedLabel, "Labels should not contains timestamp or line"),
        (
            LokiError::ArgumentCount { expected: 2, found: 3 },
            "map_get function requires 2 arguments, got 3",
        ),
        (LokiError::NotAMap, "Expected a Map type"),
        (LokiError::NotAStruct, "Expected a Struct type"),
        (LokiError::InvalidMapColumn, "The offsets of the map column do not fit its entries"),
        (
            LokiError::MixedLength { expected: 4, found: 1 },
            "Arguments has mixed length. Expected length: 4, found length: 1",
        ),
        (LokiError::UnsupportedFilter { position: 12 }, "Unsupported filter at position 12"),
        (LokiError::MissingLabelFilter, "No label filters or default label provided"),
        (LokiError::UnsupportedInsertOp, "Only support append insert operation"),
        (
            LokiError::UnsupportedPartition { partition: 2 },
            "Partition 2 is not supported: there is only partition 0",
        ),
        (LokiError::ConnectionFailed { status: 503 }, "Failed to connect to loki with status 503"),
        (
            LokiError::Transport { message: "connection refused".to_string() },
            "Failed to send request to loki: connection refused",
        ),
        (
            LokiError::RequestFailed {
                status: 400,
                url: "http://x/loki/api/v1/query_range?query=q".to_string(),
                body: some("parse error"),
            },
            "Request to loki failed with status 400, \
             url: http://x/loki/api/v1/query_range?query=q, text: parse error",
        ),
        (
            LokiError::RequestFailed { status: 500, url: "http://x".to_string(), body: None },
            "Request to loki failed with status 500, url: http://x",
        ),
        (
            LokiError::InputFailed { message: "boom".to_string() },
            "Failed to read the rows to insert: boom",
        ),
        (
            LokiError::PushFailed { status: 429, body: some("slow down") },
            "Failed to send push request to loki with status 429, text: slow down",
        ),
        (
            LokiError::PushFailed { status: 65535, body: None },
            "Failed to send push request to loki with status 65535",
        ),
        (LokiError::NullTimestamp { row: 0 }, "timestamp should not be null, row 0"),
        (LokiError::NullLabelKey { row: 7 }, "label key should not be null, row 7"),
        (
            LokiError::MalformedBody { message: "no magic".to_string() },
            "Failed to decode the response of loki: no magic",
        ),
        (
            LokiError::Decode { fault: DecodeFault::Malformed },
            "Failed to decode loki physical plan node",
        ),
        (
            LokiError::Decode { fault: DecodeFault::NoPlanType },
            "Failed to decode loki physical plan node due to physical plan type is none",
        ),
        (
            LokiError::InputCount { found: 2 },
            "LokiLogInsertExec only support one input, got 2",
        ),
        (
            LokiError::NotImplemented { name: "FilterExec".to_string() },
            "LokiPhysicalCodec does not support encoding FilterExec",
        ),
        (LokiError::OutOfOrder, "The event does not fit the state of the operator"),
    ];
    for (error, message) in cases {
        assert_eq!(error.message(), message);
    }
}

#[test]
fn errors_fall_into_four_classes() {
    assert_eq!(LokiError::ReservedLabel.kind(), ErrorKind::Configuration);
    assert_eq!(LokiError::InputCount { found: 0 }.kind(), ErrorKind::Configuration);
    assert_eq!(LokiError::NotAMap.kind(), ErrorKind::Configuration);
    assert_eq!(LokiError::UnsupportedInsertOp.kind(), ErrorKind::Translation);
    assert_eq!(LokiError::NotImplemented { name: String::new() }.kind(), ErrorKind::Translation);
    assert_eq!(LokiError::ConnectionFailed { status: 500 }.kind(), ErrorKind::Transport);
    assert_eq!(LokiError::UnsupportedPartition { partition: 1 }.kind(), ErrorKind::Transport);
    assert_eq!(LokiError::OutOfOrder.kind(), ErrorKind::Transport);
    assert_eq!(LokiError::Decode { fault: DecodeFault::Malformed }.kind(), ErrorKind::Decode);
    assert_eq!(LokiError::Decode { fault: DecodeFault::NoPlanType }.kind(), ErrorKind::Decode);
}
